//! Replaying the search from the opening moves and totalling the nodes
//! visited.

use vstd::prelude::*;
use crate::board::{lemma_opening_alternating, opening, Board, Piece};
use crate::search::{configured, min_max, search, SCORE_MAX, SCORE_MIN};
use crate::theory::{lemma_nodes_bound, lemma_tree_sizes};

verus! {

/// How often each opening is searched where the caller names no number.
pub const DEFAULT_ITERATIONS: i32 = 1;

/// The opening in a corner.
pub const CORNER: usize = 0;

/// The opening on the middle of an edge.
pub const EDGE: usize = 1;

/// The opening in the centre.
pub const CENTER: usize = 4;

/// The most nodes that one search from an opening can visit.
pub const MAX_NODES: usize = 109601;

/// The nodes that one search from the opening on cell `mov` visits.
pub open spec fn opening_nodes(mov: int) -> nat {
    search(opening(mov), SCORE_MIN as int, SCORE_MAX as int, 0, mov, configured()).nodes
}

/// The nodes that `iterations` searches from the opening on cell `mov`
/// visit; none where `iterations` is not positive.
pub open spec fn board_nodes(mov: int, iterations: int) -> int {
    if iterations > 0 {
        iterations * opening_nodes(mov)
    } else {
        0
    }
}

/// One search from an opening visits at least one node and at most
/// `MAX_NODES`.
pub proof fn lemma_opening_nodes_bound(mov: int)
    requires
        0 <= mov < 9,
    ensures
        1 <= opening_nodes(mov) <= MAX_NODES,
{
    lemma_opening_alternating(mov);
    lemma_nodes_bound(opening(mov), SCORE_MIN as int, SCORE_MAX as int, 0, mov, configured());
    lemma_tree_sizes();
}

/// The number of iterations to run for what the caller asked: the number
/// itself where it is positive, else the default.
pub fn iterations_or_default(requested: Option<i32>) -> (n: i32)
    ensures
        n == match requested {
            Some(r) if r > 0 => r,
            _ => DEFAULT_ITERATIONS,
        },
        n >= 1,
{
    match requested {
        Some(r) => if r > 0 {
            r
        } else {
            DEFAULT_ITERATIONS
        },
        None => DEFAULT_ITERATIONS,
    }
}

/// Whether a counter has room for the nodes of `iterations` searches from
/// each of the three openings, counted at the most that a search can visit.
/// Where it has, every run of that many iterations fits.
pub fn can_count(iterations: i32) -> (ok: bool)
    ensures
        ok == (iterations <= 0 || 3 * iterations * MAX_NODES <= usize::MAX),
        ok ==> board_nodes(CORNER as int, iterations as int) + board_nodes(
            EDGE as int,
            iterations as int,
        ) + board_nodes(CENTER as int, iterations as int) <= usize::MAX,
        ok ==> forall|mov: int|
            0 <= mov < 9 ==> #[trigger] board_nodes(mov, iterations as int) <= usize::MAX,
{
    if iterations <= 0 {
        return true;
    }
    let need: u64 = (iterations as u64) * 328803;
    let ok: bool = need <= usize::MAX as u64;
    proof {
        if ok {
            let it = iterations as int;
            assert forall|mov: int| 0 <= mov < 9 implies #[trigger] board_nodes(mov, it)
                <= it * MAX_NODES by {
                lemma_board_nodes_bound(mov, it, it);
            }
            assert(board_nodes(CORNER as int, it) <= it * MAX_NODES);
            assert(board_nodes(EDGE as int, it) <= it * MAX_NODES);
            assert(board_nodes(CENTER as int, it) <= it * MAX_NODES);
        }
    }
    ok
}

/// Puts an X on cell `mov` of an empty grid and searches it `iterations`
/// times. Returns the nodes visited in all.
pub fn run_board(mov: usize, iterations: i32) -> (move_count: usize)
    requires
        mov < 9,
        board_nodes(mov as int, iterations as int) <= usize::MAX,
    ensures
        move_count == board_nodes(mov as int, iterations as int),
{
    let mut b: Board = [Piece::Blank;9];
    b[mov] = Piece::X;
    assert(b@ =~= opening(mov as int));
    let mut move_count: usize = 0;
    let ghost n = opening_nodes(mov as int);
    let mut l: i32 = 0;
    while l < iterations
        invariant
            mov < 9,
            0 <= l,
            iterations > 0 ==> l <= iterations,
            iterations <= 0 ==> l == 0,
            b@ == opening(mov as int),
            n == opening_nodes(mov as int),
            move_count == l * n,
            board_nodes(mov as int, iterations as int) <= usize::MAX,
        decreases iterations - l,
    {
        proof {
            assert((l + 1) * n == l * n + n) by (nonlinear_arith);
            assert((l + 1) * n <= iterations * n) by (nonlinear_arith)
                requires
                    l + 1 <= iterations,
                    0 <= n,
            ;
        }
        let _score: i32 = min_max(&mut b, SCORE_MIN, SCORE_MAX, 0, mov, &mut move_count);
        l = l + 1;
    }
    proof {
        assert(0 * n == 0) by (nonlinear_arith);
    }
    move_count
}

/// Searches the three openings that differ under the grid's symmetries, the
/// corner, the edge and the centre, one after the other, each `iterations`
/// times. Returns the nodes visited in all.
pub fn run_openings(iterations: i32) -> (move_count: usize)
    requires
        board_nodes(CORNER as int, iterations as int) + board_nodes(EDGE as int, iterations as int)
            + board_nodes(CENTER as int, iterations as int) <= usize::MAX,
    ensures
        move_count == board_nodes(CORNER as int, iterations as int) + board_nodes(
            EDGE as int,
            iterations as int,
        ) + board_nodes(CENTER as int, iterations as int),
{
    proof {
        lemma_board_nodes_sign(CORNER as int, iterations as int);
        lemma_board_nodes_sign(EDGE as int, iterations as int);
        lemma_board_nodes_sign(CENTER as int, iterations as int);
    }
    let corner: usize = run_board(CORNER, iterations);
    let edge: usize = run_board(EDGE, iterations);
    let center: usize = run_board(CENTER, iterations);
    corner + edge + center
}

/// The nodes of a run are never negative.
pub proof fn lemma_board_nodes_sign(mov: int, iterations: int)
    ensures
        0 <= board_nodes(mov, iterations),
{
    let n = opening_nodes(mov);
    if iterations > 0 {
        assert(0 <= iterations * n) by (nonlinear_arith)
            requires
                0 <= iterations,
                0 <= n,
        ;
    }
}

/// A run of up to `limit` iterations fits a counter that holds
/// `limit * MAX_NODES`.
pub proof fn lemma_board_nodes_bound(mov: int, iterations: int, limit: int)
    requires
        0 <= mov < 9,
        iterations <= limit,
        0 <= limit,
    ensures
        0 <= board_nodes(mov, iterations) <= limit * MAX_NODES,
{
    lemma_opening_nodes_bound(mov);
    lemma_board_nodes_sign(mov, iterations);
    let n = opening_nodes(mov);
    if iterations > 0 {
        assert(iterations * n <= limit * MAX_NODES) by (nonlinear_arith)
            requires
                0 < iterations <= limit,
                0 <= n <= MAX_NODES,
        ;
    } else {
        assert(0 <= limit * MAX_NODES) by (nonlinear_arith)
            requires
                0 <= limit,
        ;
    }
}

} // verus!
