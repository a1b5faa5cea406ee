//! The plain game value, and the theorems that hold the pruned search to it.

use vstd::prelude::*;
use crate::board::{alternating, lemma_place, mover, occupied, position, taken, Piece};
use crate::lines::{lemma_no_early_line, lemma_scans_agree, winner};
use crate::search::{
    first_value, next_alpha, next_beta, next_value, scan, search, stops, terminal, Pruning,
    SCORE_LOSE, SCORE_MAX, SCORE_MIN, SCORE_TIE, SCORE_WIN,
};

verus! {

/// The value of the node `b`, reached at `depth` by the move on cell `mov`,
/// with best play on both sides and nothing left out: the score of a node at
/// which play has ended, else the best of its children's values for the
/// mover, the highest for X and the lowest for O.
pub open spec fn game_value(b: Seq<Piece>, depth: int, mov: int) -> int
    decreases 8 - depth, 10int,
{
    match terminal(b, depth, mov) {
        Some(s) => s,
        None => best(b, depth, 0, first_value(depth)),
    }
}

/// The best for the mover among `acc` and the values of the children that
/// the blank cells from `x` on give.
pub open spec fn best(b: Seq<Piece>, depth: int, x: int, acc: int) -> int
    decreases 8 - depth, 9 - x,
{
    if depth >= 8 || x < 0 || x >= 9 {
        acc
    } else if b[x] != Piece::Blank {
        best(b, depth, x + 1, acc)
    } else {
        best(
            b,
            depth,
            x + 1,
            next_value(depth, acc, game_value(b.update(x, mover(depth)), depth + 1, x)),
        )
    }
}

/// How many of the cells from `x` on are blank.
pub open spec fn free(b: Seq<Piece>, x: int) -> nat
    decreases 9 - x,
{
    if x < 0 || x >= 9 {
        0
    } else {
        (1 - taken(b, x)) as nat + free(b, x + 1)
    }
}

/// The most nodes a search can visit below and at a node with `k` blank
/// cells: the node, and for each blank cell a node with one blank cell less.
pub open spec fn tree_size(k: int) -> nat
    decreases k,
{
    if k <= 0 {
        1
    } else {
        1 + (k as nat) * tree_size(k - 1)
    }
}

/// The blank cells and the occupied cells of a grid are nine together.
pub proof fn lemma_free_total(b: Seq<Piece>)
    ensures
        free(b, 0) == 9 - occupied(b),
{
    reveal(occupied);
    reveal_with_fuel(free, 10);
}

/// The mover's piece on a blank cell of a position gives a position one ply
/// deeper, and a position with a blank cell is not at the last depth.
pub proof fn lemma_child_position(b: Seq<Piece>, depth: int, x: int)
    requires
        position(b, depth),
        0 <= x < 9,
        b[x] == Piece::Blank,
    ensures
        depth < 8,
        position(b.update(x, mover(depth)), depth + 1),
{
    lemma_place(b, x, mover(depth));
    lemma_free_total(b);
    lemma_free_total(b.update(x, mover(depth)));
}

/// The value of a position is one of the three scores of a game that has
/// ended.
pub proof fn lemma_value_range(b: Seq<Piece>, depth: int, mov: int)
    requires
        position(b, depth),
    ensures
        SCORE_LOSE <= game_value(b, depth, mov) <= SCORE_WIN,
    decreases 8 - depth, 10int,
{
    if terminal(b, depth, mov) is None {
        lemma_free_total(b);
        lemma_best_range(b, depth, 0, first_value(depth));
    }
}

/// Where the best of the remaining children lies: on the mover's side of
/// `acc`, and among the scores where `acc` is, or where a child remains.
pub proof fn lemma_best_range(b: Seq<Piece>, depth: int, x: int, acc: int)
    requires
        position(b, depth),
        depth < 8,
        0 <= x <= 9,
    ensures
        mover(depth) == Piece::X ==> acc <= best(b, depth, x, acc),
        mover(depth) != Piece::X ==> best(b, depth, x, acc) <= acc,
        acc <= SCORE_WIN ==> best(b, depth, x, acc) <= SCORE_WIN,
        SCORE_LOSE <= acc ==> SCORE_LOSE <= best(b, depth, x, acc),
        free(b, x) > 0 && mover(depth) == Piece::X ==> SCORE_LOSE <= best(b, depth, x, acc),
        free(b, x) > 0 && mover(depth) != Piece::X ==> best(b, depth, x, acc) <= SCORE_WIN,
    decreases 8 - depth, 9 - x,
{
    if x < 9 {
        if b[x] != Piece::Blank {
            lemma_best_range(b, depth, x + 1, acc);
        } else {
            let c = b.update(x, mover(depth));
            lemma_child_position(b, depth, x);
            lemma_value_range(c, depth + 1, x);
            lemma_best_range(b, depth, x + 1, next_value(depth, acc, game_value(c, depth + 1, x)));
        }
    }
}

/// The score of a search of a position is one of the three scores of a game
/// that has ended, whatever the bounds and the prunings.
pub proof fn lemma_search_range(
    b: Seq<Piece>,
    alpha: int,
    beta: int,
    depth: int,
    mov: int,
    p: Pruning,
)
    requires
        position(b, depth),
    ensures
        SCORE_LOSE <= search(b, alpha, beta, depth, mov, p).score <= SCORE_WIN,
    decreases 8 - depth, 10int,
{
    if terminal(b, depth, mov) is None {
        lemma_free_total(b);
        lemma_scan_range(b, alpha, beta, depth, 0, first_value(depth), p);
    }
}

/// Where the score of the rest of a node's work lies: among the scores where
/// `value` is on the far side from the mover, or where a child remains.
pub proof fn lemma_scan_range(
    b: Seq<Piece>,
    alpha: int,
    beta: int,
    depth: int,
    x: int,
    value: int,
    p: Pruning,
)
    requires
        position(b, depth),
        depth < 8,
        0 <= x <= 9,
    ensures
        value <= SCORE_WIN ==> scan(b, alpha, beta, depth, x, value, p).score <= SCORE_WIN,
        SCORE_LOSE <= value ==> SCORE_LOSE <= scan(b, alpha, beta, depth, x, value, p).score,
        free(b, x) > 0 && mover(depth) == Piece::X ==> SCORE_LOSE <= scan(
            b,
            alpha,
            beta,
            depth,
            x,
            value,
            p,
        ).score,
        free(b, x) > 0 && mover(depth) != Piece::X ==> scan(
            b,
            alpha,
            beta,
            depth,
            x,
            value,
            p,
        ).score <= SCORE_WIN,
    decreases 8 - depth, 9 - x,
{
    if x < 9 {
        if b[x] != Piece::Blank {
            lemma_scan_range(b, alpha, beta, depth, x + 1, value, p);
        } else {
            let c = b.update(x, mover(depth));
            lemma_child_position(b, depth, x);
            lemma_search_range(c, alpha, beta, depth + 1, x, p);
            let s = search(c, alpha, beta, depth + 1, x, p).score;
            lemma_scan_range(
                b,
                next_alpha(alpha, depth, value, s, p),
                next_beta(beta, depth, value, s, p),
                depth,
                x + 1,
                next_value(depth, value, s),
                p,
            );
        }
    }
}

/// Taking a score `c` into account before the remaining children or after
/// them gives the same best.
pub proof fn lemma_best_absorbs(b: Seq<Piece>, depth: int, x: int, a: int, c: int)
    ensures
        best(b, depth, x, next_value(depth, a, c)) == next_value(depth, best(b, depth, x, a), c),
    decreases 9 - x,
{
    if depth >= 8 || x < 0 || x >= 9 {
    } else if b[x] != Piece::Blank {
        lemma_best_absorbs(b, depth, x + 1, a, c);
    } else {
        let v = game_value(b.update(x, mover(depth)), depth + 1, x);
        assert(next_value(depth, next_value(depth, a, c), v) == next_value(
            depth,
            next_value(depth, a, v),
            c,
        ));
        lemma_best_absorbs(b, depth, x + 1, next_value(depth, a, v), c);
    }
}

/// A search of a position with `8 - depth` blank cells visits at least one
/// node and at most `tree_size(8 - depth)`.
pub proof fn lemma_nodes_bound(
    b: Seq<Piece>,
    alpha: int,
    beta: int,
    depth: int,
    mov: int,
    p: Pruning,
)
    requires
        position(b, depth),
    ensures
        1 <= search(b, alpha, beta, depth, mov, p).nodes <= tree_size(8 - depth),
    decreases 8 - depth, 10int,
{
    if terminal(b, depth, mov) is None {
        lemma_free_total(b);
        lemma_scan_nodes_bound(b, alpha, beta, depth, 0, first_value(depth), p);
    }
}

/// The rest of a node's work visits at most one full subtree for each blank
/// cell that remains.
pub proof fn lemma_scan_nodes_bound(
    b: Seq<Piece>,
    alpha: int,
    beta: int,
    depth: int,
    x: int,
    value: int,
    p: Pruning,
)
    requires
        position(b, depth),
        depth < 8,
        0 <= x <= 9,
    ensures
        scan(b, alpha, beta, depth, x, value, p).nodes <= free(b, x) * tree_size(7 - depth),
    decreases 8 - depth, 9 - x,
{
    let t = tree_size(7 - depth);
    if x < 9 {
        if b[x] != Piece::Blank {
            lemma_scan_nodes_bound(b, alpha, beta, depth, x + 1, value, p);
        } else {
            let c = b.update(x, mover(depth));
            lemma_child_position(b, depth, x);
            lemma_nodes_bound(c, alpha, beta, depth + 1, x, p);
            let s = search(c, alpha, beta, depth + 1, x, p).score;
            lemma_scan_nodes_bound(
                b,
                next_alpha(alpha, depth, value, s, p),
                next_beta(beta, depth, value, s, p),
                depth,
                x + 1,
                next_value(depth, value, s),
                p,
            );
            let f = free(b, x + 1);
            assert(free(b, x) == 1 + f);
            assert((1 + f) * t == t + f * t) by (nonlinear_arith);
            assert(0 <= f * t) by (nonlinear_arith)
                requires
                    0 <= f,
                    0 <= t,
            ;
        }
    }
}

/// The sizes of the full trees, from a full grid up to a grid with one piece.
pub proof fn lemma_tree_sizes()
    ensures
        tree_size(0) == 1,
        tree_size(1) == 2,
        tree_size(2) == 5,
        tree_size(3) == 16,
        tree_size(4) == 65,
        tree_size(5) == 326,
        tree_size(6) == 1957,
        tree_size(7) == 13700,
        tree_size(8) == 109601,
{
    assert(tree_size(0) == 1);
    assert(tree_size(1) == 1 + 1 * tree_size(0));
    assert(tree_size(2) == 1 + 2 * tree_size(1));
    assert(tree_size(3) == 1 + 3 * tree_size(2));
    assert(tree_size(4) == 1 + 4 * tree_size(3));
    assert(tree_size(5) == 1 + 5 * tree_size(4));
    assert(tree_size(6) == 1 + 6 * tree_size(5));
    assert(tree_size(7) == 1 + 7 * tree_size(6));
    assert(tree_size(8) == 1 + 8 * tree_size(7));
}

/// What a search between the bounds `alpha` and `beta` says of the value `t`
/// by returning `r`: a score at or below `alpha` is an upper bound of the
/// value, one at or above `beta` a lower bound, and one strictly between the
/// bounds is the value.
pub open spec fn sound(r: int, t: int, alpha: int, beta: int) -> bool {
    &&& r <= alpha ==> t <= r
    &&& r >= beta ==> r <= t
    &&& alpha < r < beta ==> r == t
}

/// Without the cut at the bounds, a search of a position returns the
/// position's value, whatever bounds it is given.
pub proof fn lemma_search_exact(
    b: Seq<Piece>,
    alpha: int,
    beta: int,
    depth: int,
    mov: int,
    p: Pruning,
)
    requires
        position(b, depth),
        !p.alpha_beta,
    ensures
        search(b, alpha, beta, depth, mov, p).score == game_value(b, depth, mov),
    decreases 8 - depth, 10int,
{
    if terminal(b, depth, mov) is None {
        lemma_scan_exact(b, alpha, beta, depth, 0, first_value(depth), p);
    }
}

/// Without the cut at the bounds, the rest of a node's work returns the best
/// of `value` and the remaining children's values.
pub proof fn lemma_scan_exact(
    b: Seq<Piece>,
    alpha: int,
    beta: int,
    depth: int,
    x: int,
    value: int,
    p: Pruning,
)
    requires
        position(b, depth),
        depth < 8,
        0 <= x <= 9,
        !p.alpha_beta,
        mover(depth) == Piece::X ==> value <= SCORE_WIN,
        mover(depth) != Piece::X ==> SCORE_LOSE <= value,
    ensures
        scan(b, alpha, beta, depth, x, value, p).score == best(b, depth, x, value),
    decreases 8 - depth, 9 - x,
{
    if x < 9 {
        if b[x] != Piece::Blank {
            lemma_scan_exact(b, alpha, beta, depth, x + 1, value, p);
        } else {
            let c = b.update(x, mover(depth));
            lemma_child_position(b, depth, x);
            lemma_search_exact(c, alpha, beta, depth + 1, x, p);
            lemma_search_range(c, alpha, beta, depth + 1, x, p);
            let s = search(c, alpha, beta, depth + 1, x, p).score;
            if stops(alpha, beta, depth, value, s, p) {
                lemma_best_range(b, depth, x + 1, next_value(depth, value, s));
            } else {
                lemma_scan_exact(b, alpha, beta, depth, x + 1, next_value(depth, value, s), p);
            }
        }
    }
}

/// With the cut at the bounds, a search of a position between bounds that
/// lie within the two sentinels is sound for the position's value.
pub proof fn lemma_search_window(
    b: Seq<Piece>,
    alpha: int,
    beta: int,
    depth: int,
    mov: int,
    p: Pruning,
)
    requires
        position(b, depth),
        p.alpha_beta,
        SCORE_MIN <= alpha < beta <= SCORE_MAX,
    ensures
        sound(search(b, alpha, beta, depth, mov, p).score, game_value(b, depth, mov), alpha, beta),
    decreases 8 - depth, 10int,
{
    if terminal(b, depth, mov) is None {
        lemma_scan_window(b, alpha, beta, depth, 0, first_value(depth), p);
    }
}

/// With the cut at the bounds, the rest of a node's work is sound for the
/// best of `value` and the remaining children's values, as long as `value`
/// has not passed the mover's own bound.
pub proof fn lemma_scan_window(
    b: Seq<Piece>,
    alpha: int,
    beta: int,
    depth: int,
    x: int,
    value: int,
    p: Pruning,
)
    requires
        position(b, depth),
        depth < 8,
        0 <= x <= 9,
        p.alpha_beta,
        SCORE_MIN <= alpha < beta <= SCORE_MAX,
        mover(depth) == Piece::X ==> value <= alpha && value <= SCORE_WIN,
        mover(depth) != Piece::X ==> beta <= value && SCORE_LOSE <= value,
    ensures
        sound(scan(b, alpha, beta, depth, x, value, p).score, best(b, depth, x, value), alpha, beta),
    decreases 8 - depth, 9 - x,
{
    if x < 9 {
        if b[x] != Piece::Blank {
            lemma_scan_window(b, alpha, beta, depth, x + 1, value, p);
        } else {
            let c = b.update(x, mover(depth));
            lemma_child_position(b, depth, x);
            lemma_search_window(c, alpha, beta, depth + 1, x, p);
            lemma_search_range(c, alpha, beta, depth + 1, x, p);
            lemma_value_range(c, depth + 1, x);
            let s = search(c, alpha, beta, depth + 1, x, p).score;
            let v = game_value(c, depth + 1, x);
            let t = best(b, depth, x, value);
            assert(t == best(b, depth, x + 1, next_value(depth, value, v)));
            if stops(alpha, beta, depth, value, s, p) {
                lemma_best_range(b, depth, x + 1, next_value(depth, value, v));
            } else {
                let alpha1 = next_alpha(alpha, depth, value, s, p);
                let beta1 = next_beta(beta, depth, value, s, p);
                let value1 = next_value(depth, value, s);
                lemma_scan_window(b, alpha1, beta1, depth, x + 1, value1, p);
                let r = scan(b, alpha1, beta1, depth, x + 1, value1, p).score;
                let rest = best(b, depth, x + 1, value);
                lemma_best_absorbs(b, depth, x + 1, value, v);
                lemma_best_absorbs(b, depth, x + 1, value, s);
                lemma_best_range(b, depth, x + 1, value);
                assert(t == next_value(depth, rest, v));
                assert(sound(r, next_value(depth, rest, s), alpha1, beta1));
                assert(scan(b, alpha, beta, depth, x, value, p).score == r);
            }
        }
    }
}

/// A search of a position between bounds that lie within the two sentinels
/// is sound for the position's value, whatever the prunings.
pub proof fn lemma_search_sound(
    b: Seq<Piece>,
    alpha: int,
    beta: int,
    depth: int,
    mov: int,
    p: Pruning,
)
    requires
        position(b, depth),
        SCORE_MIN <= alpha < beta <= SCORE_MAX,
    ensures
        sound(search(b, alpha, beta, depth, mov, p).score, game_value(b, depth, mov), alpha, beta),
        alpha < game_value(b, depth, mov) < beta ==> search(b, alpha, beta, depth, mov, p).score
            == game_value(b, depth, mov),
{
    if p.alpha_beta {
        lemma_search_window(b, alpha, beta, depth, mov, p);
    } else {
        lemma_search_exact(b, alpha, beta, depth, mov, p);
    }
}

/// Between the two sentinels a search of a position returns the position's
/// value, whatever the prunings.
pub proof fn lemma_search_is_value(b: Seq<Piece>, depth: int, mov: int, p: Pruning)
    requires
        position(b, depth),
    ensures
        search(b, SCORE_MIN as int, SCORE_MAX as int, depth, mov, p).score == game_value(b, depth, mov),
{
    lemma_value_range(b, depth, mov);
    lemma_search_sound(b, SCORE_MIN as int, SCORE_MAX as int, depth, mov, p);
}

/// Switching either pruning on or off leaves the score of a search between
/// the two sentinels as it was; only the nodes visited may change.
pub proof fn lemma_pruning_keeps_score(
    b: Seq<Piece>,
    depth: int,
    mov: int,
    p: Pruning,
    q: Pruning,
)
    requires
        position(b, depth),
    ensures
        search(b, SCORE_MIN as int, SCORE_MAX as int, depth, mov, p).score == search(
            b,
            SCORE_MIN as int,
            SCORE_MAX as int,
            depth,
            mov,
            q,
        ).score,
{
    lemma_search_is_value(b, depth, mov, p);
    lemma_search_is_value(b, depth, mov, q);
}

/// The score of a node at which play has ended by the scan of the whole
/// grid, at any depth, or `None` where it goes on.
pub open spec fn game_over(b: Seq<Piece>, depth: int) -> Option<int> {
    if winner(b) == Piece::X {
        Some(SCORE_WIN as int)
    } else if winner(b) == Piece::O {
        Some(SCORE_LOSE as int)
    } else if depth >= 8 {
        Some(SCORE_TIE as int)
    } else {
        None
    }
}

/// On a grid reached by alternating play on which no line was complete
/// before the last move, the search's test for the end of play, which looks
/// at the lines through the last move and only from depth 4 on, says what
/// the scan of the whole grid says at any depth.
pub proof fn lemma_terminal_is_game_over(b: Seq<Piece>, depth: int, mov: int)
    requires
        alternating(b, depth),
        0 <= mov < 9,
        b[mov] != Piece::Blank,
        winner(b.update(mov, Piece::Blank)) == Piece::Blank,
    ensures
        terminal(b, depth, mov) == game_over(b, depth),
        terminal(b, depth, mov) is None ==> winner(b) == Piece::Blank,
{
    lemma_scans_agree(b, mov);
    if depth < 4 {
        lemma_no_early_line(b, depth, mov);
    }
}

} // verus!
