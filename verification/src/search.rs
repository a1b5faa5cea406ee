//! The minimax search with its two prunings, and the model it is held to.
//!
//! `search` and `scan` describe, node by node, which score the search returns
//! and how many nodes it visits; `min_max` is proved to compute exactly that.
//! The theorems that relate the model to the plain game value are in
//! `theory`.

use vstd::prelude::*;
use crate::board::{mover, Board, Piece};
use crate::lines::{pos_func, winner_through};

verus! {

/// Whether a node stops at the first child whose score reaches the other
/// side's bound.
pub const AB_PRUNE: bool = true;

/// Whether a node stops at the first child that scores the best its mover
/// can get.
pub const WIN_LOSE_PRUNE: bool = true;

/// X has completed a line.
pub const SCORE_WIN: i32 = 6;

/// The grid is full and no line is complete.
pub const SCORE_TIE: i32 = 5;

/// O has completed a line.
pub const SCORE_LOSE: i32 = 4;

/// Above every score: the minimizer's first value.
pub const SCORE_MAX: i32 = 9;

/// Below every score: the maximizer's first value.
pub const SCORE_MIN: i32 = 2;

/// Which of the two prunings a search uses.
pub struct Pruning {
    pub alpha_beta: bool,
    pub win_lose: bool,
}

/// What a search gives: the score, and how many nodes it visited.
pub struct Outcome {
    pub score: int,
    pub nodes: nat,
}

/// The prunings that `min_max` runs with.
pub open spec fn configured() -> Pruning {
    Pruning { alpha_beta: AB_PRUNE, win_lose: WIN_LOSE_PRUNE }
}

/// The score of a node at which play has ended, or `None` where it goes on.
/// From depth 4 on a line through the last move ends the game; at depth 8
/// the grid is full.
pub open spec fn terminal(b: Seq<Piece>, depth: int, mov: int) -> Option<int> {
    if depth >= 4 && winner_through(b, mov) == Piece::X {
        Some(SCORE_WIN as int)
    } else if depth >= 4 && winner_through(b, mov) == Piece::O {
        Some(SCORE_LOSE as int)
    } else if depth >= 8 {
        Some(SCORE_TIE as int)
    } else {
        None
    }
}

/// The value a node starts from: below all scores where X moves, above all
/// scores where O moves.
pub open spec fn first_value(depth: int) -> int {
    if mover(depth) == Piece::X {
        SCORE_MIN as int
    } else {
        SCORE_MAX as int
    }
}

/// Whether a node at `depth` returns at once on a child's score `s`, having
/// `value` as its best so far.
pub open spec fn stops(alpha: int, beta: int, depth: int, value: int, s: int, p: Pruning) -> bool {
    if mover(depth) == Piece::X {
        (p.win_lose && s == SCORE_WIN) || (p.alpha_beta && s > value && s >= beta)
    } else {
        (p.win_lose && s == SCORE_LOSE) || (p.alpha_beta && s < value && s <= alpha)
    }
}

/// The node's best so far once a child has scored `s`.
pub open spec fn next_value(depth: int, value: int, s: int) -> int {
    if mover(depth) == Piece::X {
        if s > value {
            s
        } else {
            value
        }
    } else {
        if s < value {
            s
        } else {
            value
        }
    }
}

/// The lower bound handed to the children that follow one that scored `s`.
pub open spec fn next_alpha(alpha: int, depth: int, value: int, s: int, p: Pruning) -> int {
    if mover(depth) == Piece::X && p.alpha_beta && s > value && s > alpha {
        s
    } else {
        alpha
    }
}

/// The upper bound handed to the children that follow one that scored `s`.
pub open spec fn next_beta(beta: int, depth: int, value: int, s: int, p: Pruning) -> int {
    if mover(depth) != Piece::X && p.alpha_beta && s < value && s < beta {
        s
    } else {
        beta
    }
}

/// The search of the node `b`, reached at `depth` by the move on cell `mov`,
/// with the bounds `alpha` and `beta`: its score, and the nodes visited, the
/// node itself included.
pub open spec fn search(
    b: Seq<Piece>,
    alpha: int,
    beta: int,
    depth: int,
    mov: int,
    p: Pruning,
) -> Outcome
    decreases 8 - depth, 10int,
{
    match terminal(b, depth, mov) {
        Some(s) => Outcome { score: s, nodes: 1 },
        None => {
            let rest = scan(b, alpha, beta, depth, 0, first_value(depth), p);
            Outcome { score: rest.score, nodes: rest.nodes + 1 }
        },
    }
}

/// The part of a node's work that is still to do when the cells below `x`
/// have been tried and `value` is the best so far: the score the node
/// returns, and the nodes visited from here on. Cells are tried in rising
/// order; each blank one gets the mover's piece and is searched one ply
/// deeper.
pub open spec fn scan(
    b: Seq<Piece>,
    alpha: int,
    beta: int,
    depth: int,
    x: int,
    value: int,
    p: Pruning,
) -> Outcome
    decreases 8 - depth, 9 - x,
{
    if depth >= 8 || x < 0 || x >= 9 {
        Outcome { score: value, nodes: 0 }
    } else if b[x] != Piece::Blank {
        scan(b, alpha, beta, depth, x + 1, value, p)
    } else {
        let child = search(b.update(x, mover(depth)), alpha, beta, depth + 1, x, p);
        if stops(alpha, beta, depth, value, child.score, p) {
            Outcome { score: child.score, nodes: child.nodes }
        } else {
            let rest = scan(
                b,
                next_alpha(alpha, depth, value, child.score, p),
                next_beta(beta, depth, value, child.score, p),
                depth,
                x + 1,
                next_value(depth, value, child.score),
                p,
            );
            Outcome { score: rest.score, nodes: child.nodes + rest.nodes }
        }
    }
}

/// Searches the node `b`, reached at `depth` by the move on cell `mov`,
/// between the bounds `alpha` and `beta`. Returns the node's score, adds the
/// nodes visited to `move_count`, and leaves the grid as it found it.
pub fn min_max(
    b: &mut Board,
    alpha: i32,
    beta: i32,
    depth: i32,
    mov: usize,
    move_count: &mut usize,
) -> (score: i32)
    requires
        0 <= depth <= 8,
        mov < 9,
        *old(move_count) + search(
            old(b)@,
            alpha as int,
            beta as int,
            depth as int,
            mov as int,
            configured(),
        ).nodes <= usize::MAX,
    ensures
        *final(b) == *old(b),
        score == search(
            old(b)@,
            alpha as int,
            beta as int,
            depth as int,
            mov as int,
            configured(),
        ).score,
        *final(move_count) == *old(move_count) + search(
            old(b)@,
            alpha as int,
            beta as int,
            depth as int,
            mov as int,
            configured(),
        ).nodes,
    decreases 8 - depth,
{
    let ghost b0 = b@;
    let ghost c0 = *move_count as int;
    let ghost a0 = alpha as int;
    let ghost z0 = beta as int;
    let ghost d = depth as int;
    let ghost p = configured();

    *move_count = *move_count + 1;

    if depth >= 4 {
        let w: Piece = pos_func(b, mov);
        if Piece::Blank != w {
            if Piece::X == w {
                return SCORE_WIN;
            }
            return SCORE_LOSE;
        }
        if 8 == depth {
            return SCORE_TIE;
        }
    }
    let maximize: bool = depth % 2 != 0;
    let mut value: i32;
    let piece_move: Piece;
    if maximize {
        value = SCORE_MIN;
        piece_move = Piece::X;
    } else {
        value = SCORE_MAX;
        piece_move = Piece::O;
    }
    let mut lo: i32 = alpha;
    let mut hi: i32 = beta;
    let ghost whole = scan(b0, a0, z0, d, 0, first_value(d), p);
    let ghost mut seen: nat = 0;
    let mut x: usize = 0;
    while x < 9
        invariant
            0 <= d < 8,
            d == depth,
            p == configured(),
            x <= 9,
            b0 == old(b)@,
            c0 == *old(move_count),
            a0 == alpha,
            z0 == beta,
            terminal(b0, d, mov as int) is None,
            whole == scan(b0, a0, z0, d, 0, first_value(d), p),
            b@ == b0,
            *b == *old(b),
            maximize == (mover(d) == Piece::X),
            piece_move == mover(d),
            whole.score == scan(b0, lo as int, hi as int, d, x as int, value as int, p).score,
            whole.nodes == seen + scan(
                b0,
                lo as int,
                hi as int,
                d,
                x as int,
                value as int,
                p,
            ).nodes,
            *move_count == c0 + 1 + seen,
            c0 + 1 + whole.nodes <= usize::MAX,
        decreases 9 - x,
    {
        if Piece::Blank == b[x] {
            let ghost child = search(
                b0.update(x as int, mover(d)),
                lo as int,
                hi as int,
                d + 1,
                x as int,
                p,
            );
            b[x] = piece_move;
            let score: i32 = min_max(b, lo, hi, depth + 1, x, move_count);
            b[x] = Piece::Blank;
            proof {
                assert(b@ =~= b0);
                assert(*b =~= *old(b));
                seen = seen + child.nodes;
            }
            if maximize {
                if WIN_LOSE_PRUNE && SCORE_WIN == score {
                    return SCORE_WIN;
                }
                if score > value {
                    value = score;
                    if AB_PRUNE {
                        if value >= hi {
                            return value;
                        }
                        if value > lo {
                            lo = value;
                        }
                    }
                }
            } else {
                if WIN_LOSE_PRUNE && SCORE_LOSE == score {
                    return SCORE_LOSE;
                }
                if score < value {
                    value = score;
                    if AB_PRUNE {
                        if value <= lo {
                            return value;
                        }
                        if value < hi {
                            hi = value;
                        }
                    }
                }
            }
        }
        x += 1;
    }
    return value;
}

} // verus!
