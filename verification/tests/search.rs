use tictactoe::board::{Board, Piece};
use tictactoe::lines::look_for_winner;
use tictactoe::search::{
    min_max, AB_PRUNE, SCORE_LOSE, SCORE_MAX, SCORE_MIN, SCORE_TIE, SCORE_WIN, WIN_LOSE_PRUNE,
};

const B: Piece = Piece::Blank;
const X: Piece = Piece::X;
const O: Piece = Piece::O;

fn opening(mov: usize) -> Board {
    let mut b: Board = [B; 9];
    b[mov] = X;
    b
}

/// Best play with nothing left out, the end of play found by the scan of the
/// whole grid.
fn plain(b: &mut Board, depth: i32) -> i32 {
    let w = look_for_winner(b);
    if w == X {
        return SCORE_WIN;
    }
    if w == O {
        return SCORE_LOSE;
    }
    if depth == 8 {
        return SCORE_TIE;
    }
    let x_moves = depth % 2 == 1;
    let mut value = if x_moves { SCORE_MIN } else { SCORE_MAX };
    for x in 0..9 {
        if b[x] == B {
            b[x] = if x_moves { X } else { O };
            let s = plain(b, depth + 1);
            b[x] = B;
            value = if x_moves { value.max(s) } else { value.min(s) };
        }
    }
    value
}

#[test]
fn scores_keep_their_order() {
    assert_eq!(SCORE_WIN, 6);
    assert_eq!(SCORE_TIE, 5);
    assert_eq!(SCORE_LOSE, 4);
    assert_eq!(SCORE_MAX, 9);
    assert_eq!(SCORE_MIN, 2);
    assert!(SCORE_MIN < SCORE_LOSE && SCORE_LOSE < SCORE_TIE);
    assert!(SCORE_TIE < SCORE_WIN && SCORE_WIN < SCORE_MAX);
    assert!(AB_PRUNE);
    assert!(WIN_LOSE_PRUNE);
}

#[test]
fn every_opening_is_a_tie() {
    for mov in [0, 1, 4] {
        for _ in 0..3 {
            let mut b = opening(mov);
            let mut count: usize = 0;
            assert_eq!(min_max(&mut b, SCORE_MIN, SCORE_MAX, 0, mov, &mut count), SCORE_TIE);
        }
    }
}

#[test]
fn every_first_move_is_a_tie() {
    for mov in 0..9 {
        let mut b = opening(mov);
        let mut count: usize = 0;
        assert_eq!(min_max(&mut b, SCORE_MIN, SCORE_MAX, 0, mov, &mut count), SCORE_TIE);
    }
}

#[test]
fn corner_opening_visits_1903_nodes() {
    let mut b = opening(0);
    let mut count: usize = 0;
    let score = min_max(&mut b, SCORE_MIN, SCORE_MAX, 0, 0, &mut count);
    assert_eq!(score, SCORE_TIE);
    assert_eq!(count, 1903);
}

#[test]
fn edge_opening_visits_2458_nodes() {
    let mut b = opening(1);
    let mut count: usize = 0;
    min_max(&mut b, SCORE_MIN, SCORE_MAX, 0, 1, &mut count);
    assert_eq!(count, 2458);
}

#[test]
fn centre_opening_is_a_tie_with_a_fixed_count() {
    let mut b = opening(4);
    let mut first: usize = 0;
    assert_eq!(min_max(&mut b, SCORE_MIN, SCORE_MAX, 0, 4, &mut first), SCORE_TIE);
    assert_eq!(first, 2132);
    for _ in 0..5 {
        let mut again: usize = 0;
        assert_eq!(min_max(&mut b, SCORE_MIN, SCORE_MAX, 0, 4, &mut again), SCORE_TIE);
        assert_eq!(again, first);
    }
}

#[test]
fn search_adds_to_the_counter_it_is_given() {
    let mut b = opening(0);
    let mut count: usize = 1000;
    min_max(&mut b, SCORE_MIN, SCORE_MAX, 0, 0, &mut count);
    assert_eq!(count, 2903);
    min_max(&mut b, SCORE_MIN, SCORE_MAX, 0, 0, &mut count);
    assert_eq!(count, 4806);
}

#[test]
fn search_leaves_the_grid_as_it_found_it() {
    for mov in 0..9 {
        let mut b = opening(mov);
        let mut count: usize = 0;
        min_max(&mut b, SCORE_MIN, SCORE_MAX, 0, mov, &mut count);
        assert_eq!(b, opening(mov));
    }
    let start: Board = [X, O, B, B, X, B, O, B, B];
    let mut b = start;
    let mut count: usize = 0;
    min_max(&mut b, SCORE_MIN, SCORE_MAX, 3, 6, &mut count);
    assert_eq!(b, start);
    let mut c = start;
    min_max(&mut c, 5, 6, 3, 6, &mut count);
    assert_eq!(c, start);
}

#[test]
fn line_of_x_through_the_last_move_is_a_win() {
    let mut b: Board = [X, X, X, O, O, B, B, B, B];
    let mut count: usize = 0;
    assert_eq!(min_max(&mut b, SCORE_MIN, SCORE_MAX, 4, 2, &mut count), SCORE_WIN);
    assert_eq!(count, 1);
}

#[test]
fn line_of_o_through_the_last_move_is_a_loss() {
    let mut b: Board = [X, X, B, O, O, O, X, B, B];
    let mut count: usize = 0;
    assert_eq!(min_max(&mut b, SCORE_MIN, SCORE_MAX, 5, 5, &mut count), SCORE_LOSE);
    assert_eq!(count, 1);
}

#[test]
fn full_grid_without_a_line_is_a_tie() {
    let mut b: Board = [X, O, X, X, O, O, O, X, X];
    let mut count: usize = 0;
    assert_eq!(min_max(&mut b, SCORE_MIN, SCORE_MAX, 8, 8, &mut count), SCORE_TIE);
    assert_eq!(count, 1);
}

#[test]
fn full_grid_with_a_line_through_the_last_move_is_a_win() {
    let mut b: Board = [X, O, X, O, X, O, O, X, X];
    let mut count: usize = 0;
    assert_eq!(min_max(&mut b, SCORE_MIN, SCORE_MAX, 8, 8, &mut count), SCORE_WIN);
    assert_eq!(count, 1);
}

#[test]
fn lines_are_not_looked_for_before_depth_four() {
    // three in a row at depth 2: the node is searched on, not scored
    let mut b: Board = [X, X, X, B, B, B, B, B, B];
    let mut count: usize = 0;
    min_max(&mut b, SCORE_MIN, SCORE_MAX, 2, 2, &mut count);
    assert!(count > 1);
}

#[test]
fn x_moves_on_odd_depths() {
    // one blank cell at depth 7: the piece placed completes the top row only
    // if it is an X
    let mut b: Board = [X, X, B, O, O, X, X, O, O];
    let mut count: usize = 0;
    assert_eq!(min_max(&mut b, SCORE_MIN, SCORE_MAX, 7, 8, &mut count), SCORE_WIN);
    assert_eq!(count, 2);
}

#[test]
fn o_moves_on_even_depths() {
    // two blank cells at depth 6: the first piece placed completes the
    // middle row only if it is an O
    let mut b: Board = [X, X, O, O, O, B, X, B, X];
    let mut count: usize = 0;
    assert_eq!(min_max(&mut b, SCORE_MIN, SCORE_MAX, 6, 8, &mut count), SCORE_LOSE);
    assert_eq!(count, 2);
}

#[test]
fn o_answers_the_opening() {
    // three pieces at depth 2: O is to move, as it is right after the opening
    let mut b: Board = [X, O, X, B, B, B, B, B, B];
    let mut count: usize = 0;
    let score = min_max(&mut b, SCORE_MIN, SCORE_MAX, 2, 2, &mut count);
    assert_eq!(score, plain(&mut b, 2));
}

#[test]
fn win_cut_skips_the_siblings() {
    // X to move at depth 5 with three blank cells; cell 2 wins at once
    let mut b: Board = [X, X, B, O, O, B, B, X, O];
    let mut count: usize = 0;
    assert_eq!(min_max(&mut b, SCORE_MIN, SCORE_MAX, 5, 8, &mut count), SCORE_WIN);
    assert_eq!(count, 2);
}

#[test]
fn pruned_score_is_the_plain_minimax_score() {
    for first in 0..9 {
        let mut b = opening(first);
        let mut count: usize = 0;
        let pruned = min_max(&mut b, SCORE_MIN, SCORE_MAX, 0, first, &mut count);
        assert_eq!(pruned, plain(&mut b, 0));
        for second in 0..9 {
            if second == first {
                continue;
            }
            b[second] = O;
            let pruned = min_max(&mut b, SCORE_MIN, SCORE_MAX, 1, second, &mut count);
            assert_eq!(pruned, plain(&mut b, 1));
            for third in 0..9 {
                if b[third] != B {
                    continue;
                }
                b[third] = X;
                let pruned = min_max(&mut b, SCORE_MIN, SCORE_MAX, 2, third, &mut count);
                assert_eq!(pruned, plain(&mut b, 2));
                b[third] = B;
            }
            b[second] = B;
        }
    }
}

#[test]
fn narrow_bounds_still_bound_the_value() {
    for mov in [0, 1, 4] {
        let mut b = opening(mov);
        let value = plain(&mut b, 0);
        for alpha in SCORE_MIN..SCORE_MAX {
            for beta in (alpha + 1)..=SCORE_MAX {
                let mut count: usize = 0;
                let r = min_max(&mut b, alpha, beta, 0, mov, &mut count);
                if r <= alpha {
                    assert!(value <= r);
                } else if r >= beta {
                    assert!(value >= r);
                } else {
                    assert_eq!(r, value);
                }
                assert!(count >= 1 && count <= 109601);
            }
        }
    }
}

#[test]
fn bounds_around_the_value_give_the_value() {
    let mut b = opening(4);
    let mut count: usize = 0;
    assert_eq!(min_max(&mut b, SCORE_LOSE, SCORE_WIN, 0, 4, &mut count), SCORE_TIE);
    assert_eq!(min_max(&mut b, SCORE_MIN, SCORE_WIN, 0, 4, &mut count), SCORE_TIE);
    assert_eq!(min_max(&mut b, SCORE_LOSE, SCORE_MAX, 0, 4, &mut count), SCORE_TIE);
}
