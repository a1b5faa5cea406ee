//! Completed lines: the scan of the whole grid and the scan of the lines
//! through one cell.

use vstd::prelude::*;
use crate::board::{alternating, count, Board, Piece};

verus! {

/// The three cells `i`, `j`, `k` of `b` all hold the piece `p`.
pub open spec fn filled(b: Seq<Piece>, i: int, j: int, k: int, p: Piece) -> bool {
    b[i] == p && b[j] == p && b[k] == p
}

/// Some row, column or diagonal of `b` holds `p` three times.
pub open spec fn has_line(b: Seq<Piece>, p: Piece) -> bool {
    ||| filled(b, 0, 1, 2, p)
    ||| filled(b, 3, 4, 5, p)
    ||| filled(b, 6, 7, 8, p)
    ||| filled(b, 0, 3, 6, p)
    ||| filled(b, 1, 4, 7, p)
    ||| filled(b, 2, 5, 8, p)
    ||| filled(b, 0, 4, 8, p)
    ||| filled(b, 2, 4, 6, p)
}

/// Some row, column or diagonal that passes through cell `m` holds `p`
/// three times.
pub open spec fn has_line_through(b: Seq<Piece>, m: int, p: Piece) -> bool {
    ||| (m == 0 || m == 1 || m == 2) && filled(b, 0, 1, 2, p)
    ||| (m == 3 || m == 4 || m == 5) && filled(b, 3, 4, 5, p)
    ||| (m == 6 || m == 7 || m == 8) && filled(b, 6, 7, 8, p)
    ||| (m == 0 || m == 3 || m == 6) && filled(b, 0, 3, 6, p)
    ||| (m == 1 || m == 4 || m == 7) && filled(b, 1, 4, 7, p)
    ||| (m == 2 || m == 5 || m == 8) && filled(b, 2, 5, 8, p)
    ||| (m == 0 || m == 4 || m == 8) && filled(b, 0, 4, 8, p)
    ||| (m == 2 || m == 4 || m == 6) && filled(b, 2, 4, 6, p)
}

/// What the lines through cell `m` say: the piece on `m` where one of them
/// holds it three times, else blank.
pub open spec fn winner_through(b: Seq<Piece>, m: int) -> Piece {
    if has_line_through(b, m, b[m]) {
        b[m]
    } else {
        Piece::Blank
    }
}

/// What the whole grid says: the piece of the first completed line, the
/// lines taken in the order top row, left column, middle row, bottom row,
/// middle column, right column, falling diagonal, rising diagonal; blank
/// where no line is complete.
pub open spec fn winner(b: Seq<Piece>) -> Piece {
    if b[0] != Piece::Blank && filled(b, 0, 1, 2, b[0]) {
        b[0]
    } else if b[0] != Piece::Blank && filled(b, 0, 3, 6, b[0]) {
        b[0]
    } else if b[3] != Piece::Blank && filled(b, 3, 4, 5, b[3]) {
        b[3]
    } else if b[6] != Piece::Blank && filled(b, 6, 7, 8, b[6]) {
        b[6]
    } else if b[1] != Piece::Blank && filled(b, 1, 4, 7, b[1]) {
        b[1]
    } else if b[2] != Piece::Blank && filled(b, 2, 5, 8, b[2]) {
        b[2]
    } else if b[4] != Piece::Blank && filled(b, 0, 4, 8, b[4]) {
        b[4]
    } else if b[4] != Piece::Blank && filled(b, 2, 4, 6, b[4]) {
        b[4]
    } else {
        Piece::Blank
    }
}

/// Scans all eight lines of the grid.
pub fn look_for_winner(b: &Board) -> (w: Piece)
    ensures
        w == winner(b@),
        w != Piece::Blank ==> has_line(b@, w),
        w == Piece::Blank <==> !has_line(b@, Piece::X) && !has_line(b@, Piece::O),
{
    let mut p: Piece = b[0];
    if Piece::Blank != p {
        if p == b[1] && p == b[2] {
            return p;
        }
        if p == b[3] && p == b[6] {
            return p;
        }
    }
    p = b[3];
    if Piece::Blank != p && p == b[4] && p == b[5] {
        return p;
    }
    p = b[6];
    if Piece::Blank != p && p == b[7] && p == b[8] {
        return p;
    }
    p = b[1];
    if Piece::Blank != p && p == b[4] && p == b[7] {
        return p;
    }
    p = b[2];
    if Piece::Blank != p && p == b[5] && p == b[8] {
        return p;
    }
    p = b[4];
    if Piece::Blank != p {
        if p == b[0] && p == b[8] {
            return p;
        }
        if p == b[2] && p == b[6] {
            return p;
        }
    }
    return Piece::Blank;
}

/// The lines through the top left corner.
pub fn pos0_func(b: &Board) -> (w: Piece)
    ensures
        w == winner_through(b@, 0),
{
    let x: Piece = b[0];
    if (x == b[1] && x == b[2]) || (x == b[3] && x == b[6]) || (x == b[4] && x == b[8]) {
        return x;
    }
    return Piece::Blank;
}

/// The lines through the middle of the top row.
pub fn pos1_func(b: &Board) -> (w: Piece)
    ensures
        w == winner_through(b@, 1),
{
    let x: Piece = b[1];
    if (x == b[0] && x == b[2]) || (x == b[4] && x == b[7]) {
        return x;
    }
    return Piece::Blank;
}

/// The lines through the top right corner.
pub fn pos2_func(b: &Board) -> (w: Piece)
    ensures
        w == winner_through(b@, 2),
{
    let x: Piece = b[2];
    if (x == b[0] && x == b[1]) || (x == b[5] && x == b[8]) || (x == b[4] && x == b[6]) {
        return x;
    }
    return Piece::Blank;
}

/// The lines through the middle of the left column.
pub fn pos3_func(b: &Board) -> (w: Piece)
    ensures
        w == winner_through(b@, 3),
{
    let x: Piece = b[3];
    if (x == b[4] && x == b[5]) || (x == b[0] && x == b[6]) {
        return x;
    }
    return Piece::Blank;
}

/// The lines through the centre.
pub fn pos4_func(b: &Board) -> (w: Piece)
    ensures
        w == winner_through(b@, 4),
{
    let x: Piece = b[4];
    if (x == b[0] && x == b[8]) || (x == b[2] && x == b[6]) || (x == b[1] && x == b[7]) || (x
        == b[3] && x == b[5]) {
        return x;
    }
    return Piece::Blank;
}

/// The lines through the middle of the right column.
pub fn pos5_func(b: &Board) -> (w: Piece)
    ensures
        w == winner_through(b@, 5),
{
    let x: Piece = b[5];
    if (x == b[3] && x == b[4]) || (x == b[2] && x == b[8]) {
        return x;
    }
    return Piece::Blank;
}

/// The lines through the bottom left corner.
pub fn pos6_func(b: &Board) -> (w: Piece)
    ensures
        w == winner_through(b@, 6),
{
    let x: Piece = b[6];
    if (x == b[7] && x == b[8]) || (x == b[0] && x == b[3]) || (x == b[4] && x == b[2]) {
        return x;
    }
    return Piece::Blank;
}

/// The lines through the middle of the bottom row.
pub fn pos7_func(b: &Board) -> (w: Piece)
    ensures
        w == winner_through(b@, 7),
{
    let x: Piece = b[7];
    if (x == b[6] && x == b[8]) || (x == b[1] && x == b[4]) {
        return x;
    }
    return Piece::Blank;
}

/// The lines through the bottom right corner.
pub fn pos8_func(b: &Board) -> (w: Piece)
    ensures
        w == winner_through(b@, 8),
{
    let x: Piece = b[8];
    if (x == b[6] && x == b[7]) || (x == b[2] && x == b[5]) || (x == b[0] && x == b[4]) {
        return x;
    }
    return Piece::Blank;
}

/// The lines through cell `mov`, by the scan that belongs to that cell.
pub fn pos_func(b: &Board, mov: usize) -> (w: Piece)
    requires
        mov < 9,
    ensures
        w == winner_through(b@, mov as int),
{
    match mov {
        0 => pos0_func(b),
        1 => pos1_func(b),
        2 => pos2_func(b),
        3 => pos3_func(b),
        4 => pos4_func(b),
        5 => pos5_func(b),
        6 => pos6_func(b),
        7 => pos7_func(b),
        _ => pos8_func(b),
    }
}

/// On a grid that had no completed line before the piece on cell `m` was
/// placed, the scan of the lines through `m` and the scan of the whole grid
/// give the same piece.
pub proof fn lemma_scans_agree(b: Seq<Piece>, m: int)
    requires
        b.len() == 9,
        0 <= m < 9,
        b[m] != Piece::Blank,
        winner(b.update(m, Piece::Blank)) == Piece::Blank,
    ensures
        winner_through(b, m) == winner(b),
{
    let a = b.update(m, Piece::Blank);
    assert(forall|i: int| 0 <= i < 9 && i != m ==> a[i] == b[i]);
    assert(a[m] == Piece::Blank);
}

/// A scan through a cell never reports a piece that the whole grid does not
/// hold in a line, and reports blank for a blank cell.
pub proof fn lemma_through_is_line(b: Seq<Piece>, m: int)
    requires
        b.len() == 9,
        0 <= m < 9,
    ensures
        winner_through(b, m) != Piece::Blank ==> has_line(b, winner_through(b, m)),
        b[m] == Piece::Blank ==> winner_through(b, m) == Piece::Blank,
{
}

/// Before the fifth piece is on the grid no line can be complete: after
/// fewer than four plies of alternating play neither scan finds a piece.
pub proof fn lemma_no_early_line(b: Seq<Piece>, depth: int, m: int)
    requires
        alternating(b, depth),
        depth < 4,
        0 <= m < 9,
    ensures
        winner(b) == Piece::Blank,
        winner_through(b, m) == Piece::Blank,
{
    reveal(count);
    assert(count(b, Piece::X) <= 2);
    assert(count(b, Piece::O) <= 2);
    assert(!has_line(b, Piece::X));
    assert(!has_line(b, Piece::O));
}

} // verus!
