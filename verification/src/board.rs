//! Pieces, the grid, and the bookkeeping of who moves when.

use vstd::prelude::*;

verus! {

/// What a cell of the grid holds.
#[derive(PartialEq, Eq, Structural, Clone, Copy, Debug)]
pub enum Piece {
    Blank,
    X,
    O,
}

impl Default for Piece {
    fn default() -> (p: Piece)
        ensures
            p == Piece::Blank,
    {
        Piece::Blank
    }
}

impl Piece {
    /// The one-character picture of a piece: a space, `X` or `O`.
    pub open spec fn glyph(self) -> char {
        match self {
            Piece::Blank => ' ',
            Piece::X => 'X',
            Piece::O => 'O',
        }
    }

    /// The piece as text, one character long.
    pub fn to_text(&self) -> (s: String)
        ensures
            s@ == seq![self.glyph()],
    {
        let s = match *self {
            Piece::Blank => " ",
            Piece::X => "X",
            Piece::O => "O",
        };
        proof {
            reveal_strlit(" ");
            reveal_strlit("X");
            reveal_strlit("O");
            assert(" "@ =~= seq![' ']);
            assert("X"@ =~= seq!['X']);
            assert("O"@ =~= seq!['O']);
        }
        s.to_owned()
    }
}

/// The grid: nine cells, row by row.
pub type Board = [Piece; 9];

/// 1 where cell `i` of `b` is taken, 0 where it is blank.
pub open spec fn taken(b: Seq<Piece>, i: int) -> int {
    if b[i] == Piece::Blank {
        0
    } else {
        1
    }
}

/// How many cells of `b` hold a piece.
#[verifier::opaque]
pub open spec fn occupied(b: Seq<Piece>) -> int {
    taken(b, 0) + taken(b, 1) + taken(b, 2) + taken(b, 3) + taken(b, 4) + taken(b, 5) + taken(
        b,
        6,
    ) + taken(b, 7) + taken(b, 8)
}

/// 1 where cell `i` of `b` holds `p`, else 0.
pub open spec fn holds(b: Seq<Piece>, i: int, p: Piece) -> int {
    if b[i] == p {
        1
    } else {
        0
    }
}

/// How many cells of `b` hold the piece `p`.
#[verifier::opaque]
pub open spec fn count(b: Seq<Piece>, p: Piece) -> int {
    holds(b, 0, p) + holds(b, 1, p) + holds(b, 2, p) + holds(b, 3, p) + holds(b, 4, p) + holds(
        b,
        5,
        p,
    ) + holds(b, 6, p) + holds(b, 7, p) + holds(b, 8, p)
}

/// The piece that is placed next when `depth` plies have been played after
/// the opening: O on even depths, X on odd ones.
pub open spec fn mover(depth: int) -> Piece {
    if depth % 2 == 0 {
        Piece::O
    } else {
        Piece::X
    }
}

/// A grid of nine cells on which `depth` plies followed the opening move.
pub open spec fn position(b: Seq<Piece>, depth: int) -> bool {
    &&& b.len() == 9
    &&& 0 <= depth <= 8
    &&& occupied(b) == depth + 1
}

/// A position whose pieces came from alternating play: X opened, then O and
/// X took turns, `depth` plies in all after the opening.
pub open spec fn alternating(b: Seq<Piece>, depth: int) -> bool {
    &&& position(b, depth)
    &&& count(b, Piece::X) == depth / 2 + 1
    &&& count(b, Piece::O) == (depth + 1) / 2
}

/// The grid with nothing on it but an X on cell `mov`.
pub open spec fn opening(mov: int) -> Seq<Piece> {
    Seq::new(9, |i: int| if i == mov { Piece::X } else { Piece::Blank })
}

/// Turns alternate: O places the first piece after the opening, a piece is
/// placed at every depth, and whoever moves at one depth does not move at the
/// next.
pub proof fn lemma_turns_alternate(depth: int)
    requires
        0 <= depth,
    ensures
        mover(0) == Piece::O,
        mover(depth) != Piece::Blank,
        mover(depth + 1) != Piece::Blank,
        mover(depth + 1) != mover(depth),
        mover(depth + 2) == mover(depth),
{
}

/// Placing a piece on a blank cell adds one to the occupied cells and to the
/// cells that hold that piece, and leaves the other piece's cells alone.
pub proof fn lemma_place(b: Seq<Piece>, x: int, p: Piece)
    requires
        b.len() == 9,
        0 <= x < 9,
        b[x] == Piece::Blank,
        p != Piece::Blank,
    ensures
        b.update(x, p).len() == 9,
        occupied(b.update(x, p)) == occupied(b) + 1,
        count(b.update(x, p), p) == count(b, p) + 1,
        forall|q: Piece| q != p && q != Piece::Blank ==> count(b.update(x, p), q) == count(b, q),
        b.update(x, p).update(x, Piece::Blank) == b,
{
    let c = b.update(x, p);
    assert(c.update(x, Piece::Blank) =~= b);
    assert(c[x] == p);
    assert(forall|i: int| 0 <= i < 9 && i != x ==> c[i] == b[i]);
    assert forall|q: Piece| q != p && q != Piece::Blank implies count(c, q) == count(b, q) by {
        lemma_count_step(b, c, x, q);
    }
    lemma_count_step(b, c, x, p);
    lemma_taken_step(b, c, x);
}

/// Two grids that differ on cell `x` alone differ in the count of `q` by what
/// cell `x` holds.
proof fn lemma_count_step(b: Seq<Piece>, c: Seq<Piece>, x: int, q: Piece)
    requires
        0 <= x < 9,
        forall|i: int| 0 <= i < 9 && i != x ==> c[i] == b[i],
    ensures
        count(c, q) - holds(c, x, q) == count(b, q) - holds(b, x, q),
{
    reveal(count);
    if x == 0 {
    } else if x == 1 {
    } else if x == 2 {
    } else if x == 3 {
    } else if x == 4 {
    } else if x == 5 {
    } else if x == 6 {
    } else if x == 7 {
    } else {
    }
}

/// Two grids that differ on cell `x` alone differ in their occupied cells by
/// whether cell `x` is taken.
proof fn lemma_taken_step(b: Seq<Piece>, c: Seq<Piece>, x: int)
    requires
        0 <= x < 9,
        forall|i: int| 0 <= i < 9 && i != x ==> c[i] == b[i],
    ensures
        occupied(c) - taken(c, x) == occupied(b) - taken(b, x),
{
    reveal(occupied);
    if x == 0 {
    } else if x == 1 {
    } else if x == 2 {
    } else if x == 3 {
    } else if x == 4 {
    } else if x == 5 {
    } else if x == 6 {
    } else if x == 7 {
    } else {
    }
}

/// Placing the mover's piece on a blank cell of a position reached by
/// alternating play gives a position reached by alternating play, one ply
/// deeper; taking the piece off again gives the first position back.
pub proof fn lemma_move_keeps_alternation(b: Seq<Piece>, depth: int, x: int)
    requires
        alternating(b, depth),
        0 <= x < 9,
        b[x] == Piece::Blank,
    ensures
        depth < 8,
        alternating(b.update(x, mover(depth)), depth + 1),
        b.update(x, mover(depth)).update(x, Piece::Blank) == b,
{
    lemma_place(b, x, mover(depth));
    lemma_taken_bounds(b, x);
}

/// A grid with a blank cell has fewer than nine occupied cells.
proof fn lemma_taken_bounds(b: Seq<Piece>, x: int)
    requires
        0 <= x < 9,
        b[x] == Piece::Blank,
    ensures
        occupied(b) <= 8,
{
    reveal(occupied);
}

/// An opening is a position of depth 0 reached by alternating play.
pub proof fn lemma_opening_alternating(mov: int)
    requires
        0 <= mov < 9,
    ensures
        alternating(opening(mov), 0),
        opening(mov)[mov] == Piece::X,
{
    reveal(occupied);
    reveal(count);
}

} // verus!
