//! An exact solver for the 3x3 game of noughts and crosses.
//!
//! The board is nine cells in row-major order:
//!
//! ```text
//!   0 1 2
//!   3 4 5
//!   6 7 8
//! ```
//!
//! `board` holds the pieces and the grid, `lines` finds completed lines,
//! `search` is the minimax search with its two prunings together with the
//! theorems that relate it to the unpruned game value, and `bench` replays the
//! search from a chosen opening and totals the work done.

pub mod board;
pub mod lines;
pub mod search;
pub mod theory;
pub mod bench;
