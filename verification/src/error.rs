//! Why a board cannot be built or a move cannot be made.

use vstd::prelude::*;

verus! {

/// The reasons for which building a board or making a move fails.
#[derive(Debug, PartialEq, Eq, Clone, Copy, Structural)]
pub enum BoardError {
    /// The board would have no columns.
    ZeroWidth,
    /// The board would have no rows.
    ZeroHeight,
    /// The board would have no mines.
    ZeroMines,
    /// The mines would fill the whole board, or more.
    TooManyMines,
    /// The allowed number of draws did not yield enough distinct positions.
    DrawLimitReached,
    /// The position lies outside the board.
    OutOfBounds,
}

} // verus!
