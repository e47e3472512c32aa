//! The cells of a board: what lies under a cell and what the player sees of it.

use vstd::prelude::*;

verus! {

/// What the player sees of a cell.
#[derive(Debug, PartialEq, Eq, Clone, Copy, Structural)]
pub enum CellState {
    Revealed,
    Flagged,
    Hidden,
}

/// What lies under a cell: a mine, or the number of mines around it.
#[derive(Debug, PartialEq, Eq, Clone, Copy, Structural)]
pub enum CellType {
    Mine,
    NoMine(u8),
}

/// One cell of the board.
#[derive(Debug, PartialEq, Eq, Clone, Copy, Structural)]
pub struct Cell {
    pub cell_state: CellState,
    pub cell_type: CellType,
}

impl Cell {
    /// The same cell in another state.
    pub open spec fn with_state(self, state: CellState) -> Cell {
        Cell { cell_state: state, cell_type: self.cell_type }
    }

    /// A cell with a mine on it.
    pub open spec fn is_mine(self) -> bool {
        self.cell_type == CellType::Mine
    }

    /// A cell without a mine on it or around it.
    pub open spec fn is_blank(self) -> bool {
        self.cell_type == CellType::NoMine(0)
    }
}

} // verus!
