//! The board as text: one glyph and one space for each cell, row by row,
//! and a line feed after each row.

use crate::board::Board;
use crate::cell::{Cell, CellState, CellType};
use vstd::prelude::*;

verus! {

/// The glyph of a revealed mine.
pub const MINE_GLYPH: char = '\u{1F4A3}';

/// The glyph of a flagged cell.
pub const FLAG_GLYPH: char = '\u{1F6A9}';

/// The glyph of a hidden cell.
pub const HIDDEN_GLYPH: char = '\u{1F7EA}';

/// The decimal digit for a count below ten.
pub open spec fn digit(count: u8) -> char {
    ((48 + count) as u8) as char
}

/// The glyph that stands for `cell`.
pub open spec fn glyph(cell: Cell) -> char {
    match cell.cell_state {
        CellState::Revealed => match cell.cell_type {
            CellType::Mine => MINE_GLYPH,
            CellType::NoMine(count) => digit(count),
        },
        CellState::Flagged => FLAG_GLYPH,
        CellState::Hidden => HIDDEN_GLYPH,
    }
}

/// The text of the first `columns` cells of row `y`.
pub open spec fn row_text(board: Board, y: usize, columns: nat) -> Seq<char>
    decreases columns,
{
    if columns == 0 {
        Seq::empty()
    } else {
        let x = (columns - 1) as usize;
        row_text(board, y, (columns - 1) as nat).push(glyph(board.cells[(x, y)])).push(' ')
    }
}

/// The text of the first `rows` rows.
pub open spec fn rows_text(board: Board, rows: nat) -> Seq<char>
    decreases rows,
{
    if rows == 0 {
        Seq::empty()
    } else {
        let y = (rows - 1) as usize;
        (rows_text(board, (rows - 1) as nat) + row_text(board, y, board.width)).push('\n')
    }
}

/// The text of the whole board.
pub open spec fn board_text(board: Board) -> Seq<char> {
    rows_text(board, board.height)
}

/// The glyph that stands for `cell`, whose count, if it has one, is below ten.
pub fn glyph_of(cell: Cell) -> (c: char)
    requires
        cell.cell_type matches CellType::NoMine(count) ==> count < 10,
    ensures
        c == glyph(cell),
{
    match cell.cell_state {
        CellState::Revealed => match cell.cell_type {
            CellType::Mine => MINE_GLYPH,
            CellType::NoMine(count) => (48u8 + count) as char,
        },
        CellState::Flagged => FLAG_GLYPH,
        CellState::Hidden => HIDDEN_GLYPH,
    }
}

/// `String::push` of the standard library: it appends the character to the
/// end of the string and leaves the rest as it was.
#[verifier::external_body]
pub(crate) fn push_char(text: &mut String, c: char)
    ensures
        final(text)@ == old(text)@.push(c),
{
    text.push(c);
}

} // verus!
