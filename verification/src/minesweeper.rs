//! The board engine: it builds a board and applies the moves of the game.

use crate::board::{adjacent_mines, rejection, Board};
use crate::board::{lemma_count_one_more, lemma_counts, lemma_flag_wf, lemma_fresh_wf};
use crate::board::{lemma_cascade_begins, lemma_reveal_wf};
use crate::cascade::spread_from;
use crate::cell::{Cell, CellState, CellType};
use crate::error::BoardError;
use crate::grid::{lemma_neighbor_list, neighbor_list, neighbors_in, Position};
use crate::placement::{contains_position, lemma_placed, lemma_placed_stable, mine_layout};
use crate::placement::{place_mines, placed, placement_completes, DRAW_LIMIT};
use crate::render::{board_text, glyph_of, push_char, row_text, rows_text};
use vstd::prelude::*;

verus! {

/// A game of Minesweeper. Its view is the board as a mathematical value.
#[derive(Debug)]
pub struct Minesweeper {
    width: usize,
    height: usize,
    mine_count: usize,
    board: Vec<Vec<Cell>>,
    game_over: bool,
}

impl View for Minesweeper {
    type V = Board;

    closed spec fn view(&self) -> Board {
        Board {
            width: self.width as nat,
            height: self.height as nat,
            mine_count: self.mine_count as nat,
            cells: Map::new(
                |p: Position| p.0 < self.width && p.1 < self.height,
                |p: Position| self.board@[p.0 as int]@[p.1 as int],
            ),
            game_over: self.game_over,
        }
    }
}

/// Counts the mines among the neighbours of `position`.
fn count_adjacent_mines(mines: &Vec<Position>, position: Position, width: usize, height: usize)
    -> (count: u8)
    ensures
        count == adjacent_mines(mines@.to_set(), position, width as nat, height as nat),
        count <= 8,
{
    let around = neighbors_in(position, width, height);
    let ghost mine_set = mines@.to_set();
    proof {
        lemma_neighbor_list(position, width as nat, height as nat);
        assert(around@.take(0).to_set().intersect(mine_set) =~= Set::<Position>::empty());
    }
    let mut count: u8 = 0;
    for i in 0..around.len()
        invariant
            around@ == neighbor_list(position, width as nat, height as nat),
            around@.no_duplicates(),
            around@.len() <= 8,
            mine_set == mines@.to_set(),
            count <= i,
            count == around@.take(i as int).to_set().intersect(mine_set).len(),
    {
        proof {
            let seen = around@.take(i as int).to_set();
            vstd::seq_lib::seq_to_set_is_finite(around@.take(i as int));
            assert(!seen.contains(around@[i as int])) by {
                if seen.contains(around@[i as int]) {
                    let j = choose|j: int|
                        0 <= j < around@.take(i as int).len() && around@.take(i as int)[j]
                            == around@[i as int];
                    assert(around@[j] == around@[i as int]);
                }
            }
            assert(around@.take(i + 1).to_set() =~= seen.insert(around@[i as int])) by {
                assert(around@.take(i + 1) =~= around@.take(i as int).push(around@[i as int]));
                around@.take(i as int).lemma_push_to_set_commute(around@[i as int]);
            }
            lemma_count_one_more(seen, around@[i as int], mine_set);
        }
        if contains_position(mines, around[i]) {
            count += 1;
        }
    }
    proof {
        assert(around@.take(around@.len() as int) =~= around@);
    }
    count
}

impl Minesweeper {
    /// The cells stand in `width` columns of `height` cells each.
    pub closed spec fn shaped(&self) -> bool {
        &&& self.board@.len() == self.width
        &&& forall|x: int| 0 <= x < self.width ==> (#[trigger] self.board@[x])@.len() == self.height
    }

    /// The cells stand as they should, and the board they make is well
    /// formed.
    pub open spec fn wf(&self) -> bool {
        self.shaped() && self@.wf()
    }

    /// Lays out the cells of a board with these mines.
    fn build(width: usize, height: usize, mine_count: usize, mines: Vec<Position>) -> (game:
        Minesweeper)
        requires
            rejection(width as nat, height as nat, mine_count as nat) is None,
            placement_completes(width as nat, height as nat, mine_count as nat),
            mines@ == mine_layout(width as nat, height as nat, mine_count as nat),
        ensures
            game.wf(),
            game@ == Board::fresh(width as nat, height as nat, mine_count as nat),
    {
        let ghost w = width as nat;
        let ghost h = height as nat;
        let ghost m = mine_count as nat;
        proof {
            lemma_fresh_wf(w, h, m);
        }
        let ghost fresh = Board::fresh(w, h, m);
        let mut board: Vec<Vec<Cell>> = Vec::new();
        for x in 0..width
            invariant
                mines@ == mine_layout(w, h, m),
                w == width,
                h == height,
                m == mine_count,
                fresh == Board::fresh(w, h, m),
                board@.len() == x,
                forall|cx: int| 0 <= cx < x ==> (#[trigger] board@[cx])@.len() == height,
                forall|cx: int, cy: int|
                    0 <= cx < x && 0 <= cy < height ==> board@[cx]@[cy] == fresh.cells[(
                        cx as usize,
                        cy as usize,
                    )],
        {
            let mut column: Vec<Cell> = Vec::new();
            for y in 0..height
                invariant
                    mines@ == mine_layout(w, h, m),
                    w == width,
                    h == height,
                    m == mine_count,
                    x < width,
                    fresh == Board::fresh(w, h, m),
                    column@.len() == y,
                    forall|cy: int|
                        0 <= cy < y ==> column@[cy] == fresh.cells[(x, cy as usize)],
            {
                let position: Position = (x, y);
                let cell_type = if contains_position(&mines, position) {
                    CellType::Mine
                } else {
                    CellType::NoMine(count_adjacent_mines(&mines, position, width, height))
                };
                column.push(Cell { cell_state: CellState::Hidden, cell_type });
            }
            board.push(column);
        }
        let game = Minesweeper { width, height, mine_count, board, game_over: false };
        proof {
            assert(game@.cells =~= fresh.cells);
            assert(game@ =~= fresh);
        }
        game
    }

    /// Builds a board of `width` columns and `height` rows with `mine_count`
    /// mines, using at most `max_draws` draws to place them. It fails if a
    /// parameter is zero, if the mines would leave no cell free, or if the
    /// draws are used up before all mines are placed.
    pub fn with_draw_limit(
        width: usize,
        height: usize,
        mine_count: usize,
        max_draws: u64,
    ) -> (created: Result<Minesweeper, BoardError>)
        ensures
            match created {
                Ok(game) => {
                    &&& rejection(width as nat, height as nat, mine_count as nat) is None
                    &&& placed(
                        width as nat,
                        height as nat,
                        mine_count as nat,
                        max_draws as nat,
                    ).len() == mine_count
                    &&& game.wf()
                    &&& game@ == Board::fresh(width as nat, height as nat, mine_count as nat)
                },
                Err(e) => {
                    ||| rejection(width as nat, height as nat, mine_count as nat) == Some(e)
                    ||| {
                        &&& rejection(width as nat, height as nat, mine_count as nat) is None
                        &&& placed(
                            width as nat,
                            height as nat,
                            mine_count as nat,
                            max_draws as nat,
                        ).len() < mine_count
                        &&& e == BoardError::DrawLimitReached
                    }
                },
            },
    {
        if width == 0 {
            return Err(BoardError::ZeroWidth);
        }
        if height == 0 {
            return Err(BoardError::ZeroHeight);
        }
        if mine_count == 0 {
            return Err(BoardError::ZeroMines);
        }
        match width.checked_mul(height) {
            Some(cell_count) => {
                if mine_count >= cell_count {
                    return Err(BoardError::TooManyMines);
                }
            },
            None => {},
        }
        let ghost w = width as nat;
        let ghost h = height as nat;
        let ghost m = mine_count as nat;
        let mines = place_mines(width, height, mine_count, max_draws);
        proof {
            lemma_placed(w, h, m, max_draws as nat);
        }
        if mines.len() < mine_count {
            return Err(BoardError::DrawLimitReached);
        }
        proof {
            lemma_placed_stable(w, h, m, max_draws as nat, DRAW_LIMIT as nat);
        }
        Ok(Minesweeper::build(width, height, mine_count, mines))
    }

    /// Builds a board of `width` columns and `height` rows with `mine_count`
    /// mines, using at most `DRAW_LIMIT` draws to place them. It fails if a
    /// parameter is zero, if the mines would leave no cell free, or if the
    /// draws are used up before all mines are placed.
    pub fn new(width: usize, height: usize, mine_count: usize) -> (created: Result<
        Minesweeper,
        BoardError,
    >)
        ensures
            match created {
                Ok(game) => {
                    &&& rejection(width as nat, height as nat, mine_count as nat) is None
                    &&& placement_completes(width as nat, height as nat, mine_count as nat)
                    &&& game.wf()
                    &&& game@ == Board::fresh(width as nat, height as nat, mine_count as nat)
                },
                Err(e) => {
                    ||| rejection(width as nat, height as nat, mine_count as nat) == Some(e)
                    ||| {
                        &&& rejection(width as nat, height as nat, mine_count as nat) is None
                        &&& !placement_completes(width as nat, height as nat, mine_count as nat)
                        &&& e == BoardError::DrawLimitReached
                    }
                },
            },
    {
        Minesweeper::with_draw_limit(width, height, mine_count, DRAW_LIMIT)
    }

    /// The number of columns.
    pub fn width(&self) -> (width: usize)
        ensures
            width == self@.width,
    {
        self.width
    }

    /// The number of rows.
    pub fn height(&self) -> (height: usize)
        ensures
            height == self@.height,
    {
        self.height
    }

    /// The number of mines.
    pub fn mine_count(&self) -> (mine_count: usize)
        ensures
            mine_count == self@.mine_count,
    {
        self.mine_count
    }

    /// Whether a mine has been revealed.
    pub fn is_game_over(&self) -> (over: bool)
        ensures
            over == self@.game_over,
    {
        self.game_over
    }

    /// The cell at `position`, if the position lies on the board.
    pub fn cell(&self, position: Position) -> (cell: Option<Cell>)
        requires
            self.shaped(),
        ensures
            cell == if self@.in_bounds(position) {
                Some(self@.cells[position])
            } else {
                None
            },
    {
        if position.0 < self.width && position.1 < self.height {
            Some(self.board[position.0][position.1])
        } else {
            None
        }
    }

    /// The cell at `position`, which lies on the board.
    pub(crate) fn peek(&self, position: Position) -> (cell: Cell)
        requires
            self.shaped(),
            self@.in_bounds(position),
        ensures
            cell == self@.cells[position],
    {
        self.board[position.0][position.1]
    }

    /// Puts the cell at `position` into `state`.
    pub(crate) fn set_state(&mut self, position: Position, state: CellState)
        requires
            old(self).shaped(),
            old(self)@.in_bounds(position),
        ensures
            final(self).shaped(),
            final(self)@ == old(self)@.with_state(position, state),
    {
        self.board[position.0][position.1].cell_state = state;
        proof {
            assert(self@.cells =~= old(self)@.with_state(position, state).cells);
            assert(self@ =~= old(self)@.with_state(position, state));
        }
    }

    /// The positions of the board that are adjacent to `position`, column by
    /// column and from top to bottom in each column.
    pub fn neighbors(&self, position: Position) -> (list: Vec<Position>)
        ensures
            list@ == neighbor_list(position, self@.width, self@.height),
    {
        neighbors_in(position, self.width, self.height)
    }

    /// Puts a flag on the hidden cell at `position`, or takes the flag off
    /// it. Nothing happens on a revealed cell or after the game is over. It
    /// fails, and changes nothing, if the position lies off the board.
    pub fn flag(&mut self, position: Position) -> (done: Result<(), BoardError>)
        requires
            old(self).wf(),
        ensures
            final(self).wf(),
            final(self)@ == old(self)@.flag(position),
            done is Err <==> !old(self)@.in_bounds(position),
            done matches Err(e) ==> e == BoardError::OutOfBounds,
    {
        if position.0 >= self.width || position.1 >= self.height {
            return Err(BoardError::OutOfBounds);
        }
        proof {
            lemma_flag_wf(self@, position);
        }
        if self.game_over {
            return Ok(());
        }
        match self.board[position.0][position.1].cell_state {
            CellState::Flagged => self.set_state(position, CellState::Hidden),
            CellState::Hidden => self.set_state(position, CellState::Flagged),
            CellState::Revealed => (),
        }
        Ok(())
    }

    /// Starts the game again: the board becomes what a new board with the
    /// same parameters is.
    pub fn reset(&mut self)
        requires
            old(self).wf(),
        ensures
            final(self).wf(),
            final(self)@ == Board::fresh(
                old(self)@.width,
                old(self)@.height,
                old(self)@.mine_count,
            ),
    {
        let mines = place_mines(self.width, self.height, self.mine_count, DRAW_LIMIT);
        *self = Minesweeper::build(self.width, self.height, self.mine_count, mines);
    }

    /// Reveals every mine and ends the game.
    fn reveal_mines(&mut self)
        requires
            old(self).shaped(),
        ensures
            final(self).shaped(),
            final(self)@ == old(self)@.with_mines_revealed(),
    {
        let ghost before = self@;
        let width = self.width;
        let height = self.height;
        for x in 0..width
            invariant
                self.shaped(),
                width == self.width,
                height == self.height,
                self@.width == before.width,
                self@.height == before.height,
                self@.mine_count == before.mine_count,
                self@.game_over == before.game_over,
                forall|p: Position|
                    before.in_bounds(p) ==> #[trigger] self@.cells[p] == if p.0 < x
                        && before.cells[p].is_mine() {
                        before.cells[p].with_state(CellState::Revealed)
                    } else {
                        before.cells[p]
                    },
        {
            for y in 0..height
                invariant
                    self.shaped(),
                    x < width,
                    width == self.width,
                    height == self.height,
                    self@.width == before.width,
                    self@.height == before.height,
                    self@.mine_count == before.mine_count,
                    self@.game_over == before.game_over,
                    forall|p: Position|
                        before.in_bounds(p) ==> #[trigger] self@.cells[p] == if (p.0 < x || (p.0
                            == x && p.1 < y)) && before.cells[p].is_mine() {
                            before.cells[p].with_state(CellState::Revealed)
                        } else {
                            before.cells[p]
                        },
            {
                let position: Position = (x, y);
                if self.peek(position).cell_type == CellType::Mine {
                    self.set_state(position, CellState::Revealed);
                }
            }
        }
        let ghost swept = self@;
        self.game_over = true;
        proof {
            assert(self@.cells =~= swept.cells);
            assert forall|p: Position| before.in_bounds(p) implies self@.cells[p]
                == before.with_mines_revealed().cells[p] by {
                assert(swept.cells[p] == before.with_mines_revealed().cells[p]);
            }
            assert(self@.cells =~= before.with_mines_revealed().cells);
            assert(self@ =~= before.with_mines_revealed());
        }
    }

    /// Reveals the hidden cell at `position`. On a mine every mine is
    /// revealed and the game is over. On a blank cell the reveal spreads to
    /// the neighbours, and on from each blank cell among them. Nothing
    /// happens on a revealed or flagged cell or after the game is over. It
    /// fails, and changes nothing, if the position lies off the board.
    pub fn reveal_at(&mut self, position: Position) -> (done: Result<(), BoardError>)
        requires
            old(self).wf(),
        ensures
            final(self).wf(),
            final(self)@ == old(self)@.reveal_at(position),
            old(self)@.in_bounds(position) && !old(self)@.game_over
                && old(self)@.cells[position].cell_state == CellState::Hidden
                ==> final(self)@.cells[position].cell_state == CellState::Revealed,
            done is Err <==> !old(self)@.in_bounds(position),
            done matches Err(e) ==> e == BoardError::OutOfBounds,
    {
        if position.0 >= self.width || position.1 >= self.height {
            return Err(BoardError::OutOfBounds);
        }
        proof {
            lemma_reveal_wf(self@, position);
            if self@.cells[position].cell_state == CellState::Hidden {
                lemma_cascade_begins(self@, position);
            }
        }
        if self.game_over {
            return Ok(());
        }
        let cell = self.board[position.0][position.1];
        if cell.cell_state == CellState::Hidden {
            if cell.cell_type == CellType::Mine {
                self.reveal_mines();
            } else {
                spread_from(self, position);
            }
        }
        Ok(())
    }

    /// The board as text, row by row: a mine glyph for a revealed mine, the
    /// count for any other revealed cell, a flag glyph for a flagged cell and
    /// a hidden-cell glyph for a hidden one, each followed by a space, and a
    /// line feed after each row.
    pub fn render(&self) -> (text: String)
        requires
            self.wf(),
        ensures
            text@ == board_text(self@),
    {
        let width = self.width;
        let height = self.height;
        let mut text = String::new();
        for y in 0..height
            invariant
                self.wf(),
                width == self.width,
                height == self.height,
                text@ == rows_text(self@, y as nat),
        {
            let ghost above = text@;
            for x in 0..width
                invariant
                    self.wf(),
                    y < height,
                    width == self.width,
                    height == self.height,
                    text@ == above + row_text(self@, y, x as nat),
            {
                let position: Position = (x, y);
                let cell = self.peek(position);
                proof {
                    if !cell.is_mine() {
                        lemma_counts(self@, position);
                    }
                }
                push_char(&mut text, glyph_of(cell));
                push_char(&mut text, ' ');
                proof {
                    assert(text@ =~= above + row_text(self@, y, (x + 1) as nat));
                }
            }
            push_char(&mut text, '\n');
            proof {
                assert(text@ =~= rows_text(self@, (y + 1) as nat));
            }
        }
        text
    }
}

} // verus!
