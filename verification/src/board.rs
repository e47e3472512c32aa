//! The board as a mathematical value: a map from positions to cells, and the
//! moves of the game as functions from board to board.

use crate::cell::{Cell, CellState, CellType};
use crate::error::BoardError;
use crate::grid::{adjacent, grid_positions, in_grid, neighbor_list, neighbor_set, Position};
use crate::grid::lemma_neighbor_list;
use crate::placement::{lemma_placed, mine_layout, placement_completes, DRAW_LIMIT};
use vstd::prelude::*;

verus! {

/// Why these parameters cannot make a board, if they cannot. The checks come
/// in a fixed order, so each set of parameters has at most one reason.
pub open spec fn rejection(width: nat, height: nat, mine_count: nat) -> Option<BoardError> {
    if width == 0 {
        Some(BoardError::ZeroWidth)
    } else if height == 0 {
        Some(BoardError::ZeroHeight)
    } else if mine_count == 0 {
        Some(BoardError::ZeroMines)
    } else if mine_count >= width * height {
        Some(BoardError::TooManyMines)
    } else {
        None
    }
}

/// The number of mines among the neighbours of `p`.
pub open spec fn adjacent_mines(mines: Set<Position>, p: Position, width: nat, height: nat) -> nat {
    neighbor_set(p, width, height).intersect(mines).len()
}

/// What lies under `p` on a board with these mines.
pub open spec fn cell_type_at(mines: Set<Position>, p: Position, width: nat, height: nat)
    -> CellType {
    if mines.contains(p) {
        CellType::Mine
    } else {
        CellType::NoMine(adjacent_mines(mines, p, width, height) as u8)
    }
}

/// A board as a mathematical value: its parameters, one cell for each
/// position, and whether a mine has been revealed.
#[verifier::ext_equal]
pub struct Board {
    pub width: nat,
    pub height: nat,
    pub mine_count: nat,
    pub cells: Map<Position, Cell>,
    pub game_over: bool,
}

impl Board {
    /// `p` lies on the board.
    pub open spec fn in_bounds(self, p: Position) -> bool {
        in_grid(p, self.width, self.height)
    }

    /// The positions that hold a mine.
    pub open spec fn mines(self) -> Set<Position> {
        Set::new(|p: Position| self.in_bounds(p) && self.cells[p].is_mine())
    }

    /// The positions in state `state`.
    pub open spec fn in_state(self, state: CellState) -> Set<Position> {
        Set::new(|p: Position| self.in_bounds(p) && self.cells[p].cell_state == state)
    }

    /// The board as it is built: the mines where the draws put them, every
    /// other cell with the count of the mines around it, all cells hidden.
    pub open spec fn fresh(width: nat, height: nat, mine_count: nat) -> Board {
        let mines = mine_layout(width, height, mine_count).to_set();
        Board {
            width,
            height,
            mine_count,
            cells: Map::new(
                |p: Position| in_grid(p, width, height),
                |p: Position|
                    Cell {
                        cell_state: CellState::Hidden,
                        cell_type: cell_type_at(mines, p, width, height),
                    },
            ),
            game_over: false,
        }
    }

    /// The board has one cell for each position of its rectangle, the cells
    /// hold what a fresh board with the same parameters holds, and the mines
    /// are revealed if and only if the game is over.
    pub open spec fn wf(self) -> bool {
        &&& self.width <= usize::MAX
        &&& self.height <= usize::MAX
        &&& rejection(self.width, self.height, self.mine_count) is None
        &&& placement_completes(self.width, self.height, self.mine_count)
        &&& self.cells.dom() =~= grid_positions(self.width, self.height)
        &&& forall|p: Position|
            self.in_bounds(p) ==> (#[trigger] self.cells[p]).cell_type == cell_type_at(
                mine_layout(self.width, self.height, self.mine_count).to_set(),
                p,
                self.width,
                self.height,
            )
        &&& forall|p: Position|
            self.in_bounds(p) && (#[trigger] self.cells[p]).is_mine() ==> (self.cells[p].cell_state
                == CellState::Revealed <==> self.game_over)
    }

    /// The board with the cell at `p` in state `state`.
    pub open spec fn with_state(self, p: Position, state: CellState) -> Board {
        Board { cells: self.cells.insert(p, self.cells[p].with_state(state)), ..self }
    }

    /// The board after a flag move at `p`: a hidden cell gets a flag and a
    /// flagged cell loses it, unless the game is over.
    pub open spec fn flag(self, p: Position) -> Board {
        if !self.in_bounds(p) || self.game_over {
            self
        } else {
            match self.cells[p].cell_state {
                CellState::Hidden => self.with_state(p, CellState::Flagged),
                CellState::Flagged => self.with_state(p, CellState::Hidden),
                CellState::Revealed => self,
            }
        }
    }

    /// A walk over hidden cells in which each step goes from a blank cell to
    /// one of its neighbours.
    pub open spec fn is_cascade_path(self, path: Seq<Position>) -> bool {
        &&& path.len() > 0
        &&& forall|i: int|
            0 <= i < path.len() ==> self.in_bounds(#[trigger] path[i])
                && self.cells[path[i]].cell_state == CellState::Hidden
        &&& forall|i: int|
            #![trigger path[i]]
            0 <= i < path.len() - 1 ==> self.cells[path[i]].is_blank() && adjacent(
                path[i],
                path[i + 1],
            )
    }

    /// A reveal at `from` spreads to `to`.
    pub open spec fn cascades(self, from: Position, to: Position) -> bool {
        exists|path: Seq<Position>|
            #[trigger] self.is_cascade_path(path) && path[0] == from && path.last() == to
    }

    /// The board with every mine revealed and the game over.
    pub open spec fn with_mines_revealed(self) -> Board {
        Board {
            cells: Map::new(
                |q: Position| self.in_bounds(q),
                |q: Position|
                    if self.cells[q].is_mine() {
                        self.cells[q].with_state(CellState::Revealed)
                    } else {
                        self.cells[q]
                    },
            ),
            game_over: true,
            ..self
        }
    }

    /// The board with every cell revealed that a reveal at `p` spreads to.
    pub open spec fn spread(self, p: Position) -> Board {
        Board {
            cells: Map::new(
                |q: Position| self.in_bounds(q),
                |q: Position|
                    if self.cascades(p, q) {
                        self.cells[q].with_state(CellState::Revealed)
                    } else {
                        self.cells[q]
                    },
            ),
            ..self
        }
    }

    /// The board after a reveal move at `p`. Nothing happens outside the
    /// board, after the game is over, or on a cell that is not hidden. On a
    /// mine every mine is revealed and the game is over. On any other cell
    /// the cells that the reveal spreads to are revealed.
    pub open spec fn reveal_at(self, p: Position) -> Board {
        if !self.in_bounds(p) || self.game_over || self.cells[p].cell_state != CellState::Hidden {
            self
        } else if self.cells[p].is_mine() {
            self.with_mines_revealed()
        } else {
            self.spread(p)
        }
    }
}

/// On a board with valid parameters whose placement completes, the layout
/// holds `mine_count` positions of the rectangle, each once.
pub proof fn lemma_mine_layout(width: nat, height: nat, mine_count: nat)
    requires
        0 < width <= usize::MAX,
        0 < height <= usize::MAX,
        placement_completes(width, height, mine_count),
    ensures
        mine_layout(width, height, mine_count).no_duplicates(),
        mine_layout(width, height, mine_count).to_set().finite(),
        mine_layout(width, height, mine_count).to_set().len() == mine_count,
        mine_layout(width, height, mine_count).to_set().subset_of(grid_positions(width, height)),
{
    let layout = mine_layout(width, height, mine_count);
    lemma_placed(width, height, mine_count, DRAW_LIMIT as nat);
    layout.unique_seq_to_set();
    vstd::seq_lib::seq_to_set_is_finite(layout);
    assert forall|p: Position| layout.to_set().contains(p) implies grid_positions(
        width,
        height,
    ).contains(p) by {
        let i = choose|i: int| 0 <= i < layout.len() && layout[i] == p;
        assert(in_grid(layout[i], width, height));
    }
}

/// No cell has more than eight mines around it.
pub proof fn lemma_adjacent_mines_bound(
    mines: Set<Position>,
    p: Position,
    width: nat,
    height: nat,
)
    requires
        width <= usize::MAX,
        height <= usize::MAX,
    ensures
        neighbor_set(p, width, height).finite(),
        neighbor_set(p, width, height).intersect(mines).finite(),
        adjacent_mines(mines, p, width, height) <= 8,
{
    let list = neighbor_list(p, width, height);
    lemma_neighbor_list(p, width, height);
    vstd::seq_lib::seq_to_set_is_finite(list);
    list.lemma_cardinality_of_set();
    vstd::set_lib::lemma_len_intersect(neighbor_set(p, width, height), mines);
}

/// What one more neighbour adds to the count of the mines seen so far.
pub proof fn lemma_count_one_more(seen: Set<Position>, q: Position, mines: Set<Position>)
    requires
        seen.finite(),
        !seen.contains(q),
    ensures
        seen.insert(q).intersect(mines).len() == seen.intersect(mines).len() + (if mines.contains(
            q,
        ) {
            1nat
        } else {
            0nat
        }),
{
    let before = seen.intersect(mines);
    let after = seen.insert(q).intersect(mines);
    if mines.contains(q) {
        assert(after =~= before.insert(q));
    } else {
        assert(after =~= before);
    }
}

/// A fresh board is well formed.
pub proof fn lemma_fresh_wf(width: nat, height: nat, mine_count: nat)
    requires
        width <= usize::MAX,
        height <= usize::MAX,
        rejection(width, height, mine_count) is None,
        placement_completes(width, height, mine_count),
    ensures
        Board::fresh(width, height, mine_count).wf(),
{
}

/// A flag move keeps a board well formed.
pub proof fn lemma_flag_wf(board: Board, p: Position)
    requires
        board.wf(),
    ensures
        board.flag(p).wf(),
{
    let after = board.flag(p);
    assert forall|q: Position| after.in_bounds(q) implies (#[trigger] after.cells[q]).cell_type
        == board.cells[q].cell_type && (after.cells[q].cell_state == CellState::Revealed
        <==> board.cells[q].cell_state == CellState::Revealed) by {}
}

/// A blank cell of a well-formed board has no mine among its neighbours.
pub proof fn lemma_blank_is_clear(board: Board, c: Position, q: Position)
    requires
        board.wf(),
        board.in_bounds(c),
        board.cells[c].is_blank(),
        board.in_bounds(q),
        adjacent(c, q),
    ensures
        !board.cells[q].is_mine(),
{
    let mines = mine_layout(board.width, board.height, board.mine_count).to_set();
    let around = neighbor_set(c, board.width, board.height).intersect(mines);
    lemma_adjacent_mines_bound(mines, c, board.width, board.height);
    if board.cells[q].is_mine() {
        assert(mines.contains(q));
        assert(around.contains(q));
        assert(around.len() != 0);
        assert(adjacent_mines(mines, c, board.width, board.height) as u8 != 0);
    }
}

/// The walk that stays at `start` is a cascade path.
pub proof fn lemma_cascade_begins(board: Board, start: Position)
    requires
        board.in_bounds(start),
        board.cells[start].cell_state == CellState::Hidden,
    ensures
        board.cascades(start, start),
{
    let path = seq![start];
    assert(board.is_cascade_path(path));
    assert(path[0] == start && path.last() == start);
}

/// A reveal that spreads to a blank cell spreads to its hidden neighbours.
pub proof fn lemma_cascade_extends(board: Board, start: Position, c: Position, q: Position)
    requires
        board.cascades(start, c),
        board.cells[c].is_blank(),
        board.in_bounds(q),
        adjacent(c, q),
        board.cells[q].cell_state == CellState::Hidden,
    ensures
        board.cascades(start, q),
{
    let path = choose|path: Seq<Position>|
        #[trigger] board.is_cascade_path(path) && path[0] == start && path.last() == c;
    let longer = path.push(q);
    assert forall|i: int| 0 <= i < longer.len() implies board.in_bounds(#[trigger] longer[i])
        && board.cells[longer[i]].cell_state == CellState::Hidden by {
        if i < path.len() {
            assert(longer[i] == path[i]);
        }
    }
    assert forall|i: int|
        #![trigger longer[i]]
        0 <= i < longer.len() - 1 implies board.cells[longer[i]].is_blank() && adjacent(
        longer[i],
        longer[i + 1],
    ) by {
        assert(longer[i] == path[i]);
        if i < path.len() - 1 {
            assert(longer[i + 1] == path[i + 1]);
        }
    }
    assert(board.is_cascade_path(longer));
    assert(longer[0] == start && longer.last() == q);
}

/// A reveal never spreads to a mine, unless it starts on one.
pub proof fn lemma_cascade_avoids_mines(board: Board, start: Position, q: Position)
    requires
        board.wf(),
        !board.cells[start].is_mine(),
        board.cascades(start, q),
    ensures
        !board.cells[q].is_mine(),
{
    let path = choose|path: Seq<Position>|
        #[trigger] board.is_cascade_path(path) && path[0] == start && path.last() == q;
    if path.len() > 1 {
        let c = path[path.len() - 2];
        assert(board.cells[c].is_blank() && adjacent(c, path[path.len() - 2 + 1]));
        lemma_blank_is_clear(board, c, q);
    }
}

/// A reveal move keeps a board well formed.
pub proof fn lemma_reveal_wf(board: Board, p: Position)
    requires
        board.wf(),
    ensures
        board.reveal_at(p).wf(),
{
    let after = board.reveal_at(p);
    if after != board {
        assert(after.cells.dom() =~= board.cells.dom());
        if !board.cells[p].is_mine() {
            assert forall|q: Position|
                after.in_bounds(q) && (#[trigger] after.cells[q]).is_mine() implies (
            after.cells[q].cell_state == CellState::Revealed <==> after.game_over) by {
                if board.cascades(p, q) {
                    lemma_cascade_avoids_mines(board, p, q);
                }
                assert(board.cells[q].is_mine());
            }
        }
    }
}

/// The mines of a well-formed board are the positions of its layout:
/// `mine_count` of them.
pub proof fn lemma_mines(board: Board)
    requires
        board.wf(),
    ensures
        board.mines() == mine_layout(board.width, board.height, board.mine_count).to_set(),
        board.mines().finite(),
        board.mines().len() == board.mine_count,
{
    let layout = mine_layout(board.width, board.height, board.mine_count).to_set();
    lemma_mine_layout(board.width, board.height, board.mine_count);
    assert forall|p: Position| board.mines().contains(p) <==> layout.contains(p) by {
        if layout.contains(p) {
            assert(grid_positions(board.width, board.height).contains(p));
        }
        if board.in_bounds(p) {
            assert(board.cells[p].cell_type == cell_type_at(layout, p, board.width, board.height));
        }
    }
    assert(board.mines() =~= layout);
}

/// The count on a cell without a mine is the number of the mines around it,
/// which is at most eight.
pub proof fn lemma_counts(board: Board, p: Position)
    requires
        board.wf(),
        board.in_bounds(p),
        !board.cells[p].is_mine(),
    ensures
        board.cells[p].cell_type matches CellType::NoMine(count) && count == adjacent_mines(
            board.mines(),
            p,
            board.width,
            board.height,
        ) && count <= 8,
{
    lemma_mines(board);
    lemma_adjacent_mines_bound(board.mines(), p, board.width, board.height);
    assert(board.cells[p].cell_type == cell_type_at(
        board.mines(),
        p,
        board.width,
        board.height,
    ));
}

} // verus!
