//! What holds of every board and every move, proved over the board as a
//! mathematical value.

use crate::board::{lemma_cascade_avoids_mines, lemma_cascade_begins, lemma_cascade_extends};
use crate::board::{lemma_mines, Board};
use crate::cell::CellState;
use crate::grid::{adjacent, in_grid, lemma_grid_positions, neighbor_list, Position};
use vstd::prelude::*;

verus! {

/// A well-formed board has one cell for each position of its rectangle,
/// `width * height` in all, and `mine_count` of them hold a mine.
pub proof fn lemma_cell_and_mine_totals(board: Board)
    requires
        board.wf(),
    ensures
        board.cells.dom().finite(),
        board.cells.dom().len() == board.width * board.height,
        forall|p: Position| board.cells.dom().contains(p) <==> board.in_bounds(p),
        board.mines().finite(),
        board.mines().len() == board.mine_count,
{
    lemma_grid_positions(board.width, board.height);
    lemma_mines(board);
}

/// A fresh board has all its cells hidden and its game running.
pub proof fn lemma_fresh_is_hidden(width: nat, height: nat, mine_count: nat)
    ensures
        !Board::fresh(width, height, mine_count).game_over,
        forall|p: Position|
            in_grid(p, width, height) ==> (#[trigger] Board::fresh(
                width,
                height,
                mine_count,
            ).cells[p]).cell_state == CellState::Hidden,
{
}

/// A position away from the border has eight neighbours, a corner has three
/// and any other position on the border has five, on a board of at least two
/// columns and two rows.
pub proof fn lemma_neighbor_totals(p: Position, width: nat, height: nat)
    requires
        2 <= width <= usize::MAX,
        2 <= height <= usize::MAX,
        in_grid(p, width, height),
    ensures
        neighbor_list(p, width, height).len() == {
            let on_side = p.0 == 0 || p.0 == width - 1;
            let on_end = p.1 == 0 || p.1 == height - 1;
            if on_side && on_end {
                3nat
            } else if on_side || on_end {
                5nat
            } else {
                8nat
            }
        },
{
}

/// Revealing a hidden mine while the game runs reveals every mine, leaves
/// every other cell as it was and ends the game; after that no reveal and no
/// flag changes the board.
pub proof fn lemma_mine_ends_game(board: Board, p: Position, q: Position)
    requires
        board.wf(),
        board.in_bounds(p),
        !board.game_over,
        board.cells[p].cell_state == CellState::Hidden,
        board.cells[p].is_mine(),
    ensures
        board.reveal_at(p).game_over,
        forall|r: Position|
            board.in_bounds(r) ==> #[trigger] board.reveal_at(p).cells[r] == if board.cells[r]
                .is_mine() {
                board.cells[r].with_state(CellState::Revealed)
            } else {
                board.cells[r]
            },
        board.reveal_at(p).reveal_at(q) == board.reveal_at(p),
        board.reveal_at(p).flag(q) == board.reveal_at(p),
{
}

/// Once the game is over, no reveal and no flag changes the board.
pub proof fn lemma_game_over_is_final(board: Board, q: Position)
    requires
        board.game_over,
    ensures
        board.reveal_at(q) == board,
        board.flag(q) == board,
{
}

/// A reveal on a hidden cell without a mine, while the game runs, reveals
/// that cell; it reveals no mine and does not end the game; and where it
/// reveals a blank cell that was hidden, it also reveals every neighbour of
/// that cell that was hidden. Every other cell stays as it was.
pub proof fn lemma_reveal_spreads(board: Board, p: Position, c: Position, q: Position)
    requires
        board.wf(),
        board.in_bounds(p),
        !board.game_over,
        board.cells[p].cell_state == CellState::Hidden,
        !board.cells[p].is_mine(),
        board.in_bounds(c),
        board.in_bounds(q),
    ensures
        board.reveal_at(p).cells[p].cell_state == CellState::Revealed,
        !board.reveal_at(p).game_over,
        board.reveal_at(p).cells[c] != board.cells[c] ==> {
            &&& board.cells[c].cell_state == CellState::Hidden
            &&& !board.cells[c].is_mine()
            &&& board.reveal_at(p).cells[c] == board.cells[c].with_state(CellState::Revealed)
        },
        board.reveal_at(p).cells[c] != board.cells[c] && board.cells[c].is_blank() && adjacent(c, q)
            && board.cells[q].cell_state == CellState::Hidden ==> board.reveal_at(
            p,
        ).cells[q].cell_state == CellState::Revealed,
{
    let after = board.reveal_at(p);
    lemma_cascade_begins(board, p);
    if after.cells[c] != board.cells[c] {
        assert(board.cascades(p, c));
        lemma_cascade_avoids_mines(board, p, c);
        let path = choose|path: Seq<Position>|
            #[trigger] board.is_cascade_path(path) && path[0] == p && path.last() == c;
        assert(board.cells[path[path.len() - 1]].cell_state == CellState::Hidden);
        if board.cells[c].is_blank() && adjacent(c, q) && board.cells[q].cell_state
            == CellState::Hidden {
            lemma_cascade_extends(board, p, c, q);
        }
    }
}

/// A flag on a hidden cell, while the game runs, makes it flagged and
/// changes nothing else; a second flag on it gives the first board back.
pub proof fn lemma_flag_toggles(board: Board, p: Position)
    requires
        board.wf(),
        board.in_bounds(p),
        !board.game_over,
        board.cells[p].cell_state == CellState::Hidden,
    ensures
        board.flag(p) == board.with_state(p, CellState::Flagged),
        board.flag(p).flag(p) == board,
{
    assert(board.flag(p).flag(p).cells =~= board.cells);
    assert(board.flag(p).flag(p) =~= board);
}

/// A flag on a revealed cell changes nothing.
pub proof fn lemma_flag_skips_revealed(board: Board, p: Position)
    requires
        board.in_bounds(p),
        board.cells[p].cell_state == CellState::Revealed,
    ensures
        board.flag(p) == board,
{
}

/// The cells of a cascade path but the last make a cascade path too.
proof fn lemma_cascade_prefix(board: Board, path: Seq<Position>)
    requires
        board.is_cascade_path(path),
        path.len() > 1,
    ensures
        board.is_cascade_path(path.drop_last()),
{
    let shorter = path.drop_last();
    assert forall|i: int| 0 <= i < shorter.len() implies board.in_bounds(#[trigger] shorter[i])
        && board.cells[shorter[i]].cell_state == CellState::Hidden by {
        assert(shorter[i] == path[i]);
    }
    assert forall|i: int|
        #![trigger shorter[i]]
        0 <= i < shorter.len() - 1 implies board.cells[shorter[i]].is_blank() && adjacent(
        shorter[i],
        shorter[i + 1],
    ) by {
        assert(shorter[i] == path[i]);
        assert(shorter[i + 1] == path[i + 1]);
    }
}

/// A reveal at `p` changes no cell out of reach: each cell that it changes,
/// but `p` itself, has a neighbour that it changes too and that is blank.
pub proof fn lemma_reveal_stays_connected(board: Board, p: Position, c: Position)
    requires
        board.wf(),
        board.in_bounds(p),
        !board.game_over,
        !board.cells[p].is_mine(),
        board.in_bounds(c),
        board.reveal_at(p).cells[c] != board.cells[c],
        c != p,
    ensures
        exists|b: Position|
            #![trigger board.reveal_at(p).cells[b]]
            board.in_bounds(b) && adjacent(b, c) && board.cells[b].is_blank() && board.reveal_at(
                p,
            ).cells[b] != board.cells[b],
{
    assert(board.cascades(p, c));
    let path = choose|path: Seq<Position>|
        #[trigger] board.is_cascade_path(path) && path[0] == p && path.last() == c;
    let b = path[path.len() - 2];
    assert(board.cells[b].is_blank() && adjacent(b, path[path.len() - 2 + 1]));
    lemma_cascade_prefix(board, path);
    assert(path.drop_last()[0] == p && path.drop_last().last() == b);
    assert(board.cascades(p, b));
    assert(board.reveal_at(p).cells[b] != board.cells[b]);
}

} // verus!
