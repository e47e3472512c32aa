//! How a reveal spreads over blank cells: a worklist of blank cells whose
//! neighbours are still to be looked at, and the proof that working it off
//! reveals exactly the cells that the reveal spreads to.

use crate::board::{lemma_cascade_begins, lemma_cascade_extends, Board};
use crate::cell::{CellState, CellType};
use crate::grid::{adjacent, grid_positions, lemma_grid_positions, lemma_neighbor_list};
use crate::grid::{neighbor_list, Position};
use crate::minesweeper::Minesweeper;
use vstd::prelude::*;

verus! {

/// `p` was hidden before and is revealed now.
spec fn opened(before: Board, now: Board, p: Position) -> bool {
    before.cells[p].cell_state == CellState::Hidden && now.cells[p].cell_state
        == CellState::Revealed
}

/// Every neighbour of `c` that was hidden before is revealed now.
spec fn settled(before: Board, now: Board, c: Position) -> bool {
    forall|q: Position|
        #![trigger now.cells[q]]
        before.in_bounds(q) && adjacent(c, q) && before.cells[q].cell_state == CellState::Hidden
            ==> now.cells[q].cell_state == CellState::Revealed
}

/// What holds while a reveal at `start` spreads: only cells that the reveal
/// spreads to have been opened, and each opened blank cell either waits to
/// be worked off or has all its neighbours opened.
#[verifier::opaque]
spec fn spreading(before: Board, now: Board, start: Position, waiting: Set<Position>)
    -> bool {
    &&& now.width == before.width
    &&& now.height == before.height
    &&& now.mine_count == before.mine_count
    &&& now.game_over == before.game_over
    &&& before.cells.dom() =~= grid_positions(before.width, before.height)
    &&& now.cells.dom() =~= before.cells.dom()
    &&& before.in_bounds(start)
    &&& opened(before, now, start)
    &&& forall|p: Position|
        before.in_bounds(p) ==> (#[trigger] now.cells[p]).cell_type == before.cells[p].cell_type
    &&& forall|p: Position|
        before.in_bounds(p) ==> (#[trigger] now.cells[p]).cell_state == before.cells[p].cell_state
            || (opened(before, now, p) && before.cascades(start, p))
    &&& forall|c: Position|
        #[trigger] waiting.contains(c) ==> before.in_bounds(c) && opened(before, now, c)
            && before.cells[c].is_blank()
    &&& forall|c: Position|
        before.in_bounds(c) && opened(before, now, c) && before.cells[c].is_blank()
            ==> waiting.contains(c) || #[trigger] settled(before, now, c)
}

/// While a reveal spreads, the board keeps its size.
proof fn lemma_spread_keeps_size(before: Board, now: Board, start: Position, waiting: Set<Position>)
    requires
        spreading(before, now, start, waiting),
    ensures
        now.width == before.width,
        now.height == before.height,
{
    reveal(spreading);
}

/// The hidden cells of a board are finitely many.
proof fn lemma_hidden_finite(board: Board)
    requires
        board.width <= usize::MAX,
        board.height <= usize::MAX,
    ensures
        board.in_state(CellState::Hidden).finite(),
{
    lemma_grid_positions(board.width, board.height);
    vstd::set_lib::lemma_set_subset_finite(
        grid_positions(board.width, board.height),
        board.in_state(CellState::Hidden),
    );
}

/// Revealing a hidden cell leaves one hidden cell less.
proof fn lemma_one_less_hidden(board: Board, p: Position)
    requires
        board.width <= usize::MAX,
        board.height <= usize::MAX,
        board.in_bounds(p),
        board.cells[p].cell_state == CellState::Hidden,
    ensures
        board.with_state(p, CellState::Revealed).in_state(CellState::Hidden).len() + 1
            == board.in_state(CellState::Hidden).len(),
{
    let after = board.with_state(p, CellState::Revealed);
    lemma_hidden_finite(board);
    assert(after.in_state(CellState::Hidden) =~= board.in_state(CellState::Hidden).remove(p));
}

/// The first step of a reveal on a cell without a mine: the cell is opened,
/// and it waits if it is blank.
proof fn lemma_spread_begins(before: Board, start: Position)
    requires
        before.cells.dom() =~= grid_positions(before.width, before.height),
        before.in_bounds(start),
        before.cells[start].cell_state == CellState::Hidden,
    ensures
        spreading(
            before,
            before.with_state(start, CellState::Revealed),
            start,
            if before.cells[start].is_blank() {
                set![start]
            } else {
                Set::empty()
            },
        ),
{
    let now = before.with_state(start, CellState::Revealed);
    let waiting = if before.cells[start].is_blank() {
        set![start]
    } else {
        Set::<Position>::empty()
    };
    reveal(spreading);
    lemma_cascade_begins(before, start);
    assert(now.cells.dom() =~= before.cells.dom());
    assert forall|c: Position|
        before.in_bounds(c) && opened(before, now, c) && before.cells[c].is_blank()
        implies waiting.contains(c) || #[trigger] settled(before, now, c) by {
        assert(c == start);
    }
}

/// One step of the spreading: a hidden neighbour `q` of a waiting cell is
/// opened, and it waits in turn if it is blank.
proof fn lemma_spread_opens(
    before: Board,
    now: Board,
    start: Position,
    waiting: Set<Position>,
    current: Position,
    q: Position,
)
    requires
        before.width <= usize::MAX,
        before.height <= usize::MAX,
        spreading(before, now, start, waiting),
        waiting.contains(current),
        before.in_bounds(q),
        adjacent(current, q),
        now.cells[q].cell_state == CellState::Hidden,
    ensures
        spreading(
            before,
            now.with_state(q, CellState::Revealed),
            start,
            if before.cells[q].is_blank() {
                waiting.insert(q)
            } else {
                waiting
            },
        ),
        now.with_state(q, CellState::Revealed).in_state(CellState::Hidden).len() + 1
            == now.in_state(CellState::Hidden).len(),
{
    let next = now.with_state(q, CellState::Revealed);
    let grown = if before.cells[q].is_blank() {
        waiting.insert(q)
    } else {
        waiting
    };
    reveal(spreading);
    lemma_one_less_hidden(now, q);
    assert(now.cells[q].cell_state == before.cells[q].cell_state);
    assert(now.cells[current].cell_state != before.cells[current].cell_state);
    lemma_cascade_extends(before, start, current, q);
    assert(next.cells.dom() =~= before.cells.dom());
    assert forall|p: Position| before.in_bounds(p) implies (#[trigger] next.cells[p]).cell_type
        == before.cells[p].cell_type by {
        assert(now.cells[p].cell_type == before.cells[p].cell_type);
    }
    assert forall|p: Position| before.in_bounds(p) implies (#[trigger] next.cells[p]).cell_state
        == before.cells[p].cell_state || (opened(before, next, p) && before.cascades(start, p)) by {
        assert(now.cells[p].cell_state == before.cells[p].cell_state || (opened(before, now, p)
            && before.cascades(start, p)));
    }
    assert forall|c: Position| #[trigger] grown.contains(c) implies before.in_bounds(c) && opened(
        before,
        next,
        c,
    ) && before.cells[c].is_blank() by {
        if c != q {
            assert(waiting.contains(c));
        }
    }
    assert forall|c: Position|
        before.in_bounds(c) && opened(before, next, c) && before.cells[c].is_blank()
        implies grown.contains(c) || #[trigger] settled(before, next, c) by {
        if c != q {
            assert(opened(before, now, c));
            if !waiting.contains(c) {
                assert(settled(before, now, c));
                assert forall|r: Position|
                    #![trigger next.cells[r]]
                    before.in_bounds(r) && adjacent(c, r) && before.cells[r].cell_state
                        == CellState::Hidden implies next.cells[r].cell_state
                    == CellState::Revealed by {
                    assert(now.cells[r].cell_state == CellState::Revealed);
                }
            }
        }
    }
}

/// The last step for a waiting cell: when all its neighbours are opened it
/// waits no longer.
proof fn lemma_spread_settles(
    before: Board,
    now: Board,
    start: Position,
    waiting: Set<Position>,
    current: Position,
)
    requires
        spreading(before, now, start, waiting.insert(current)),
        settled(before, now, current),
    ensures
        spreading(before, now, start, waiting),
{
    reveal(spreading);
    assert forall|c: Position| #[trigger] waiting.contains(c) implies before.in_bounds(c) && opened(
        before,
        now,
        c,
    ) && before.cells[c].is_blank() by {
        assert(waiting.insert(current).contains(c));
    }
    assert forall|c: Position|
        before.in_bounds(c) && opened(before, now, c) && before.cells[c].is_blank()
        implies waiting.contains(c) || #[trigger] settled(before, now, c) by {
        if c != current {
            assert(waiting.insert(current).contains(c) || settled(before, now, c));
        }
    }
}

/// When no cell waits, every cell of a cascade path is opened.
proof fn lemma_path_opened(before: Board, now: Board, start: Position, path: Seq<Position>, i: int)
    requires
        spreading(before, now, start, Set::empty()),
        before.is_cascade_path(path),
        path[0] == start,
        0 <= i < path.len(),
    ensures
        now.cells[path[i]].cell_state == CellState::Revealed,
    decreases i,
{
    reveal(spreading);
    if i > 0 {
        lemma_path_opened(before, now, start, path, i - 1);
        let c = path[i - 1];
        assert(before.in_bounds(c) && before.cells[c].cell_state == CellState::Hidden);
        assert(before.cells[c].is_blank() && adjacent(c, path[i - 1 + 1]));
        assert(opened(before, now, c));
        assert(settled(before, now, c));
        assert(before.in_bounds(path[i]) && before.cells[path[i]].cell_state == CellState::Hidden);
    }
}

/// When no cell waits, the board is what the reveal makes of it.
proof fn lemma_spread_ends(before: Board, now: Board, start: Position)
    requires
        spreading(before, now, start, Set::empty()),
    ensures
        now == before.spread(start),
{
    reveal(spreading);
    let after = before.spread(start);
    assert forall|q: Position| before.in_bounds(q) implies now.cells[q] == after.cells[q] by {
        assert(now.cells[q].cell_type == before.cells[q].cell_type);
        if before.cascades(start, q) {
            let path = choose|path: Seq<Position>|
                #[trigger] before.is_cascade_path(path) && path[0] == start && path.last() == q;
            lemma_path_opened(before, now, start, path, path.len() - 1);
        }
    }
    assert(now.cells.dom() =~= after.cells.dom());
    assert(now.cells =~= after.cells);
    assert(now =~= after);
}

/// A cell has the same type now as it had before.
proof fn lemma_same_kind(
    before: Board,
    now: Board,
    start: Position,
    waiting: Set<Position>,
    q: Position,
)
    requires
        spreading(before, now, start, waiting),
        before.in_bounds(q),
    ensures
        now.cells[q].cell_type == before.cells[q].cell_type,
        now.cells[q].is_blank() == before.cells[q].is_blank(),
{
    reveal(spreading);
}

/// A cell whose neighbours are all looked at is settled.
proof fn lemma_neighbors_settled(
    before: Board,
    now: Board,
    start: Position,
    waiting: Set<Position>,
    current: Position,
    around: Seq<Position>,
)
    requires
        before.width <= usize::MAX,
        before.height <= usize::MAX,
        spreading(before, now, start, waiting),
        around == neighbor_list(current, before.width, before.height),
        forall|j: int|
            0 <= j < around.len() ==> (#[trigger] now.cells[around[j]]).cell_state
                != CellState::Hidden,
    ensures
        settled(before, now, current),
{
    reveal(spreading);
    lemma_neighbor_list(current, before.width, before.height);
    assert forall|q: Position|
        #![trigger now.cells[q]]
        before.in_bounds(q) && adjacent(current, q) && before.cells[q].cell_state
            == CellState::Hidden implies now.cells[q].cell_state == CellState::Revealed by {
        assert(around.contains(q));
        let j = choose|j: int| 0 <= j < around.len() && around[j] == q;
        assert(now.cells[around[j]].cell_state != CellState::Hidden);
    }
}

/// Reveals the cell at `start`, which holds no mine, and every cell that the
/// reveal spreads to.
pub(crate) fn spread_from(game: &mut Minesweeper, start: Position)
    requires
        old(game).wf(),
        old(game)@.in_bounds(start),
        old(game)@.cells[start].cell_state == CellState::Hidden,
    ensures
        final(game).shaped(),
        final(game)@ == old(game)@.spread(start),
{
    let ghost before = game@;
    let first = game.peek(start);
    game.set_state(start, CellState::Revealed);
    let mut pending: Vec<Position> = Vec::new();
    if first.cell_type == CellType::NoMine(0) {
        pending.push(start);
    }
    proof {
        lemma_spread_begins(before, start);
        if before.cells[start].is_blank() {
            assert(pending@.to_set() =~= set![start]) by {
                assert(pending@[0] == start);
            }
        } else {
            assert(pending@.to_set() =~= Set::<Position>::empty());
        }
    }
    while pending.len() > 0
        invariant
            before.width <= usize::MAX,
            before.height <= usize::MAX,
            game.shaped(),
            spreading(before, game@, start, pending@.to_set()),
        decreases game@.in_state(CellState::Hidden).len() + pending@.len(),
    {
        let ghost budget = game@.in_state(CellState::Hidden).len() + pending@.len();
        let ghost stacked = pending@;
        let current = pending.pop().unwrap();
        proof {
            assert(stacked =~= pending@.push(current));
            pending@.lemma_push_to_set_commute(current);
            lemma_neighbor_list(current, before.width, before.height);
            lemma_spread_keeps_size(before, game@, start, stacked.to_set());
        }
        let around = game.neighbors(current);
        for i in 0..around.len()
            invariant
                before.width <= usize::MAX,
                before.height <= usize::MAX,
                game.shaped(),
                game@.width == before.width,
                game@.height == before.height,
                around@ == neighbor_list(current, before.width, before.height),
                forall|j: int|
                    0 <= j < around@.len() ==> before.in_bounds(#[trigger] around@[j]) && adjacent(
                        current,
                        around@[j],
                    ),
                spreading(before, game@, start, pending@.to_set().insert(current)),
                forall|j: int|
                    0 <= j < i ==> (#[trigger] game@.cells[around@[j]]).cell_state
                        != CellState::Hidden,
                game@.in_state(CellState::Hidden).len() + pending@.len() < budget,
        {
            let q = around[i];
            let ghost now = game@;
            let ghost earlier = pending@;
            let cell = game.peek(q);
            if cell.cell_state == CellState::Hidden {
                proof {
                    let waiting = earlier.to_set().insert(current);
                    lemma_spread_opens(before, now, start, waiting, current, q);
                    lemma_same_kind(before, now, start, waiting, q);
                }
                game.set_state(q, CellState::Revealed);
                if cell.cell_type == CellType::NoMine(0) {
                    pending.push(q);
                    proof {
                        earlier.lemma_push_to_set_commute(q);
                        assert(pending@.to_set().insert(current) =~= earlier.to_set().insert(
                            current,
                        ).insert(q));
                    }
                }
            }
            proof {
                lemma_spread_keeps_size(before, game@, start, pending@.to_set().insert(current));
                assert forall|j: int| 0 <= j < i + 1 implies (
                #[trigger] game@.cells[around@[j]]).cell_state != CellState::Hidden by {
                    if j < i {
                        assert(now.cells[around@[j]].cell_state != CellState::Hidden);
                    }
                }
            }
        }
        proof {
            lemma_neighbors_settled(
                before,
                game@,
                start,
                pending@.to_set().insert(current),
                current,
                around@,
            );
            lemma_spread_settles(before, game@, start, pending@.to_set(), current);
        }
    }
    proof {
        assert(pending@.to_set() =~= Set::<Position>::empty());
        lemma_spread_ends(before, game@, start);
    }
}

} // verus!
