//! Where the mines go: positions are drawn from a fresh generator, two words
//! for each draw, and a position that was drawn before is skipped.

use crate::grid::{in_grid, Position};
use crate::random::{nth_output, GeneratorState, XORShift};
use vstd::prelude::*;

verus! {

/// The largest number of draws that a placement may use.
pub const DRAW_LIMIT: u64 = 0xffff_ffff_ffff_ffff;

/// The position of draw number `i`, counted from zero: the column comes from
/// one word of the generator and the row from the next.
pub open spec fn nth_draw(width: nat, height: nat, i: nat) -> Position {
    (
        (nth_output(2 * i) as int % width as int) as usize,
        (nth_output(2 * i + 1) as int % height as int) as usize,
    )
}

/// The mines found by the first `draws` draws, in the order in which they
/// were found. A draw counts only while mines are missing, and only if its
/// position is new.
pub open spec fn placed(width: nat, height: nat, mine_count: nat, draws: nat) -> Seq<Position>
    decreases draws,
{
    if draws == 0 {
        Seq::empty()
    } else {
        let before = placed(width, height, mine_count, (draws - 1) as nat);
        let p = nth_draw(width, height, (draws - 1) as nat);
        if before.len() >= mine_count || before.contains(p) {
            before
        } else {
            before.push(p)
        }
    }
}

/// The mines of a board with these parameters.
pub open spec fn mine_layout(width: nat, height: nat, mine_count: nat) -> Seq<Position> {
    placed(width, height, mine_count, DRAW_LIMIT as nat)
}

/// All mines are found within the draw limit.
pub open spec fn placement_completes(width: nat, height: nat, mine_count: nat) -> bool {
    mine_layout(width, height, mine_count).len() == mine_count
}

/// A placement never holds more mines than asked for or than draws were
/// made, holds no position twice, and stays inside the rectangle.
pub proof fn lemma_placed(width: nat, height: nat, mine_count: nat, draws: nat)
    requires
        0 < width <= usize::MAX,
        0 < height <= usize::MAX,
    ensures
        placed(width, height, mine_count, draws).len() <= mine_count,
        placed(width, height, mine_count, draws).len() <= draws,
        placed(width, height, mine_count, draws).no_duplicates(),
        forall|i: int|
            0 <= i < placed(width, height, mine_count, draws).len() ==> in_grid(
                #[trigger] placed(width, height, mine_count, draws)[i],
                width,
                height,
            ),
    decreases draws,
{
    if draws > 0 {
        lemma_placed(width, height, mine_count, (draws - 1) as nat);
        let p = nth_draw(width, height, (draws - 1) as nat);
        assert(in_grid(p, width, height));
    }
}

/// Once all mines are found, further draws change nothing.
pub proof fn lemma_placed_stable(width: nat, height: nat, mine_count: nat, early: nat, late: nat)
    requires
        early <= late,
        placed(width, height, mine_count, early).len() >= mine_count,
    ensures
        placed(width, height, mine_count, late) == placed(width, height, mine_count, early),
    decreases late,
{
    if early < late {
        lemma_placed_stable(width, height, mine_count, early, (late - 1) as nat);
    }
}

/// Whether `list` holds `p`.
pub(crate) fn contains_position(list: &Vec<Position>, p: Position) -> (found: bool)
    ensures
        found == list@.contains(p),
{
    let mut i: usize = 0;
    while i < list.len()
        invariant
            i <= list.len(),
            forall|j: int| 0 <= j < i ==> list@[j] != p,
        decreases list.len() - i,
    {
        if list[i].0 == p.0 && list[i].1 == p.1 {
            return true;
        }
        i += 1;
    }
    false
}

/// Draws positions from a fresh generator until `mine_count` distinct ones
/// are found or `max_draws` draws are used up.
pub(crate) fn place_mines(width: usize, height: usize, mine_count: usize, max_draws: u64) -> (mines:
    Vec<Position>)
    requires
        width > 0,
        height > 0,
    ensures
        mines@ == placed(width as nat, height as nat, mine_count as nat, max_draws as nat),
{
    let mut rng = XORShift::new();
    let mut mines: Vec<Position> = Vec::new();
    let mut draws: u64 = 0;
    while mines.len() < mine_count && draws < max_draws
        invariant
            width > 0,
            height > 0,
            draws <= max_draws,
            rng@ == GeneratorState::seed().advance(2 * draws as nat),
            mines@ == placed(width as nat, height as nat, mine_count as nat, draws as nat),
        decreases max_draws - draws,
    {
        proof {
            reveal_with_fuel(GeneratorState::advance, 3);
        }
        let x: usize = rng.next() as usize % width;
        let y: usize = rng.next() as usize % height;
        let mine: Position = (x, y);
        assert(mine == nth_draw(width as nat, height as nat, draws as nat));
        if !contains_position(&mines, mine) {
            mines.push(mine);
        }
        draws += 1;
    }
    proof {
        if draws < max_draws {
            lemma_placed_stable(
                width as nat,
                height as nat,
                mine_count as nat,
                draws as nat,
                max_draws as nat,
            );
        }
    }
    mines
}

} // verus!
