//! Positions on a rectangular grid and the neighbour relation between them.

use vstd::prelude::*;

verus! {

/// A grid coordinate: column `x`, then row `y`.
pub type Position = (usize, usize);

/// `p` lies in the rectangle of `width` columns and `height` rows.
pub open spec fn in_grid(p: Position, width: nat, height: nat) -> bool {
    p.0 < width && p.1 < height
}

/// `p` and `q` are distinct and differ by at most one in each coordinate.
pub open spec fn adjacent(p: Position, q: Position) -> bool {
    let dx: int = q.0 - p.0;
    let dy: int = q.1 - p.1;
    -1 <= dx <= 1 && -1 <= dy <= 1 && !(dx == 0 && dy == 0)
}

/// All positions of the rectangle.
pub open spec fn grid_positions(width: nat, height: nat) -> Set<Position> {
    Set::new(|p: Position| in_grid(p, width, height))
}

/// The positions of the rectangle that are adjacent to `p`.
pub open spec fn neighbor_set(p: Position, width: nat, height: nat) -> Set<Position> {
    Set::new(|q: Position| in_grid(q, width, height) && adjacent(p, q))
}

/// The position `(x, y)` as a one-element list if it lies in the rectangle,
/// else the empty list.
pub open spec fn grid_cell(x: int, y: int, width: nat, height: nat) -> Seq<Position> {
    if 0 <= x < width && 0 <= y < height {
        seq![(x as usize, y as usize)]
    } else {
        seq![]
    }
}

/// The neighbours of `p` in the order in which the board visits them:
/// column by column from `x - 1` to `x + 1`, and in each column from `y - 1`
/// to `y + 1`.
pub open spec fn neighbor_list(p: Position, width: nat, height: nat) -> Seq<Position> {
    let x: int = p.0 as int;
    let y: int = p.1 as int;
    grid_cell(x - 1, y - 1, width, height) + grid_cell(x - 1, y, width, height) + grid_cell(
        x - 1,
        y + 1,
        width,
        height,
    ) + grid_cell(x, y - 1, width, height) + grid_cell(x, y + 1, width, height) + grid_cell(
        x + 1,
        y - 1,
        width,
        height,
    ) + grid_cell(x + 1, y, width, height) + grid_cell(x + 1, y + 1, width, height)
}

/// What one more candidate adds to a list of positions.
proof fn lemma_append_grid_cell(list: Seq<Position>, x: int, y: int, width: nat, height: nat)
    requires
        width <= usize::MAX,
        height <= usize::MAX,
    ensures
        (list + grid_cell(x, y, width, height)).len() <= list.len() + 1,
        forall|q: Position|
            #[trigger] (list + grid_cell(x, y, width, height)).contains(q) <==> list.contains(q)
                || (0 <= x < width && 0 <= y < height && q.0 == x && q.1 == y),
        list.no_duplicates() && (forall|q: Position|
            list.contains(q) ==> !(q.0 == x && q.1 == y)) ==> (list + grid_cell(
            x,
            y,
            width,
            height,
        )).no_duplicates(),
{
    let cell = grid_cell(x, y, width, height);
    let joined = list + cell;
    assert forall|q: Position| #[trigger] joined.contains(q) <==> list.contains(q) || (0 <= x
        < width && 0 <= y < height && q.0 == x && q.1 == y) by {
        if list.contains(q) {
            let i = choose|i: int| 0 <= i < list.len() && list[i] == q;
            assert(joined[i] == q);
        }
        if 0 <= x < width && 0 <= y < height && q.0 == x && q.1 == y {
            assert(cell[0] == q);
            assert(joined[list.len() as int] == q);
        }
        if joined.contains(q) {
            let i = choose|i: int| 0 <= i < joined.len() && joined[i] == q;
            if i < list.len() {
                assert(list[i] == q);
            } else {
                assert(cell[i - list.len()] == q);
            }
        }
    }
    if list.no_duplicates() && (forall|q: Position|
        list.contains(q) ==> !(q.0 == x && q.1 == y)) {
        assert forall|i: int, j: int|
            0 <= i < joined.len() && 0 <= j < joined.len() && i != j implies joined[i]
            != joined[j] by {
            if i < list.len() {
                assert(list.contains(list[i]));
            }
            if j < list.len() {
                assert(list.contains(list[j]));
            }
        }
    }
}

/// The neighbour list holds exactly the neighbour set, each position once,
/// and never more than eight positions.
pub proof fn lemma_neighbor_list(p: Position, width: nat, height: nat)
    requires
        width <= usize::MAX,
        height <= usize::MAX,
    ensures
        neighbor_list(p, width, height).no_duplicates(),
        neighbor_list(p, width, height).len() <= 8,
        forall|q: Position|
            #[trigger] neighbor_list(p, width, height).contains(q) <==> in_grid(q, width, height)
                && adjacent(p, q),
        neighbor_list(p, width, height).to_set() =~= neighbor_set(p, width, height),
{
    let x: int = p.0 as int;
    let y: int = p.1 as int;
    let l0 = Seq::<Position>::empty();
    let l1 = l0 + grid_cell(x - 1, y - 1, width, height);
    let l2 = l1 + grid_cell(x - 1, y, width, height);
    let l3 = l2 + grid_cell(x - 1, y + 1, width, height);
    let l4 = l3 + grid_cell(x, y - 1, width, height);
    let l5 = l4 + grid_cell(x, y + 1, width, height);
    let l6 = l5 + grid_cell(x + 1, y - 1, width, height);
    let l7 = l6 + grid_cell(x + 1, y, width, height);
    let l8 = l7 + grid_cell(x + 1, y + 1, width, height);
    assert(l1 =~= grid_cell(x - 1, y - 1, width, height));
    assert(l8 == neighbor_list(p, width, height));
    lemma_append_grid_cell(l0, x - 1, y - 1, width, height);
    lemma_append_grid_cell(l1, x - 1, y, width, height);
    lemma_append_grid_cell(l2, x - 1, y + 1, width, height);
    lemma_append_grid_cell(l3, x, y - 1, width, height);
    lemma_append_grid_cell(l4, x, y + 1, width, height);
    lemma_append_grid_cell(l5, x + 1, y - 1, width, height);
    lemma_append_grid_cell(l6, x + 1, y, width, height);
    lemma_append_grid_cell(l7, x + 1, y + 1, width, height);
    assert forall|q: Position| #[trigger] l8.contains(q) <==> in_grid(q, width, height)
        && adjacent(p, q) by {
        assert(l1.contains(q) || !l1.contains(q));
        assert(l2.contains(q) || !l2.contains(q));
        assert(l3.contains(q) || !l3.contains(q));
        assert(l4.contains(q) || !l4.contains(q));
        assert(l5.contains(q) || !l5.contains(q));
        assert(l6.contains(q) || !l6.contains(q));
        assert(l7.contains(q) || !l7.contains(q));
    }
}

/// The positions of column `x` above row `height`.
spec fn column_positions(x: usize, height: nat) -> Set<Position> {
    Set::new(|p: Position| p.0 == x && p.1 < height)
}

proof fn lemma_column_positions(x: usize, height: nat)
    requires
        height <= usize::MAX,
    ensures
        column_positions(x, height).finite(),
        column_positions(x, height).len() == height,
    decreases height,
{
    if height == 0 {
        assert(column_positions(x, height) =~= Set::<Position>::empty());
    } else {
        let below = (height - 1) as nat;
        lemma_column_positions(x, below);
        let top: Position = (x, below as usize);
        assert(column_positions(x, height) =~= column_positions(x, below).insert(top));
    }
}

/// A rectangle of `width` columns and `height` rows holds `width * height`
/// positions.
pub proof fn lemma_grid_positions(width: nat, height: nat)
    requires
        width <= usize::MAX,
        height <= usize::MAX,
    ensures
        grid_positions(width, height).finite(),
        grid_positions(width, height).len() == width * height,
    decreases width,
{
    if width == 0 {
        assert(grid_positions(width, height) =~= Set::<Position>::empty());
        assert(width * height == 0) by (nonlinear_arith)
            requires
                width == 0,
        ;
    } else {
        let left = (width - 1) as nat;
        let rest = grid_positions(left, height);
        let last = column_positions(left as usize, height);
        lemma_grid_positions(left, height);
        lemma_column_positions(left as usize, height);
        assert(grid_positions(width, height) =~= rest + last);
        assert(rest.disjoint(last));
        vstd::set_lib::lemma_set_disjoint_lens(rest, last);
        assert(width * height == left * height + height) by (nonlinear_arith)
            requires
                width == left + 1,
        ;
    }
}

/// The coordinate that a checked step gave, or `-1` where the step left
/// the range of `usize`: either way a coordinate outside every rectangle.
pub open spec fn coordinate(step: Option<usize>) -> int {
    match step {
        Some(c) => c as int,
        None => -1,
    }
}

/// Appends the position `(x, y)` to `list` if both coordinates exist and the
/// position lies in the rectangle.
fn push_grid_cell(
    list: &mut Vec<Position>,
    x: Option<usize>,
    y: Option<usize>,
    width: usize,
    height: usize,
)
    ensures
        final(list)@ == old(list)@ + grid_cell(
            coordinate(x),
            coordinate(y),
            width as nat,
            height as nat,
        ),
{
    if let Some(cx) = x {
        if let Some(cy) = y {
            if cx < width && cy < height {
                list.push((cx, cy));
                assert(list@ =~= old(list)@ + seq![(cx, cy)]);
                return ;
            }
        }
    }
    assert(list@ =~= old(list)@ + Seq::<Position>::empty());
}

/// The positions of the rectangle that are adjacent to `position`, which
/// itself may lie anywhere.
pub fn neighbors_in(position: Position, width: usize, height: usize) -> (list: Vec<Position>)
    ensures
        list@ == neighbor_list(position, width as nat, height as nat),
{
    let here_x = Some(position.0);
    let here_y = Some(position.1);
    let left = position.0.checked_sub(1);
    let right = position.0.checked_add(1);
    let above = position.1.checked_sub(1);
    let below = position.1.checked_add(1);
    let mut list: Vec<Position> = Vec::new();
    assert(list@ =~= Seq::<Position>::empty());
    push_grid_cell(&mut list, left, above, width, height);
    push_grid_cell(&mut list, left, here_y, width, height);
    push_grid_cell(&mut list, left, below, width, height);
    push_grid_cell(&mut list, here_x, above, width, height);
    push_grid_cell(&mut list, here_x, below, width, height);
    push_grid_cell(&mut list, right, above, width, height);
    push_grid_cell(&mut list, right, here_y, width, height);
    push_grid_cell(&mut list, right, below, width, height);
    proof {
        let w = width as nat;
        let h = height as nat;
        assert(coordinate(left) == position.0 - 1);
        assert(coordinate(above) == position.1 - 1);
        assert(grid_cell(coordinate(right), coordinate(above), w, h) == grid_cell(
            position.0 + 1,
            position.1 - 1,
            w,
            h,
        ));
        assert(grid_cell(coordinate(right), coordinate(here_y), w, h) == grid_cell(
            position.0 + 1,
            position.1 as int,
            w,
            h,
        ));
        assert(grid_cell(coordinate(right), coordinate(below), w, h) == grid_cell(
            position.0 + 1,
            position.1 + 1,
            w,
            h,
        ));
        assert(grid_cell(coordinate(left), coordinate(below), w, h) == grid_cell(
            position.0 - 1,
            position.1 + 1,
            w,
            h,
        ));
        assert(grid_cell(coordinate(here_x), coordinate(below), w, h) == grid_cell(
            position.0 as int,
            position.1 + 1,
            w,
            h,
        ));
    }
    list
}

} // verus!
