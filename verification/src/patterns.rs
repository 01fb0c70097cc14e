//! Well-known patterns and what a step makes of them.

use vstd::prelude::*;
use crate::cell::Cell;
use crate::grid::Grid;

verus! {

/// The cells of the two rows from `top` and the two columns from `left` are
/// alive, and no other cell is.
pub open spec fn is_block(grid: Grid, top: int, left: int) -> bool {
    forall|row: int, col: int|
        grid.size.contains(row, col) ==> #[trigger] grid.at(row, col) == (if top <= row <= top + 1
            && left <= col <= left + 1 {
            Cell::Alive
        } else {
            Cell::Dead
        })
}

/// The cell at `row` and `col` and the cells left and right of it are
/// alive, and no other cell is.
pub open spec fn is_horizontal_blinker(grid: Grid, row: int, col: int) -> bool {
    forall|r: int, c: int|
        grid.size.contains(r, c) ==> #[trigger] grid.at(r, c) == (if r == row && col - 1 <= c <= col
            + 1 {
            Cell::Alive
        } else {
            Cell::Dead
        })
}

/// The cell at `row` and `col` and the cells above and below it are alive,
/// and no other cell is.
pub open spec fn is_vertical_blinker(grid: Grid, row: int, col: int) -> bool {
    forall|r: int, c: int|
        grid.size.contains(r, c) ==> #[trigger] grid.at(r, c) == (if c == col && row - 1 <= r <= row
            + 1 {
            Cell::Alive
        } else {
            Cell::Dead
        })
}

/// A block of two by two live cells that touches no edge of a grid of at
/// least four by four cells is a still life: a step leaves the generation
/// as it is.
pub proof fn lemma_block_is_still(grid: Grid, top: int, left: int)
    requires
        grid.wf(),
        grid.size.width >= 4,
        grid.size.height >= 4,
        1 <= top,
        top + 1 <= grid.size.height - 2,
        1 <= left,
        left + 1 <= grid.size.width - 2,
        is_block(grid, top, left),
    ensures
        grid.step() == grid,
{
    let next = grid.step();
    grid.lemma_after_keeps_shape(1);
    assert forall|row: int, col: int| grid.size.contains(row, col) implies #[trigger] next.at(
        row,
        col,
    ) == grid.at(row, col) by {
        grid.lemma_step_at(row, col);
        grid.lemma_live_neighbors_unfold(row, col);
        grid.size.lemma_steps_wrap(row, col);
    }
    next.lemma_equal_by_address(grid);
}

/// A step turns a horizontal blinker into the vertical blinker with the
/// same centre, where the centre lies on no edge of a grid of at least four
/// by four cells.
pub proof fn lemma_blinker_turns_vertical(grid: Grid, row: int, col: int)
    requires
        grid.wf(),
        grid.size.width >= 4,
        grid.size.height >= 4,
        1 <= row <= grid.size.height - 2,
        1 <= col <= grid.size.width - 2,
        is_horizontal_blinker(grid, row, col),
    ensures
        grid.step().wf(),
        grid.step().size == grid.size,
        is_vertical_blinker(grid.step(), row, col),
{
    let next = grid.step();
    grid.lemma_after_keeps_shape(1);
    assert forall|r: int, c: int| grid.size.contains(r, c) implies #[trigger] next.at(r, c) == (if c
        == col && row - 1 <= r <= row + 1 {
        Cell::Alive
    } else {
        Cell::Dead
    }) by {
        grid.lemma_step_at(r, c);
        grid.lemma_live_neighbors_unfold(r, c);
        grid.size.lemma_steps_wrap(r, c);
    }
}

/// A step turns a vertical blinker into the horizontal blinker with the
/// same centre, where the centre lies on no edge of a grid of at least four
/// by four cells.
pub proof fn lemma_blinker_turns_horizontal(grid: Grid, row: int, col: int)
    requires
        grid.wf(),
        grid.size.width >= 4,
        grid.size.height >= 4,
        1 <= row <= grid.size.height - 2,
        1 <= col <= grid.size.width - 2,
        is_vertical_blinker(grid, row, col),
    ensures
        grid.step().wf(),
        grid.step().size == grid.size,
        is_horizontal_blinker(grid.step(), row, col),
{
    let next = grid.step();
    grid.lemma_after_keeps_shape(1);
    assert forall|r: int, c: int| grid.size.contains(r, c) implies #[trigger] next.at(r, c) == (if r
        == row && col - 1 <= c <= col + 1 {
        Cell::Alive
    } else {
        Cell::Dead
    }) by {
        grid.lemma_step_at(r, c);
        grid.lemma_live_neighbors_unfold(r, c);
        grid.size.lemma_steps_wrap(r, c);
    }
}

/// A blinker oscillates with period two: one step after it lay
/// horizontally it stands vertically, and after two steps the generation is
/// the one it started from.
pub proof fn lemma_blinker_oscillates(grid: Grid, row: int, col: int)
    requires
        grid.wf(),
        grid.size.width >= 4,
        grid.size.height >= 4,
        1 <= row <= grid.size.height - 2,
        1 <= col <= grid.size.width - 2,
        is_horizontal_blinker(grid, row, col),
    ensures
        is_vertical_blinker(grid.after(1), row, col),
        grid.after(2) == grid,
{
    let one = grid.step();
    let two = one.step();
    lemma_blinker_turns_vertical(grid, row, col);
    lemma_blinker_turns_horizontal(one, row, col);
    assert(grid.after(1) == one) by {
        reveal_with_fuel(Grid::after, 3);
    }
    assert(grid.after(2) == two) by {
        reveal_with_fuel(Grid::after, 3);
    }
    two.lemma_equal_by_address(grid);
}

/// How far `x` lies behind `origin` on a ring of `n` places: the number of
/// steps forward that lead from `origin` to `x`.
pub open spec fn ring_distance(origin: int, x: int, n: int) -> int {
    if x >= origin {
        x - origin
    } else {
        x - origin + n
    }
}

/// The live cells of a glider that heads down and to the right, in each of
/// the four phases of its cycle, by their distance down and to the right of
/// the corner from which the cycle started. After the fourth phase the
/// glider shows the first again, one cell further down and to the right.
pub open spec fn glider_cell(phase: int, down: int, right: int) -> bool {
    if phase == 0 {
        (down == 0 && right == 1) || (down == 1 && right == 2) || (down == 2 && right == 0) || (down == 2 && right == 1) || (down == 2 && right == 2)
    } else if phase == 1 {
        (down == 1 && right == 0) || (down == 1 && right == 2) || (down == 2 && right == 1) || (down == 2 && right == 2) || (down == 3 && right == 1)
    } else if phase == 2 {
        (down == 1 && right == 2) || (down == 2 && right == 0) || (down == 2 && right == 2) || (down == 3 && right == 1) || (down == 3 && right == 2)
    } else {
        (down == 1 && right == 1) || (down == 2 && right == 2) || (down == 2 && right == 3) || (down == 3 && right == 1) || (down == 3 && right == 2)
    }
}

/// The grid holds a glider in the given phase, its cycle started from the
/// corner at `top` and `left`, and no other live cell. Distances are taken
/// around the torus, so the glider may lie across an edge.
pub open spec fn is_glider_in_phase(grid: Grid, phase: int, top: int, left: int) -> bool {
    forall|row: int, col: int|
        grid.size.contains(row, col) ==> #[trigger] grid.at(row, col) == (if glider_cell(
            phase,
            ring_distance(top, row, grid.size.height as int),
            ring_distance(left, col, grid.size.width as int),
        ) {
            Cell::Alive
        } else {
            Cell::Dead
        })
}

/// The grid holds the glider in its first phase, the corner of its three by
/// three box at `top` and `left`, and no other live cell.
pub open spec fn is_glider(grid: Grid, top: int, left: int) -> bool {
    is_glider_in_phase(grid, 0, top, left)
}

/// A step takes a glider from one phase of its cycle to the next, on a
/// grid of at least five by five cells.
#[verifier::rlimit(40)]
pub proof fn lemma_glider_next_phase(grid: Grid, phase: int, top: int, left: int)
    requires
        grid.wf(),
        grid.size.width >= 5,
        grid.size.height >= 5,
        grid.size.contains(top, left),
        0 <= phase < 3,
        is_glider_in_phase(grid, phase, top, left),
    ensures
        grid.step().wf(),
        grid.step().size == grid.size,
        is_glider_in_phase(grid.step(), phase + 1, top, left),
{
    let next = grid.step();
    let h = grid.size.height as int;
    let w = grid.size.width as int;
    grid.lemma_after_keeps_shape(1);
    assert forall|row: int, col: int| grid.size.contains(row, col) implies #[trigger] next.at(
        row,
        col,
    ) == (if glider_cell(phase + 1, ring_distance(top, row, h), ring_distance(left, col, w)) {
        Cell::Alive
    } else {
        Cell::Dead
    }) by {
        grid.lemma_step_at(row, col);
        grid.lemma_live_neighbors_unfold(row, col);
        grid.size.lemma_steps_wrap(row, col);
    }
}

/// The step after the last phase of the cycle shows the glider in its first
/// phase again, moved one cell down and one cell to the right around the
/// torus.
#[verifier::rlimit(40)]
pub proof fn lemma_glider_cycle_closes(grid: Grid, top: int, left: int)
    requires
        grid.wf(),
        grid.size.width >= 5,
        grid.size.height >= 5,
        grid.size.contains(top, left),
        is_glider_in_phase(grid, 3, top, left),
    ensures
        grid.step().wf(),
        grid.step().size == grid.size,
        is_glider(grid.step(), grid.size.south(top), grid.size.east(left)),
{
    let next = grid.step();
    let h = grid.size.height as int;
    let w = grid.size.width as int;
    grid.lemma_after_keeps_shape(1);
    grid.size.lemma_steps_wrap(top, left);
    assert forall|row: int, col: int| grid.size.contains(row, col) implies #[trigger] next.at(
        row,
        col,
    ) == (if glider_cell(
        0,
        ring_distance(grid.size.south(top), row, h),
        ring_distance(grid.size.east(left), col, w),
    ) {
        Cell::Alive
    } else {
        Cell::Dead
    }) by {
        grid.lemma_step_at(row, col);
        grid.lemma_live_neighbors_unfold(row, col);
        grid.size.lemma_steps_wrap(row, col);
    }
}

/// A glider travels: four steps after a grid of at least five by five
/// cells held a glider and nothing else, it holds the same shape one cell
/// further down and one cell further right, around the torus where the
/// glider meets an edge.
pub proof fn lemma_glider_travels(grid: Grid, top: int, left: int)
    requires
        grid.wf(),
        grid.size.width >= 5,
        grid.size.height >= 5,
        grid.size.contains(top, left),
        is_glider(grid, top, left),
    ensures
        grid.after(4).wf(),
        grid.after(4).size == grid.size,
        is_glider(grid.after(4), grid.size.south(top), grid.size.east(left)),
{
    let one = grid.step();
    let two = one.step();
    let three = two.step();
    let four = three.step();
    lemma_glider_next_phase(grid, 0, top, left);
    lemma_glider_next_phase(one, 1, top, left);
    lemma_glider_next_phase(two, 2, top, left);
    lemma_glider_cycle_closes(three, top, left);
    assert(grid.after(4) == four) by {
        reveal_with_fuel(Grid::after, 5);
    }
}

} // verus!
