//! The universe: two generation buffers of equal length, one of them the
//! current generation, and the operations that read and change it.

use vstd::prelude::*;
use crate::cell::Cell;
use crate::geometry::Size;
use crate::grid::Grid;
use crate::universe_builder::EmptyUniverse;

verus! {

/// A grid of cells that lives through generations.
///
/// The buffer that the selector names holds the current generation; the
/// other one is scratch space into which the next generation is written.
pub struct Universe {
    size: Size,
    active: usize,
    first: Vec<Cell>,
    second: Vec<Cell>,
}

/// `String::push` appends one character at the end of the string and
/// leaves what was there before in place.
#[verifier::external_body]
fn push_char(text: &mut String, c: char)
    ensures
        final(text)@ == old(text)@.push(c),
{
    text.push(c);
}

/// Writes the generation that follows `current` into `next`, judging every
/// cell by `current` alone.
fn advance(size: &Size, current: &[Cell], next: &mut Vec<Cell>)
    requires
        size.wf(),
        current@.len() == size.area(),
        old(next)@.len() == size.area(),
    ensures
        final(next)@ == (Grid { size: *size, cells: current@ }).step().cells,
{
    let ghost now = Grid { size: *size, cells: current@ };
    let count: usize = current.len();
    let mut index: usize = 0;
    while index < count
        invariant
            size.wf(),
            count == size.area(),
            current@.len() == count,
            next@.len() == count,
            index <= count,
            now == (Grid { size: *size, cells: current@ }),
            forall|i: int| 0 <= i < index ==> next@[i] == now.next_at(i),
        decreases count - index,
    {
        let (row, column) = size.get_address(index);
        let live_neighbors = Universe::live_neighbor_count(size, current, row, column);
        let next_cell = current[index].next(live_neighbors);
        next.set(index, next_cell);
        index += 1;
    }
    assert(next@ =~= now.step().cells);
}

impl View for Universe {
    type V = Grid;

    /// The current generation.
    closed spec fn view(&self) -> Grid {
        Grid {
            size: self.size,
            cells: if self.active == 0 {
                self.first@
            } else {
                self.second@
            },
        }
    }
}

/// The future of a universe is decided by its current generation alone:
/// two universes that hold the same generation hold the same generation
/// again after any number of steps, whatever their scratch buffers hold and
/// whichever of the buffers is the current one.
pub proof fn lemma_same_generation_same_future(a: Universe, b: Universe, n: nat)
    requires
        a.wf(),
        b.wf(),
        a@ == b@,
    ensures
        a@.after(n) == b@.after(n),
        a@.after(n).wf(),
        a@.after(n).size == a@.size,
{
    a@.lemma_after_keeps_shape(n);
}

impl Universe {
    /// Which of the two buffers holds the current generation: 0 or 1.
    pub closed spec fn selector(&self) -> int {
        self.active as int
    }

    /// What the scratch buffer holds.
    pub closed spec fn idle_cells(&self) -> Seq<Cell> {
        if self.active == 0 {
            self.second@
        } else {
            self.first@
        }
    }

    /// The invariant of a universe: positive dimensions, a selector that is
    /// 0 or 1, and two buffers with one cell for each address.
    pub open spec fn wf(&self) -> bool {
        &&& self@.wf()
        &&& (self.selector() == 0 || self.selector() == 1)
        &&& self.idle_cells().len() == self@.size.area()
    }

    /// Makes the universe that starts with the given generation, with an
    /// all-dead scratch buffer and the selector at 0.
    pub fn from_cells(size: Size, cells: Vec<Cell>) -> (universe: Universe)
        requires
            size.wf(),
            cells@.len() == size.area(),
        ensures
            universe.wf(),
            universe@ == (Grid { size, cells: cells@ }),
            universe.selector() == 0,
            universe.idle_cells() == Seq::new(size.area(), |i: int| Cell::Dead),
    {
        let count: usize = cells.len();
        let mut idle: Vec<Cell> = Vec::new();
        let mut index: usize = 0;
        while index < count
            invariant
                index <= count,
                idle@.len() == index,
                forall|i: int| 0 <= i < index ==> idle@[i] == Cell::Dead,
            decreases count - index,
        {
            idle.push(Cell::Dead);
            index += 1;
        }
        assert(idle@ =~= Seq::new(size.area(), |i: int| Cell::Dead));
        Universe { size, active: 0, first: cells, second: idle }
    }

    /// The number of live cells among the eight toroidal neighbours of the
    /// cell at `row` and `column`.
    pub fn live_neighbor_count(size: &Size, active_cells: &[Cell], row: usize, column: usize) -> (count: u8)
        requires
            size.wf(),
            active_cells@.len() == size.area(),
            size.contains(row as int, column as int),
        ensures
            count == (Grid { size: *size, cells: active_cells@ }).live_neighbors(
                row as int,
                column as int,
            ),
            count <= 8,
    {
        let ghost grid = Grid { size: *size, cells: active_cells@ };
        let ghost around = size.neighbors(row as int, column as int);
        let neighbors = size.neighbor_coordinates(row, column);
        let mut count: u8 = 0;
        let mut k: usize = 0;
        while k < 8
            invariant
                size.wf(),
                active_cells@.len() == size.area(),
                grid == (Grid { size: *size, cells: active_cells@ }),
                around == size.neighbors(row as int, column as int),
                k <= 8,
                count <= k,
                count == grid.alive_among(around.take(k as int)),
                forall|j: int|
                    0 <= j < 8 ==> (#[trigger] neighbors@[j]).0 as int == around[j].0
                        && neighbors@[j].1 as int == around[j].1,
                forall|j: int|
                    0 <= j < 8 ==> size.contains(
                        (#[trigger] neighbors@[j]).0 as int,
                        neighbors@[j].1 as int,
                    ),
            decreases 8 - k,
        {
            let (r, c) = neighbors[k];
            let index = size.get_index(r, c);
            proof {
                let upto = around.take(k as int + 1);
                assert(upto.drop_last() =~= around.take(k as int));
                assert(upto.last() == around[k as int]);
                assert(neighbors@[k as int].0 as int == around[k as int].0);
            }
            count += active_cells[index].value();
            k += 1;
        }
        assert(around.take(8) =~= around);
        count
    }

    /// The first stage of the construction of a universe.
    pub fn build() -> (stage: EmptyUniverse) {
        EmptyUniverse {  }
    }

    /// Advances the universe by one generation.
    ///
    /// The next generation is written into the scratch buffer, every cell
    /// judged by the current generation; then the two buffers change roles,
    /// so the generation that was current is what the scratch buffer holds.
    pub fn tick(&mut self)
        requires
            old(self).wf(),
        ensures
            final(self).wf(),
            final(self)@ == old(self)@.step(),
            final(self).selector() == 1 - old(self).selector(),
            final(self).idle_cells() == old(self)@.cells,
    {
        if self.active == 0 {
            advance(&self.size, self.first.as_slice(), &mut self.second);
            self.active = 1;
        } else {
            advance(&self.size, self.second.as_slice(), &mut self.first);
            self.active = 0;
        }
    }

    /// The number of columns.
    pub fn width(&self) -> (width: usize)
        ensures
            width == self@.size.width,
    {
        self.size.width
    }

    /// The number of rows.
    pub fn height(&self) -> (height: usize)
        ensures
            height == self@.size.height,
    {
        self.size.height
    }

    /// The dimensions.
    pub fn size(&self) -> (size: Size)
        ensures
            size == self@.size,
    {
        self.size
    }

    /// The current generation in row-major order, read in place.
    pub fn get_cells(&self) -> (cells: &[Cell])
        ensures
            cells@ == self@.cells,
    {
        if self.active == 0 {
            self.first.as_slice()
        } else {
            self.second.as_slice()
        }
    }

    /// Flips the cell at `row` and `col` of the current generation.
    pub fn toggle_cell(&mut self, row: u32, col: u32)
        requires
            old(self).wf(),
            old(self)@.size.contains(row as int, col as int),
        ensures
            final(self).wf(),
            final(self)@ == old(self)@.toggled(row as int, col as int),
            final(self).selector() == old(self).selector(),
            final(self).idle_cells() == old(self).idle_cells(),
    {
        let index = self.size.get_index(row as usize, col as usize);
        if self.active == 0 {
            let mut cell = self.first[index];
            cell.toggle();
            self.first.set(index, cell);
        } else {
            let mut cell = self.second[index];
            cell.toggle();
            self.second.set(index, cell);
        }
    }

    /// Marks each listed cell of the current generation alive and leaves
    /// every other cell as it was.
    pub fn set_cells(&mut self, cells: &[(usize, usize)])
        requires
            old(self).wf(),
            forall|k: int|
                0 <= k < cells@.len() ==> old(self)@.size.contains(
                    (#[trigger] cells@[k]).0 as int,
                    cells@[k].1 as int,
                ),
        ensures
            final(self).wf(),
            final(self)@ == old(self)@.with_alive(cells@),
            final(self).selector() == old(self).selector(),
            final(self).idle_cells() == old(self).idle_cells(),
    {
        let ghost before = self@;
        let mut k: usize = 0;
        assert(before.with_alive(cells@.take(0)).cells =~= before.cells);
        while k < cells.len()
            invariant
                k <= cells@.len(),
                self.wf(),
                before.wf(),
                self@.size == before.size,
                self.selector() == old(self).selector(),
                self.idle_cells() == old(self).idle_cells(),
                forall|j: int|
                    0 <= j < cells@.len() ==> before.size.contains(
                        (#[trigger] cells@[j]).0 as int,
                        cells@[j].1 as int,
                    ),
                self@ == before.with_alive(cells@.take(k as int)),
            decreases cells@.len() - k,
        {
            let (row, col) = cells[k];
            let index = self.size.get_index(row, col);
            if self.active == 0 {
                self.first.set(index, Cell::Alive);
            } else {
                self.second.set(index, Cell::Alive);
            }
            proof {
                let upto = cells@.take(k as int + 1);
                let goal = before.with_alive(upto);
                assert forall|i: int| 0 <= i < before.cells.len() implies self@.cells[i]
                    == goal.cells[i] by {
                    if i == index {
                        assert(upto[k as int] == cells@[k as int]);
                        assert(before.lists(upto, i));
                    } else if before.lists(cells@.take(k as int), i) {
                        let j = choose|j: int|
                            0 <= j < k && before.size.index_of(
                                (#[trigger] cells@.take(k as int)[j]).0 as int,
                                cells@.take(k as int)[j].1 as int,
                            ) == i;
                        assert(upto[j] == cells@.take(k as int)[j]);
                        assert(before.lists(upto, i));
                    } else {
                        if before.lists(upto, i) {
                            let j = choose|j: int|
                                0 <= j < k + 1 && before.size.index_of(
                                    (#[trigger] upto[j]).0 as int,
                                    upto[j].1 as int,
                                ) == i;
                            if j < k {
                                assert(cells@.take(k as int)[j] == upto[j]);
                            }
                        }
                    }
                }
                assert(self@.cells =~= goal.cells);
            }
            k += 1;
        }
        assert(cells@.take(cells@.len() as int) =~= cells@);
    }

    /// The current generation as text: one glyph for each cell and a line
    /// feed after each row.
    pub fn render(&self) -> (text: String)
        requires
            self.wf(),
        ensures
            text@ == self@.text(),
    {
        let cells = self.get_cells();
        let mut text = String::new();
        let mut row: usize = 0;
        while row < self.size.height
            invariant
                self.wf(),
                cells@ == self@.cells,
                row <= self.size.height,
                text@ == self@.text_of_rows(row as nat),
            decreases self.size.height - row,
        {
            let ghost before = text@;
            let mut col: usize = 0;
            while col < self.size.width
                invariant
                    self.wf(),
                    cells@ == self@.cells,
                    row < self.size.height,
                    col <= self.size.width,
                    text@ == before + Seq::new(col as nat, |c: int| self@.at(row as int, c).glyph()),
                decreases self.size.width - col,
            {
                let index = self.size.get_index(row, col);
                push_char(&mut text, cells[index].symbol());
                assert(text@ =~= before + Seq::new(
                    (col + 1) as nat,
                    |c: int| self@.at(row as int, c).glyph(),
                ));
                col += 1;
            }
            push_char(&mut text, '\n');
            assert(text@ =~= before + self@.row_text(row as int));
            row += 1;
        }
        text
    }
}

} // verus!
