//! The mathematical model of a universe: its geometry and the cells of the
//! current generation, with the transition from one generation to the next.

use vstd::prelude::*;
use crate::cell::{rule, Cell};
use crate::geometry::Size;

verus! {

/// A generation: the cells of a grid in row-major order.
pub struct Grid {
    pub size: Size,
    pub cells: Seq<Cell>,
}

impl Grid {
    /// The geometry is valid and there is one cell for each address.
    pub open spec fn wf(self) -> bool {
        self.size.wf() && self.cells.len() == self.size.area()
    }

    /// The cell at `row` and `col`.
    pub open spec fn at(self, row: int, col: int) -> Cell {
        self.cells[self.size.index_of(row, col)]
    }

    /// How many of the listed cells are alive; a cell listed twice counts
    /// twice.
    pub open spec fn alive_among(self, coords: Seq<(int, int)>) -> nat
        decreases coords.len(),
    {
        if coords.len() == 0 {
            0
        } else {
            self.alive_among(coords.drop_last()) + self.at(
                coords.last().0,
                coords.last().1,
            ).population()
        }
    }

    /// How many of the eight toroidal neighbours of a cell are alive.
    pub open spec fn live_neighbors(self, row: int, col: int) -> nat {
        self.alive_among(self.size.neighbors(row, col))
    }

    /// The state, in the next generation, of the cell at a row-major index.
    pub open spec fn next_at(self, index: int) -> Cell {
        rule(
            self.cells[index],
            self.live_neighbors(index / (self.size.width as int), index % (self.size.width as int)),
        )
    }

    /// The next generation: every cell follows the rule, all of them judged
    /// by the same current generation.
    pub open spec fn step(self) -> Grid {
        Grid { size: self.size, cells: Seq::new(self.cells.len(), |index: int| self.next_at(index)) }
    }

    /// The generation reached after `n` steps.
    pub open spec fn after(self, n: nat) -> Grid
        decreases n,
    {
        if n == 0 {
            self
        } else {
            self.step().after((n - 1) as nat)
        }
    }

    /// The same generation with the cell at `row` and `col` flipped.
    pub open spec fn toggled(self, row: int, col: int) -> Grid {
        Grid {
            size: self.size,
            cells: self.cells.update(self.size.index_of(row, col), self.at(row, col).flipped()),
        }
    }

    /// One of the listed addresses is that of the cell at `index`.
    pub open spec fn lists(self, coords: Seq<(usize, usize)>, index: int) -> bool {
        exists|k: int|
            0 <= k < coords.len() && self.size.index_of(
                (#[trigger] coords[k]).0 as int,
                coords[k].1 as int,
            ) == index
    }

    /// The same generation with every listed cell alive and every other cell
    /// as it was.
    pub open spec fn with_alive(self, coords: Seq<(usize, usize)>) -> Grid {
        Grid {
            size: self.size,
            cells: Seq::new(
                self.cells.len(),
                |index: int|
                    if self.lists(coords, index) {
                        Cell::Alive
                    } else {
                        self.cells[index]
                    },
            ),
        }
    }

    /// One row as text: a glyph for each cell, then a line feed.
    pub open spec fn row_text(self, row: int) -> Seq<char> {
        Seq::new(self.size.width as nat, |col: int| self.at(row, col).glyph()).push('\n')
    }

    /// The text of the first `rows` rows.
    pub open spec fn text_of_rows(self, rows: nat) -> Seq<char>
        decreases rows,
    {
        if rows == 0 {
            Seq::empty()
        } else {
            self.text_of_rows((rows - 1) as nat) + self.row_text(rows - 1)
        }
    }

    /// The whole generation as text, row after row.
    pub open spec fn text(self) -> Seq<char> {
        self.text_of_rows(self.size.height as nat)
    }

    /// Every cell is dead.
    pub open spec fn all_dead(self) -> bool {
        forall|index: int| 0 <= index < self.cells.len() ==> self.cells[index] == Cell::Dead
    }

    /// The live neighbours of a cell are counted one by one over its eight
    /// neighbours, so there are at most eight.
    pub proof fn lemma_live_neighbors_unfold(self, row: int, col: int)
        ensures
            self.live_neighbors(row, col) == self.at(
                self.size.north(row),
                self.size.west(col),
            ).population() + self.at(self.size.north(row), col).population() + self.at(
                self.size.north(row),
                self.size.east(col),
            ).population() + self.at(row, self.size.west(col)).population() + self.at(
                row,
                self.size.east(col),
            ).population() + self.at(self.size.south(row), self.size.west(col)).population()
                + self.at(self.size.south(row), col).population() + self.at(
                self.size.south(row),
                self.size.east(col),
            ).population(),
            self.live_neighbors(row, col) <= 8,
    {
        let around = self.size.neighbors(row, col);
        let a7 = around.drop_last();
        let a6 = a7.drop_last();
        let a5 = a6.drop_last();
        let a4 = a5.drop_last();
        let a3 = a4.drop_last();
        let a2 = a3.drop_last();
        let a1 = a2.drop_last();
        assert(a1.drop_last().len() == 0);
        reveal_with_fuel(Grid::alive_among, 9);
    }

    /// A step keeps the geometry and the number of cells, and so does any
    /// number of steps.
    pub proof fn lemma_after_keeps_shape(self, n: nat)
        requires
            self.wf(),
        ensures
            self.step().wf(),
            self.step().size == self.size,
            self.after(n).wf(),
            self.after(n).size == self.size,
        decreases n,
    {
        if n > 0 {
            self.step().lemma_after_keeps_shape((n - 1) as nat);
        }
    }

    /// In the text of the first `rows` rows each row has a stretch of its
    /// own, as long as the grid is wide and one more, and the stretches
    /// follow each other in the order of the rows.
    pub proof fn lemma_text_layout(self, rows: nat)
        ensures
            self.text_of_rows(rows).len() == rows * (self.size.width + 1),
            forall|row: int|
                0 <= row < rows ==> self.text_of_rows(rows).subrange(
                    row * (self.size.width + 1),
                    (row + 1) * (self.size.width + 1),
                ) == #[trigger] self.row_text(row),
        decreases rows,
    {
        let stride = self.size.width + 1;
        if rows > 0 {
            let earlier = self.text_of_rows((rows - 1) as nat);
            let all = self.text_of_rows(rows);
            self.lemma_text_layout((rows - 1) as nat);
            assert(rows * stride == (rows - 1) * stride + stride) by (nonlinear_arith);
            assert forall|row: int| 0 <= row < rows implies all.subrange(
                row * stride,
                (row + 1) * stride,
            ) == #[trigger] self.row_text(row) by {
                assert(0 <= row * stride && (row + 1) * stride == row * stride + stride && (row
                    + 1) * stride <= rows * stride) by (nonlinear_arith)
                    requires
                        0 <= row < rows,
                        stride > 0,
                ;
                if row < rows - 1 {
                    assert((row + 1) * stride <= (rows - 1) * stride) by (nonlinear_arith)
                        requires
                            row + 1 <= rows - 1,
                            stride > 0,
                    ;
                    assert(all.subrange(row * stride, (row + 1) * stride) =~= earlier.subrange(
                        row * stride,
                        (row + 1) * stride,
                    ));
                } else {
                    assert(all.subrange(row * stride, (row + 1) * stride) =~= self.row_text(row));
                }
            }
        }
    }

    /// The cell at an address follows the rule, judged by its own state and
    /// its live neighbours in the current generation.
    pub proof fn lemma_step_at(self, row: int, col: int)
        requires
            self.wf(),
            self.size.contains(row, col),
        ensures
            self.step().at(row, col) == rule(self.at(row, col), self.live_neighbors(row, col)),
    {
        self.size.lemma_index_of_address(row, col);
    }

    /// Two generations on the same grid that agree at every address are the
    /// same generation.
    pub proof fn lemma_equal_by_address(self, other: Grid)
        requires
            self.wf(),
            other.wf(),
            self.size == other.size,
            forall|row: int, col: int|
                self.size.contains(row, col) ==> #[trigger] self.at(row, col) == other.at(row, col),
        ensures
            self == other,
    {
        assert forall|index: int| 0 <= index < self.cells.len() implies self.cells[index]
            == other.cells[index] by {
            self.size.lemma_address_of_index(index);
            let row = index / (self.size.width as int);
            let col = index % (self.size.width as int);
            assert(self.at(row, col) == other.at(row, col));
        }
        assert(self.cells =~= other.cells);
    }

    /// Flipping the same cell twice gives back the generation it started
    /// from.
    pub proof fn lemma_toggle_twice(self, row: int, col: int)
        requires
            self.wf(),
            self.size.contains(row, col),
        ensures
            self.toggled(row, col).toggled(row, col) == self,
    {
        self.size.lemma_index_of_address(row, col);
        assert(self.toggled(row, col).toggled(row, col).cells =~= self.cells);
    }

    /// Marking cells alive twice changes nothing the second time.
    pub proof fn lemma_with_alive_idempotent(self, coords: Seq<(usize, usize)>)
        requires
            self.wf(),
        ensures
            self.with_alive(coords).with_alive(coords) == self.with_alive(coords),
    {
        let once = self.with_alive(coords);
        assert forall|index: int| 0 <= index < self.cells.len() implies once.lists(coords, index)
            == self.lists(coords, index) by {}
        assert(once.with_alive(coords).cells =~= once.cells);
    }

    /// Where every cell is dead, no cell has a live neighbour.
    pub proof fn lemma_dead_has_no_live_neighbors(self, row: int, col: int)
        requires
            self.wf(),
            self.all_dead(),
            self.size.contains(row, col),
        ensures
            self.live_neighbors(row, col) == 0,
    {
        self.lemma_live_neighbors_unfold(row, col);
        self.size.lemma_neighbors_on_grid(row, col);
        let around = self.size.neighbors(row, col);
        assert forall|k: int| 0 <= k < 8 implies self.at(
            (#[trigger] around[k]).0,
            around[k].1,
        ) == Cell::Dead by {}
        assert(self.at(around[0].0, around[0].1) == Cell::Dead);
        assert(self.at(around[1].0, around[1].1) == Cell::Dead);
        assert(self.at(around[2].0, around[2].1) == Cell::Dead);
        assert(self.at(around[3].0, around[3].1) == Cell::Dead);
        assert(self.at(around[4].0, around[4].1) == Cell::Dead);
        assert(self.at(around[5].0, around[5].1) == Cell::Dead);
        assert(self.at(around[6].0, around[6].1) == Cell::Dead);
        assert(self.at(around[7].0, around[7].1) == Cell::Dead);
    }

    /// A generation without a live cell is followed by one without a live
    /// cell, however many steps are taken.
    pub proof fn lemma_dead_stays_dead(self, n: nat)
        requires
            self.wf(),
            self.all_dead(),
        ensures
            self.after(n).all_dead(),
            self.after(n) == self,
        decreases n,
    {
        if n > 0 {
            let next = self.step();
            assert forall|index: int| 0 <= index < self.cells.len() implies next.cells[index]
                == Cell::Dead by {
                let row = index / (self.size.width as int);
                let col = index % (self.size.width as int);
                self.size.lemma_address_of_index(index);
                self.lemma_dead_has_no_live_neighbors(row, col);
            }
            assert(next.cells =~= self.cells);
            next.lemma_dead_stays_dead((n - 1) as nat);
        }
    }
}

} // verus!
