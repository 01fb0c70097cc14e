//! The geometry of the grid: row-major addressing and the toroidal
//! neighbourhood of a cell.

use vstd::prelude::*;

verus! {

/// The dimensions of a grid.
#[derive(Clone, Copy, Debug, PartialEq, Eq, Structural)]
pub struct Size {
    pub width: usize,
    pub height: usize,
}

impl Size {
    /// Both dimensions are positive and the number of cells fits in a
    /// `usize`.
    pub open spec fn wf(self) -> bool {
        &&& self.width > 0
        &&& self.height > 0
        &&& self.width * self.height <= usize::MAX
    }

    /// The number of cells.
    pub open spec fn area(self) -> nat {
        (self.width * self.height) as nat
    }

    /// `row` and `col` address a cell of the grid.
    pub open spec fn contains(self, row: int, col: int) -> bool {
        0 <= row < self.height && 0 <= col < self.width
    }

    /// The row-major index of a cell.
    pub open spec fn index_of(self, row: int, col: int) -> int {
        row * self.width + col
    }

    /// The row above `row`; above the first row lies the last.
    pub open spec fn north(self, row: int) -> int {
        (row + self.height - 1) % (self.height as int)
    }

    /// The row below `row`; below the last row lies the first.
    pub open spec fn south(self, row: int) -> int {
        (row + 1) % (self.height as int)
    }

    /// The column left of `col`; left of the first column lies the last.
    pub open spec fn west(self, col: int) -> int {
        (col + self.width - 1) % (self.width as int)
    }

    /// The column right of `col`; right of the last column lies the first.
    pub open spec fn east(self, col: int) -> int {
        (col + 1) % (self.width as int)
    }

    /// The eight cells around a cell, row by row from the north-west, on a
    /// grid whose opposite edges are adjacent.
    pub open spec fn neighbors(self, row: int, col: int) -> Seq<(int, int)> {
        seq![
            (self.north(row), self.west(col)),
            (self.north(row), col),
            (self.north(row), self.east(col)),
            (row, self.west(col)),
            (row, self.east(col)),
            (self.south(row), self.west(col)),
            (self.south(row), col),
            (self.south(row), self.east(col)),
        ]
    }

    /// An index below the number of cells is the index of the cell at its
    /// own address, and that address lies on the grid.
    pub proof fn lemma_address_of_index(self, index: int)
        requires
            self.wf(),
            0 <= index < self.area(),
        ensures
            self.contains(index / (self.width as int), index % (self.width as int)),
            self.index_of(index / (self.width as int), index % (self.width as int)) == index,
    {
        let w = self.width as int;
        let h = self.height as int;
        assert(0 <= index / w < h && 0 <= index % w < w && (index / w) * w + index % w == index)
            by (nonlinear_arith)
            requires
                0 <= index < w * h,
                w > 0,
        ;
    }

    /// The index of a cell of the grid lies below the number of cells, and
    /// the address of that index is the cell.
    pub proof fn lemma_index_of_address(self, row: int, col: int)
        requires
            self.wf(),
            self.contains(row, col),
        ensures
            0 <= self.index_of(row, col) < self.area(),
            self.index_of(row, col) / (self.width as int) == row,
            self.index_of(row, col) % (self.width as int) == col,
    {
        let w = self.width as int;
        let h = self.height as int;
        assert(0 <= row * w + col < w * h) by (nonlinear_arith)
            requires
                0 <= row < h,
                0 <= col < w,
        ;
        vstd::arithmetic::div_mod::lemma_fundamental_div_mod_converse(row * w + col, w, row, col);
    }

    /// Stepping off an edge of the grid arrives at the opposite edge;
    /// anywhere else a step moves by one.
    pub proof fn lemma_steps_wrap(self, row: int, col: int)
        requires
            self.wf(),
            self.contains(row, col),
        ensures
            self.north(row) == (if row == 0 {
                self.height - 1
            } else {
                row - 1
            }),
            self.south(row) == (if row == self.height - 1 {
                0
            } else {
                row + 1
            }),
            self.west(col) == (if col == 0 {
                self.width - 1
            } else {
                col - 1
            }),
            self.east(col) == (if col == self.width - 1 {
                0
            } else {
                col + 1
            }),
    {
        let w = self.width as int;
        let h = self.height as int;
        vstd::arithmetic::div_mod::lemma_mod_self_0(h);
        vstd::arithmetic::div_mod::lemma_mod_self_0(w);
        if row == 0 {
            vstd::arithmetic::div_mod::lemma_small_mod((h - 1) as nat, h as nat);
        } else {
            vstd::arithmetic::div_mod::lemma_mod_add_multiples_vanish(row - 1, h);
            vstd::arithmetic::div_mod::lemma_small_mod((row - 1) as nat, h as nat);
        }
        if row != h - 1 {
            vstd::arithmetic::div_mod::lemma_small_mod((row + 1) as nat, h as nat);
        }
        if col == 0 {
            vstd::arithmetic::div_mod::lemma_small_mod((w - 1) as nat, w as nat);
        } else {
            vstd::arithmetic::div_mod::lemma_mod_add_multiples_vanish(col - 1, w);
            vstd::arithmetic::div_mod::lemma_small_mod((col - 1) as nat, w as nat);
        }
        if col != w - 1 {
            vstd::arithmetic::div_mod::lemma_small_mod((col + 1) as nat, w as nat);
        }
    }

    /// Every neighbour of a cell of the grid is a cell of the grid, with an
    /// index below the number of cells.
    pub proof fn lemma_neighbors_on_grid(self, row: int, col: int)
        requires
            self.wf(),
            self.contains(row, col),
        ensures
            self.neighbors(row, col).len() == 8,
            forall|k: int|
                0 <= k < 8 ==> self.contains(
                    (#[trigger] self.neighbors(row, col)[k]).0,
                    self.neighbors(row, col)[k].1,
                ),
            forall|k: int|
                0 <= k < 8 ==> 0 <= self.index_of(
                    (#[trigger] self.neighbors(row, col)[k]).0,
                    self.neighbors(row, col)[k].1,
                ) < self.area(),
    {
        self.lemma_steps_wrap(row, col);
        assert forall|k: int| 0 <= k < 8 implies 0 <= self.index_of(
            (#[trigger] self.neighbors(row, col)[k]).0,
            self.neighbors(row, col)[k].1,
        ) < self.area() by {
            self.lemma_index_of_address(self.neighbors(row, col)[k].0, self.neighbors(row, col)[k].1);
        }
    }

    /// The grid wraps at its edges: north of the first row lies the last row
    /// and south of the last row the first, in the same column; west of the
    /// first column lies the last column and east of the last column the
    /// first, in the same row.
    pub proof fn lemma_edges_are_adjacent(self, row: int, col: int)
        requires
            self.wf(),
            self.contains(row, col),
        ensures
            self.north(0) == self.height - 1,
            self.south(self.height - 1) == 0,
            self.west(0) == self.width - 1,
            self.east(self.width - 1) == 0,
            self.neighbors(0, col)[1] == (self.height - 1, col),
            self.neighbors(self.height - 1, col)[6] == (0int, col),
            self.neighbors(row, 0)[3] == (row, self.width - 1),
            self.neighbors(row, self.width - 1)[4] == (row, 0int),
    {
        self.lemma_steps_wrap(0, col);
        self.lemma_steps_wrap(self.height - 1, col);
        self.lemma_steps_wrap(row, 0);
        self.lemma_steps_wrap(row, self.width - 1);
    }

    /// The row-major index of the cell at `row` and `column`.
    pub fn get_index(&self, row: usize, column: usize) -> (index: usize)
        requires
            self.wf(),
            self.contains(row as int, column as int),
        ensures
            index == self.index_of(row as int, column as int),
            index < self.area(),
    {
        proof {
            self.lemma_index_of_address(row as int, column as int);
            assert(row * self.width <= self.index_of(row as int, column as int)) by (nonlinear_arith)
                requires
                    column >= 0,
                    self.index_of(row as int, column as int) == row * self.width + column,
            ;
            assert(row * self.width >= 0) by (nonlinear_arith);
        }
        row * self.width + column
    }

    /// The row and the column of the cell at a row-major index.
    pub fn get_address(&self, index: usize) -> (address: (usize, usize))
        requires
            self.width > 0,
        ensures
            address.0 == index / self.width,
            address.1 == index % self.width,
            address.1 < self.width,
            self.index_of(address.0 as int, address.1 as int) == index,
            self.wf() && index < self.area() ==> address.0 < self.height,
    {
        proof {
            let w = self.width as int;
            let i = index as int;
            assert((i / w) * w + i % w == i && 0 <= i % w < w) by (nonlinear_arith)
                requires
                    w > 0,
                    i >= 0,
            ;
            if self.wf() && index < self.area() {
                self.lemma_address_of_index(i);
            }
        }
        let row = index / self.width;
        let col = index % self.width;
        (row, col)
    }

    /// The addresses of the eight cells around the cell at `row` and
    /// `column`, with the edges of the grid wrapping around.
    pub fn neighbor_coordinates(&self, row: usize, column: usize) -> (around: [(usize, usize); 8])
        requires
            self.wf(),
            self.contains(row as int, column as int),
        ensures
            forall|k: int|
                0 <= k < 8 ==> (#[trigger] around@[k]).0 as int == self.neighbors(
                    row as int,
                    column as int,
                )[k].0 && around@[k].1 as int == self.neighbors(row as int, column as int)[k].1,
            forall|k: int|
                0 <= k < 8 ==> self.contains(
                    (#[trigger] around@[k]).0 as int,
                    around@[k].1 as int,
                ),
    {
        proof {
            self.lemma_steps_wrap(row as int, column as int);
        }
        let north = if row == 0 {
            self.height - 1
        } else {
            row - 1
        };
        let south = if row == self.height - 1 {
            0
        } else {
            row + 1
        };
        let west = if column == 0 {
            self.width - 1
        } else {
            column - 1
        };
        let east = if column == self.width - 1 {
            0
        } else {
            column + 1
        };
        let around = [
            (north, west),
            (north, column),
            (north, east),
            (row, west),
            (row, east),
            (south, west),
            (south, column),
            (south, east),
        ];
        around
    }
}

} // verus!
