//! The staged construction of a universe.
//!
//! A builder walks through stages, each a type of its own: nothing known,
//! one dimension known, both known. Only the last stage can make a
//! universe, so a universe without a width or a height cannot be written
//! down.

use vstd::prelude::*;
use crate::cell::Cell;
use crate::geometry::Size;
use crate::grid::Grid;
use crate::universe::Universe;

verus! {

/// A builder at the stage `T`.
pub struct UniverseBuilder<T> {
    state: T,
}

/// The stage at which nothing is known yet.
pub struct EmptyUniverse;

/// The stage at which only the width is known.
pub struct UniverseWithWidth {
    width: usize,
}

/// The stage at which only the height is known.
pub struct UniverseWithHeight {
    height: usize,
}

/// The stage at which both dimensions are known.
pub struct ScaledUniverse {
    width: usize,
    height: usize,
}

/// The cell that the patterned universe holds at a row-major index: alive
/// where the index is even or a multiple of seven.
pub open spec fn patterned(index: int) -> Cell {
    if index % 2 == 0 || index % 7 == 0 {
        Cell::Alive
    } else {
        Cell::Dead
    }
}

/// The bit pattern is that of a double which is at least zero and less than
/// one: a pattern below that of 1.0, or the pattern of negative zero.
pub open spec fn in_unit_interval(bits: u64) -> bool {
    bits < 0x3FF0_0000_0000_0000u64 || bits == 0x8000_0000_0000_0000u64
}

/// `js_sys::Math::random` hands back what JavaScript's `Math.random()`
/// draws, which its documentation places in the range from 0 to 1, 0
/// included and 1 not. This returns the bit pattern of that double, as
/// `f64::to_bits` gives it. Which number is drawn is left open. The binding
/// exists only under a JavaScript host.
#[verifier::external_body]
fn draw() -> (bits: u64)
    ensures
        in_unit_interval(bits),
{
    js_sys::Math::random().to_bits()
}

impl UniverseBuilder<EmptyUniverse> {
    /// Starts a builder with the width.
    pub fn with_width(width: usize) -> (builder: UniverseBuilder<UniverseWithWidth>)
        ensures
            builder.width() == width,
    {
        UniverseBuilder { state: UniverseWithWidth { width } }
    }

    /// Starts a builder with the height.
    pub fn with_height(height: usize) -> (builder: UniverseBuilder<UniverseWithHeight>)
        ensures
            builder.height() == height,
    {
        UniverseBuilder { state: UniverseWithHeight { height } }
    }
}

impl UniverseBuilder<UniverseWithWidth> {
    /// The width that the builder was started with.
    pub closed spec fn width(&self) -> usize {
        self.state.width
    }

    /// Adds the height, which completes the dimensions.
    pub fn with_height(self, height: usize) -> (builder: UniverseBuilder<ScaledUniverse>)
        ensures
            builder.size() == (Size { width: self.width(), height }),
    {
        UniverseBuilder { state: ScaledUniverse { width: self.state.width, height } }
    }
}

impl UniverseBuilder<UniverseWithHeight> {
    /// The height that the builder was started with.
    pub closed spec fn height(&self) -> usize {
        self.state.height
    }

    /// Adds the width, which completes the dimensions.
    pub fn with_width(self, width: usize) -> (builder: UniverseBuilder<ScaledUniverse>)
        ensures
            builder.size() == (Size { width, height: self.height() }),
    {
        UniverseBuilder { state: ScaledUniverse { height: self.state.height, width } }
    }
}

impl UniverseBuilder<ScaledUniverse> {
    /// The dimensions that the builder holds.
    pub closed spec fn size(&self) -> Size {
        Size { width: self.state.width, height: self.state.height }
    }

    /// Whether a universe can be made: both dimensions are positive and the
    /// number of cells fits in a `usize`.
    pub fn is_valid(&self) -> (valid: bool)
        ensures
            valid == self.size().wf(),
    {
        self.state.width > 0 && self.state.height > 0 && self.state.width.checked_mul(
            self.state.height,
        ).is_some()
    }

    /// A universe in which each cell is alive or dead as a number drawn for
    /// it lies below one half or not.
    pub fn random(self) -> (universe: Universe)
        requires
            self.size().wf(),
        ensures
            universe.wf(),
            universe@.size == self.size(),
            universe.selector() == 0,
            universe.idle_cells() == Seq::new(self.size().area(), |i: int| Cell::Dead),
    {
        let size = Size { width: self.state.width, height: self.state.height };
        let count: usize = size.width * size.height;
        let mut cells: Vec<Cell> = Vec::new();
        let mut index: usize = 0;
        while index < count
            invariant
                index <= count,
                cells@.len() == index,
            decreases count - index,
        {
            cells.push(Cell::from_draw(draw()));
            index += 1;
        }
        Universe::from_cells(size, cells)
    }

    /// A universe in which every cell is dead.
    pub fn empty(self) -> (universe: Universe)
        requires
            self.size().wf(),
        ensures
            universe.wf(),
            universe@ == (Grid {
                size: self.size(),
                cells: Seq::new(self.size().area(), |i: int| Cell::Dead),
            }),
            universe@.all_dead(),
            universe.selector() == 0,
            universe.idle_cells() == Seq::new(self.size().area(), |i: int| Cell::Dead),
    {
        let size = Size { width: self.state.width, height: self.state.height };
        let count: usize = size.width * size.height;
        let mut cells: Vec<Cell> = Vec::new();
        let mut index: usize = 0;
        while index < count
            invariant
                index <= count,
                cells@.len() == index,
                forall|i: int| 0 <= i < index ==> cells@[i] == Cell::Dead,
            decreases count - index,
        {
            cells.push(Cell::Dead);
            index += 1;
        }
        assert(cells@ =~= Seq::new(size.area(), |i: int| Cell::Dead));
        Universe::from_cells(size, cells)
    }

    /// A universe in which the cells at even indices and at multiples of
    /// seven are alive, over the whole grid.
    pub fn default(self) -> (universe: Universe)
        requires
            self.size().wf(),
        ensures
            universe.wf(),
            universe@ == (Grid {
                size: self.size(),
                cells: Seq::new(self.size().area(), |i: int| patterned(i)),
            }),
            universe.selector() == 0,
            universe.idle_cells() == Seq::new(self.size().area(), |i: int| Cell::Dead),
    {
        let size = Size { width: self.state.width, height: self.state.height };
        let count: usize = size.width * size.height;
        let mut cells: Vec<Cell> = Vec::new();
        let mut index: usize = 0;
        while index < count
            invariant
                index <= count,
                cells@.len() == index,
                forall|i: int| 0 <= i < index ==> cells@[i] == patterned(i),
            decreases count - index,
        {
            let cell = if index % 2 == 0 || index % 7 == 0 {
                Cell::Alive
            } else {
                Cell::Dead
            };
            cells.push(cell);
            index += 1;
        }
        assert(cells@ =~= Seq::new(size.area(), |i: int| patterned(i)));
        Universe::from_cells(size, cells)
    }
}

} // verus!
