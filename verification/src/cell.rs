//! The state of one cell and the rule that decides its next state.

use vstd::prelude::*;

verus! {

/// One cell of the grid.
#[derive(Clone, Copy, Debug, PartialEq, Eq, Structural)]
pub enum Cell {
    Dead,
    Alive,
}

/// The state of a cell in the next generation, given its state now and the
/// number of its neighbours that are alive.
pub open spec fn rule(current: Cell, live_neighbors: nat) -> Cell {
    match current {
        Cell::Alive => if live_neighbors == 2 || live_neighbors == 3 {
            Cell::Alive
        } else {
            Cell::Dead
        },
        Cell::Dead => if live_neighbors == 3 {
            Cell::Alive
        } else {
            Cell::Dead
        },
    }
}

/// What a 64-bit pattern says when it is read as an IEEE 754 double and
/// compared with one half: `true` exactly when that double is less than 0.5.
///
/// The non-negative doubles are ordered as their patterns are, and one half
/// has the pattern `0x3FE0_0000_0000_0000`. Every pattern with the sign bit
/// set, up to that of negative infinity, is a negative number; the patterns
/// above it are NaNs, which compare less than nothing.
pub open spec fn below_half(bits: u64) -> bool {
    bits < 0x3FE0_0000_0000_0000u64 || (0x8000_0000_0000_0000u64 <= bits
        <= 0xFFF0_0000_0000_0000u64)
}

impl Cell {
    /// The other state.
    pub open spec fn flipped(self) -> Cell {
        match self {
            Cell::Dead => Cell::Alive,
            Cell::Alive => Cell::Dead,
        }
    }

    /// The number a cell stands for: 0 when dead, 1 when alive.
    pub open spec fn population(self) -> nat {
        match self {
            Cell::Dead => 0,
            Cell::Alive => 1,
        }
    }

    /// The glyph that shows a cell in a textual rendering.
    pub open spec fn glyph(self) -> char {
        match self {
            Cell::Dead => '◻',
            Cell::Alive => '◼',
        }
    }

    /// Flips the cell in place.
    pub fn toggle(&mut self)
        ensures
            *final(self) == old(self).flipped(),
    {
        *self = match *self {
            Cell::Dead => Cell::Alive,
            Cell::Alive => Cell::Dead,
        }
    }

    /// The cell as a number, 0 or 1.
    pub fn value(self) -> (n: u8)
        ensures
            n == self.population(),
    {
        match self {
            Cell::Dead => 0,
            Cell::Alive => 1,
        }
    }

    /// The character that shows the cell.
    pub fn symbol(self) -> (c: char)
        ensures
            c == self.glyph(),
    {
        match self {
            Cell::Dead => '◻',
            Cell::Alive => '◼',
        }
    }

    /// Applies the rule of the game to one cell.
    pub fn next(self, live_neighbors: u8) -> (c: Cell)
        ensures
            c == rule(self, live_neighbors as nat),
    {
        match self {
            Cell::Alive => if live_neighbors == 2 || live_neighbors == 3 {
                Cell::Alive
            } else {
                Cell::Dead
            },
            Cell::Dead => if live_neighbors == 3 {
                Cell::Alive
            } else {
                Cell::Dead
            },
        }
    }

    /// The cell that a drawn number stands for. The number is given by its
    /// bit pattern as a double: the cell is alive exactly when the double is
    /// less than one half.
    pub fn from_draw(bits: u64) -> (c: Cell)
        ensures
            c == (if below_half(bits) {
                Cell::Alive
            } else {
                Cell::Dead
            }),
    {
        if bits < 0x3FE0_0000_0000_0000u64 {
            Cell::Alive
        } else if bits >= 0x8000_0000_0000_0000u64 && bits <= 0xFFF0_0000_0000_0000u64 {
            Cell::Alive
        } else {
            Cell::Dead
        }
    }
}

} // verus!
