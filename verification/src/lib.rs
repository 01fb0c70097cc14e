//! Conway's Game of Life on a toroidal grid.
//!
//! A [`Universe`] owns two generation buffers of equal length and advances
//! one generation per [`Universe::tick`]. Its mathematical model is a
//! [`grid::Grid`]: the geometry together with the row-major sequence of the
//! cells of the current generation. Every contract of the crate is stated
//! over that model.

pub mod cell;
pub mod geometry;
pub mod grid;
pub mod patterns;
pub mod universe;
pub mod universe_builder;

pub use cell::Cell;
pub use geometry::Size;
pub use universe::Universe;
