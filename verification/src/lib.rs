//! Conway's Game of Life on a grid that wraps around at every edge.
//!
//! [`Universe`] owns the cells and advances them one generation at a time.
//! Its contracts are stated over [`Grid`], the mathematical picture of a
//! universe: two dimensions and a row-major sequence of cells.

mod arith;
pub mod cell;
pub mod error;
pub mod grid;
mod text;
pub mod theory;
pub mod universe;

pub use cell::Cell;
pub use error::GridError;
pub use grid::Grid;
pub use universe::Universe;
