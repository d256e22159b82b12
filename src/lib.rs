//! Conway's Game of Life on a fixed-size grid whose edges wrap around.

pub mod cell;
pub mod grid;
pub mod laws;
pub mod shapes;
pub mod universe;

pub use cell::Cell;
pub use universe::Universe;
