//! Conway's Game of Life on a torus.
//!
//! A [`Universe`] owns a fixed-size grid of [`Cell`]s stored row by row. It is
//! seeded with a fixed pattern, advanced one generation at a time, and rendered
//! as text. The contract of every operation is stated over
//! [`Grid`](grid::Grid), the mathematical model of a universe, and
//! [`laws`] holds what is proved of every grid.

pub mod cell;
pub mod grid;
pub mod laws;
pub mod universe;

pub use cell::Cell;
pub use universe::Universe;
