//! The state of a single cell and the rule by which it changes.

use vstd::prelude::*;

verus! {

/// The state of one cell of the grid.
#[derive(Clone, Copy, Debug, PartialEq, Eq, Structural)]
pub enum Cell {
    Dead,
    Alive,
}

impl Cell {
    /// The state that a cell takes in the next generation when `live_neighbors`
    /// of the cells around it are alive: a cell is born with exactly three live
    /// neighbors and survives with two or three.
    pub open spec fn next(self, live_neighbors: int) -> Cell {
        if live_neighbors == 3 || (self == Cell::Alive && live_neighbors == 2) {
            Cell::Alive
        } else {
            Cell::Dead
        }
    }

    /// The two characters that stand for a cell in the rendered text.
    pub open spec fn glyph(self) -> Seq<char> {
        match self {
            Cell::Dead => seq!['░', '░'],
            Cell::Alive => seq!['█', '█'],
        }
    }
}

} // verus!
