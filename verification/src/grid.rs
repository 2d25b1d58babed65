//! The mathematical model of a universe: its dimensions and its cells as a
//! sequence, with the functions that say what seeding, stepping and rendering
//! mean.

use vstd::prelude::*;
use vstd::arithmetic::div_mod::{
    lemma_add_mod_noop_right,
    lemma_fundamental_div_mod_converse,
    lemma_mod_add_multiples_vanish,
    lemma_mod_bound,
    lemma_small_mod,
};
use crate::cell::Cell;

verus! {

/// A grid of cells in row-major order.
pub struct Grid {
    pub width: nat,
    pub height: nat,
    pub cells: Seq<Cell>,
}

/// The state of the cell with flat index `i` in a freshly seeded grid.
pub open spec fn seed(i: int) -> Cell {
    if i % 2 == 0 || i % 7 == 0 {
        Cell::Alive
    } else {
        Cell::Dead
    }
}

/// The coordinate reached from `coordinate` by `offset` on a ring of `size`
/// positions.
pub open spec fn wrapped(coordinate: int, offset: int, size: int) -> int {
    (coordinate + offset + size) % size
}

impl Grid {
    /// A grid is well formed when it holds exactly one cell per position.
    pub open spec fn wf(self) -> bool {
        self.cells.len() == self.width * self.height
    }

    /// The flat index of the cell at `(row, column)`.
    pub open spec fn index(self, row: int, column: int) -> int {
        row * self.width + column
    }

    /// The cell at `(row, column)`.
    pub open spec fn at(self, row: int, column: int) -> Cell {
        self.cells[self.index(row, column)]
    }

    /// 1 if the cell reached from `(row, column)` by the offsets
    /// `(row_offset, column_offset)`, wrapping around the edges, is alive, and 0
    /// otherwise.
    pub open spec fn live(self, row: int, column: int, row_offset: int, column_offset: int) -> int {
        let r = wrapped(row, row_offset, self.height as int);
        let c = wrapped(column, column_offset, self.width as int);
        if self.at(r, c) == Cell::Alive {
            1
        } else {
            0
        }
    }

    /// The number of live cells among the eight positions around
    /// `(row, column)` on the torus. On a grid with fewer than three rows or
    /// columns several of these positions coincide, and each is still counted.
    pub open spec fn live_neighbors(self, row: int, column: int) -> int {
        self.live(row, column, -1, -1) + self.live(row, column, -1, 0) + self.live(row, column, -1, 1)
            + self.live(row, column, 0, -1) + self.live(row, column, 0, 1)
            + self.live(row, column, 1, -1) + self.live(row, column, 1, 0) + self.live(row, column, 1, 1)
    }

    /// The next state of the cell with flat index `i`.
    pub open spec fn next_cell(self, i: int) -> Cell {
        let row = i / (self.width as int);
        let column = i % (self.width as int);
        self.cells[i].next(self.live_neighbors(row, column))
    }

    /// The grid one generation later: every cell changes according to the
    /// neighbors it has in `self`.
    pub open spec fn step(self) -> Grid {
        Grid {
            width: self.width,
            height: self.height,
            cells: Seq::new(self.cells.len(), |i: int| self.next_cell(i)),
        }
    }

    /// The grid `generations` generations later.
    pub open spec fn after(self, generations: nat) -> Grid
        decreases generations,
    {
        if generations == 0 {
            self
        } else {
            self.after((generations - 1) as nat).step()
        }
    }

    /// The initial grid of the given dimensions.
    pub open spec fn seeded(width: nat, height: nat) -> Grid {
        Grid { width, height, cells: Seq::new(width * height, |i: int| seed(i)) }
    }

    /// The glyphs of the first `columns` cells of a row.
    pub open spec fn row_text(self, row: int, columns: nat) -> Seq<char>
        decreases columns,
    {
        if columns == 0 {
            Seq::empty()
        } else {
            self.row_text(row, (columns - 1) as nat) + self.at(row, columns - 1).glyph()
        }
    }

    /// The text of one row: the glyphs of its cells and a newline.
    pub open spec fn line(self, row: int) -> Seq<char> {
        self.row_text(row, self.width) + seq!['\n']
    }

    /// The text of the first `rows` rows.
    pub open spec fn lines(self, rows: nat) -> Seq<char>
        decreases rows,
    {
        if rows == 0 {
            Seq::empty()
        } else {
            self.lines((rows - 1) as nat) + self.line(rows - 1)
        }
    }

    /// The text of the whole grid: one line per row, each ended by a newline.
    pub open spec fn text(self) -> Seq<char> {
        self.lines(self.height)
    }
}

/// A position inside the grid has a flat index inside the cell sequence, and
/// the index gives the position back.
pub proof fn lemma_index_round_trip(grid: Grid, row: int, column: int)
    requires
        0 <= row < grid.height,
        0 <= column < grid.width,
    ensures
        0 <= grid.index(row, column) < grid.width * grid.height,
        grid.index(row, column) / (grid.width as int) == row,
        grid.index(row, column) % (grid.width as int) == column,
{
    let width = grid.width as int;
    let height = grid.height as int;
    assert(0 <= row * width) by (nonlinear_arith)
        requires
            0 <= row,
            0 <= width,
    ;
    assert((row + 1) * width <= height * width) by (nonlinear_arith)
        requires
            row + 1 <= height,
            0 <= width,
    ;
    assert((row + 1) * width == row * width + width) by (nonlinear_arith);
    assert(height * width == width * height) by (nonlinear_arith);
    lemma_fundamental_div_mod_converse(grid.index(row, column), width, row, column);
}

/// Moving along a ring stays on the ring, moving by nothing stays in place,
/// and two moves in a row are one move by the sum of their offsets.
pub proof fn lemma_wrapped(coordinate: int, first: int, second: int, size: int)
    requires
        0 < size,
    ensures
        0 <= wrapped(coordinate, first, size) < size,
        0 <= coordinate < size ==> wrapped(coordinate, 0, size) == coordinate,
        wrapped(wrapped(coordinate, first, size), second, size) == wrapped(
            coordinate,
            first + second,
            size,
        ),
{
    lemma_mod_bound(coordinate + first + size, size);
    if 0 <= coordinate < size {
        lemma_mod_add_multiples_vanish(coordinate, size);
        lemma_small_mod(coordinate as nat, size as nat);
    }
    lemma_add_mod_noop_right(second + size, coordinate + first + size, size);
    lemma_mod_add_multiples_vanish(coordinate + first + second + size, size);
}

} // verus!
