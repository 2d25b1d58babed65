//! The executable universe: construction, index mapping, neighbor counting,
//! the step transition and rendering.

use vstd::prelude::*;
use crate::cell::Cell;
use crate::grid::{lemma_index_round_trip, seed, wrapped, Grid};

verus! {

/// A toroidal grid of cells that evolves by the rules of Life.
pub struct Universe {
    width: u32,
    height: u32,
    cells: Vec<Cell>,
}

impl View for Universe {
    type V = Grid;

    closed spec fn view(&self) -> Grid {
        Grid { width: self.width as nat, height: self.height as nat, cells: self.cells@ }
    }
}

/// Moves `coordinate` by `offset` on a ring of `size` positions.
fn wrap(coordinate: u32, offset: i8, size: u32) -> (moved: u32)
    requires
        coordinate < size,
        -1 <= offset <= 1,
    ensures
        moved == wrapped(coordinate as int, offset as int, size as int),
        moved < size,
{
    let base: u64 = coordinate as u64 + size as u64;
    let shifted: u64 = if offset < 0 {
        base - 1
    } else if offset > 0 {
        base + 1
    } else {
        base
    };
    (shifted % (size as u64)) as u32
}

impl Universe {
    /// The cells fill the grid exactly, and every flat index fits in a `u32`.
    #[verifier::type_invariant]
    spec fn inv(self) -> bool {
        &&& self.cells@.len() == self.width * self.height
        &&& self.width * self.height <= u32::MAX
    }

    /// Creates a universe of the given dimensions, seeded with the initial
    /// pattern. A dimension of zero gives an empty grid.
    pub fn new(width: u32, height: u32) -> (universe: Universe)
        requires
            width * height <= u32::MAX,
        ensures
            universe@ == Grid::seeded(width as nat, height as nat),
    {
        let total: u32 = width * height;
        let mut cells: Vec<Cell> = Vec::new();
        let mut i: u32 = 0;
        while i < total
            invariant
                i <= total,
                cells@.len() == i,
                forall|j: int| 0 <= j < i ==> cells@[j] == seed(j),
            decreases total - i,
        {
            let cell = if i % 2 == 0 || i % 7 == 0 {
                Cell::Alive
            } else {
                Cell::Dead
            };
            cells.push(cell);
            i += 1;
        }
        assert(cells@ =~= Grid::seeded(width as nat, height as nat).cells);
        Universe { width, height, cells }
    }

    /// Creates a universe that holds the given cells, in row-major order.
    /// Returns `None` unless there is exactly one cell for each position and
    /// their number fits in a `u32`.
    pub fn from_cells(width: u32, height: u32, cells: Vec<Cell>) -> (universe: Option<Universe>)
        ensures
            universe.is_some() <==> cells@.len() == width * height <= u32::MAX,
            universe matches Some(u) ==> u@ == (Grid {
                width: width as nat,
                height: height as nat,
                cells: cells@,
            }),
    {
        assert(width * height <= 0xFFFF_FFFF * 0xFFFF_FFFF) by (nonlinear_arith)
            requires
                width <= 0xFFFF_FFFF,
                height <= 0xFFFF_FFFF,
        ;
        let total: u64 = width as u64 * height as u64;
        if total <= u32::MAX as u64 && cells.len() as u64 == total {
            Some(Universe { width, height, cells })
        } else {
            None
        }
    }

    /// The number of columns.
    pub fn width(&self) -> (width: u32)
        ensures
            width == self@.width,
    {
        self.width
    }

    /// The number of rows.
    pub fn height(&self) -> (height: u32)
        ensures
            height == self@.height,
    {
        self.height
    }

    /// The cells in row-major order, one for each position of the grid.
    pub fn cells(&self) -> (cells: &[Cell])
        ensures
            cells@ == self@.cells,
            self@.wf(),
    {
        proof {
            use_type_invariant(self);
        }
        self.cells.as_slice()
    }

    /// The flat index of the cell at `(row, column)`.
    pub fn get_index(&self, row: u32, column: u32) -> (index: usize)
        requires
            row < self@.height,
            column < self@.width,
        ensures
            index == self@.index(row as int, column as int),
            index < self@.cells.len(),
    {
        proof {
            use_type_invariant(self);
            lemma_index_round_trip(self@, row as int, column as int);
        }
        (row * self.width + column) as usize
    }

    /// 1 if the cell reached from `(row, column)` by the given offsets is
    /// alive, and 0 otherwise.
    fn live_at(&self, row: u32, column: u32, row_offset: i8, column_offset: i8) -> (live: u8)
        requires
            row < self@.height,
            column < self@.width,
            -1 <= row_offset <= 1,
            -1 <= column_offset <= 1,
        ensures
            live == self@.live(row as int, column as int, row_offset as int, column_offset as int),
            live <= 1,
    {
        let r = wrap(row, row_offset, self.height);
        let c = wrap(column, column_offset, self.width);
        let index = self.get_index(r, c);
        match self.cells[index] {
            Cell::Alive => 1,
            Cell::Dead => 0,
        }
    }

    /// The number of live cells among the eight neighbors of the cell at
    /// `(row, column)`, the grid wrapping around at its edges.
    pub fn get_live_neighbor_count(&self, row: u32, column: u32) -> (count: u8)
        requires
            row < self@.height,
            column < self@.width,
        ensures
            count == self@.live_neighbors(row as int, column as int),
            count <= 8,
    {
        let above = self.live_at(row, column, -1, -1) + self.live_at(row, column, -1, 0)
            + self.live_at(row, column, -1, 1);
        let beside = self.live_at(row, column, 0, -1) + self.live_at(row, column, 0, 1);
        let below = self.live_at(row, column, 1, -1) + self.live_at(row, column, 1, 0)
            + self.live_at(row, column, 1, 1);
        above + beside + below
    }

    /// Advances the universe by one generation. The next generation is built
    /// in a buffer of its own, so every cell changes according to the neighbors
    /// it had before the call.
    pub fn tick(&mut self)
        ensures
            final(self)@ == old(self)@.step(),
            final(self)@.wf(),
    {
        proof {
            use_type_invariant(&*self);
        }
        let mut next: Vec<Cell> = Vec::new();
        let mut row: u32 = 0;
        while row < self.height
            invariant
                *self == *old(self),
                self.cells@.len() == self.width * self.height,
                self.width * self.height <= u32::MAX,
                row <= self.height,
                next@.len() == row * self.width,
                forall|i: int| 0 <= i < next@.len() ==> next@[i] == self@.next_cell(i),
            decreases self.height - row,
        {
            let mut column: u32 = 0;
            while column < self.width
                invariant
                    *self == *old(self),
                    self.cells@.len() == self.width * self.height,
                    self.width * self.height <= u32::MAX,
                    row < self.height,
                    column <= self.width,
                    next@.len() == row * self.width + column,
                    forall|i: int| 0 <= i < next@.len() ==> next@[i] == self@.next_cell(i),
                decreases self.width - column,
            {
                let index = self.get_index(row, column);
                let state = self.cells[index];
                let count = self.get_live_neighbor_count(row, column);
                let next_state = match (state, count) {
                    (Cell::Alive, count) if count < 2 => Cell::Dead,
                    (Cell::Alive, 2) | (Cell::Alive, 3) => Cell::Alive,
                    (Cell::Alive, count) if count > 3 => Cell::Dead,
                    (Cell::Dead, 3) => Cell::Alive,
                    (state, _) => state,
                };
                proof {
                    lemma_index_round_trip(self@, row as int, column as int);
                }
                next.push(next_state);
                column += 1;
            }
            assert((row + 1) * self.width == row * self.width + self.width) by (nonlinear_arith);
            row += 1;
        }
        assert(self.height * self.width == self.width * self.height) by (nonlinear_arith);
        assert(next@ =~= self@.step().cells);
        self.cells = next;
    }

    /// The grid as text: one line per row, two characters per cell, and a
    /// newline at the end of every line.
    pub fn render(&self) -> (text: String)
        ensures
            text@ == self@.text(),
    {
        proof {
            use_type_invariant(self);
        }
        let mut text = String::new();
        let mut row: u32 = 0;
        while row < self.height
            invariant
                self.cells@.len() == self.width * self.height,
                self.width * self.height <= u32::MAX,
                row <= self.height,
                text@ == self@.lines(row as nat),
            decreases self.height - row,
        {
            let mut column: u32 = 0;
            while column < self.width
                invariant
                    self.cells@.len() == self.width * self.height,
                    self.width * self.height <= u32::MAX,
                    row < self.height,
                    column <= self.width,
                    text@ == self@.lines(row as nat) + self@.row_text(row as int, column as nat),
                decreases self.width - column,
            {
                let index = self.get_index(row, column);
                let symbol = match self.cells[index] {
                    Cell::Dead => "░░",
                    Cell::Alive => "██",
                };
                proof {
                    reveal_strlit("░░");
                    reveal_strlit("██");
                    assert(symbol@ =~= self@.at(row as int, column as int).glyph());
                }
                text.append(symbol);
                column += 1;
            }
            proof {
                reveal_strlit("\n");
                assert("\n"@ =~= seq!['\n']);
            }
            text.append("\n");
            row += 1;
        }
        text
    }
}

} // verus!
