//! What holds of every grid: the shape is kept from generation to generation,
//! each cell follows the rule of Life, and a block of four live cells is stable.

use vstd::prelude::*;
use vstd::arithmetic::div_mod::lemma_fundamental_div_mod_converse;
use crate::cell::Cell;
use crate::grid::{lemma_index_round_trip, lemma_wrapped, wrapped, Grid};
use crate::universe::Universe;

verus! {

/// The rule of Life case by case: a live cell dies with fewer than two or more
/// than three live neighbors and survives with two or three; a dead cell comes
/// alive with exactly three and stays dead otherwise.
pub proof fn lemma_rule_cases(state: Cell, live_neighbors: int)
    ensures
        state == Cell::Alive && live_neighbors < 2 ==> state.next(live_neighbors) == Cell::Dead,
        state == Cell::Alive && (live_neighbors == 2 || live_neighbors == 3) ==> state.next(
            live_neighbors,
        ) == Cell::Alive,
        state == Cell::Alive && live_neighbors > 3 ==> state.next(live_neighbors) == Cell::Dead,
        state == Cell::Dead && live_neighbors == 3 ==> state.next(live_neighbors) == Cell::Alive,
        state == Cell::Dead && live_neighbors != 3 ==> state.next(live_neighbors) == state,
{
}

/// The grid has no edges: one position before the first is the last, one
/// position after the last is the first, and everywhere else a move is plain
/// addition.
pub proof fn lemma_ring_closes(coordinate: int, offset: int, size: int)
    requires
        0 <= coordinate < size,
        -size <= offset <= size,
    ensures
        wrapped(coordinate, offset, size) == if coordinate + offset < 0 {
            coordinate + offset + size
        } else if coordinate + offset >= size {
            coordinate + offset - size
        } else {
            coordinate + offset
        },
{
    let moved = coordinate + offset;
    if moved < 0 {
        lemma_fundamental_div_mod_converse(moved + size, size, 0, moved + size);
    } else if moved >= size {
        lemma_fundamental_div_mod_converse(moved + size, size, 2, moved - size);
    } else {
        lemma_fundamental_div_mod_converse(moved + size, size, 1, moved);
    }
}

/// One step changes the cell at every position inside the grid by the rule,
/// applied to the live neighbors that the cell had before the step.
pub proof fn lemma_step_at(grid: Grid, row: int, column: int)
    requires
        grid.wf(),
        0 <= row < grid.height,
        0 <= column < grid.width,
    ensures
        grid.step().at(row, column) == grid.at(row, column).next(grid.live_neighbors(row, column)),
{
    lemma_index_round_trip(grid, row, column);
}

/// One step keeps the dimensions and the number of cells.
pub proof fn lemma_step_keeps_shape(grid: Grid)
    ensures
        grid.step().width == grid.width,
        grid.step().height == grid.height,
        grid.step().cells.len() == grid.cells.len(),
        grid.wf() ==> grid.step().wf(),
{
}

/// Any number of steps keeps the dimensions and the number of cells.
pub proof fn lemma_after_keeps_shape(grid: Grid, generations: nat)
    ensures
        grid.after(generations).width == grid.width,
        grid.after(generations).height == grid.height,
        grid.after(generations).cells.len() == grid.cells.len(),
        grid.wf() ==> grid.after(generations).wf(),
    decreases generations,
{
    if generations > 0 {
        lemma_after_keeps_shape(grid, (generations - 1) as nat);
        lemma_step_keeps_shape(grid.after((generations - 1) as nat));
    }
}

/// The size invariant: a seeded grid, and the grid any number of generations
/// after it, holds exactly `width * height` cells.
pub proof fn lemma_size_invariant(width: nat, height: nat, generations: nat)
    ensures
        Grid::seeded(width, height).wf(),
        Grid::seeded(width, height).after(generations).wf(),
        Grid::seeded(width, height).after(generations).width == width,
        Grid::seeded(width, height).after(generations).height == height,
        Grid::seeded(width, height).after(generations).cells.len() == width * height,
{
    lemma_after_keeps_shape(Grid::seeded(width, height), generations);
}

/// Seeding is deterministic: two universes that were created with the same
/// dimensions hold the same grid.
pub proof fn lemma_seeding_is_deterministic(
    first: Universe,
    second: Universe,
    width: u32,
    height: u32,
)
    requires
        first@ == Grid::seeded(width as nat, height as nat),
        second@ == Grid::seeded(width as nat, height as nat),
    ensures
        first@ == second@,
{
}

/// Death from isolation: a live cell without a live neighbor is dead after
/// one step.
pub proof fn lemma_isolated_cell_dies(grid: Grid, row: int, column: int)
    requires
        grid.wf(),
        0 <= row < grid.height,
        0 <= column < grid.width,
        grid.at(row, column) == Cell::Alive,
        grid.live_neighbors(row, column) == 0,
    ensures
        grid.step().at(row, column) == Cell::Dead,
{
    lemma_step_at(grid, row, column);
}

/// Birth: a dead cell is alive after one step exactly when three of its
/// neighbors are alive.
pub proof fn lemma_birth_needs_three(grid: Grid, row: int, column: int)
    requires
        grid.wf(),
        0 <= row < grid.height,
        0 <= column < grid.width,
        grid.at(row, column) == Cell::Dead,
    ensures
        grid.step().at(row, column) == Cell::Alive <==> grid.live_neighbors(row, column) == 3,
{
    lemma_step_at(grid, row, column);
}

/// The cell reached from `(row, column)` by the given offsets on the torus.
pub open spec fn cell_from(grid: Grid, row: int, column: int, row_offset: int, column_offset: int) -> Cell {
    grid.at(
        wrapped(row, row_offset, grid.height as int),
        wrapped(column, column_offset, grid.width as int),
    )
}

/// The grid holds a block of four live cells whose upper left corner is at
/// `(row, column)`, and the twelve cells around the block are dead. Positions
/// are taken on the torus, so the block may lie across an edge. On a grid too
/// small to hold the block and its surroundings side by side, a cell would
/// have to be alive and dead at once, and no block is lone.
pub open spec fn has_lone_block(grid: Grid, row: int, column: int) -> bool {
    forall|i: int, j: int|
        -1 <= i <= 2 && -1 <= j <= 2 ==> #[trigger] cell_from(grid, row, column, i, j) == if 0 <= i
            <= 1 && 0 <= j <= 1 {
            Cell::Alive
        } else {
            Cell::Dead
        }
}

/// The neighbor of a cell of the block, seen from the block's corner.
proof fn lemma_live_from_corner(grid: Grid, row: int, column: int, i: int, j: int, di: int, dj: int)
    requires
        0 < grid.height,
        0 < grid.width,
    ensures
        grid.live(
            wrapped(row, i, grid.height as int),
            wrapped(column, j, grid.width as int),
            di,
            dj,
        ) == if cell_from(grid, row, column, i + di, j + dj) == Cell::Alive {
            1int
        } else {
            0int
        },
{
    lemma_wrapped(row, i, di, grid.height as int);
    lemma_wrapped(column, j, dj, grid.width as int);
}

/// Each cell of a lone block has exactly three live neighbors.
proof fn lemma_block_cell_has_three(grid: Grid, row: int, column: int, i: int, j: int)
    requires
        0 < grid.height,
        0 < grid.width,
        has_lone_block(grid, row, column),
        0 <= i <= 1,
        0 <= j <= 1,
    ensures
        grid.live_neighbors(
            wrapped(row, i, grid.height as int),
            wrapped(column, j, grid.width as int),
        ) == 3,
{
    lemma_live_from_corner(grid, row, column, i, j, -1, -1);
    lemma_live_from_corner(grid, row, column, i, j, -1, 0);
    lemma_live_from_corner(grid, row, column, i, j, -1, 1);
    lemma_live_from_corner(grid, row, column, i, j, 0, -1);
    lemma_live_from_corner(grid, row, column, i, j, 0, 1);
    lemma_live_from_corner(grid, row, column, i, j, 1, -1);
    lemma_live_from_corner(grid, row, column, i, j, 1, 0);
    lemma_live_from_corner(grid, row, column, i, j, 1, 1);
}

/// Still life: the four cells of a lone block are alive after one step.
pub proof fn lemma_block_is_stable(grid: Grid, row: int, column: int)
    requires
        grid.wf(),
        0 <= row < grid.height,
        0 <= column < grid.width,
        has_lone_block(grid, row, column),
    ensures
        forall|i: int, j: int|
            0 <= i <= 1 && 0 <= j <= 1 ==> #[trigger] cell_from(grid.step(), row, column, i, j)
                == Cell::Alive,
{
    assert forall|i: int, j: int| 0 <= i <= 1 && 0 <= j <= 1 implies #[trigger] cell_from(
        grid.step(),
        row,
        column,
        i,
        j,
    ) == Cell::Alive by {
        let r = wrapped(row, i, grid.height as int);
        let c = wrapped(column, j, grid.width as int);
        lemma_wrapped(row, i, 0, grid.height as int);
        lemma_wrapped(column, j, 0, grid.width as int);
        lemma_block_cell_has_three(grid, row, column, i, j);
        lemma_step_at(grid, r, c);
        assert(cell_from(grid, row, column, i, j) == Cell::Alive);
    }
}

/// The text of a grid has one line per row, and each line holds two
/// characters per column and a newline.
pub proof fn lemma_text_len(grid: Grid)
    ensures
        grid.text().len() == grid.height * (2 * grid.width + 1),
{
    lemma_lines_len(grid, grid.height);
}

/// The first `columns` cells of a row take two characters each.
proof fn lemma_row_text_len(grid: Grid, row: int, columns: nat)
    ensures
        grid.row_text(row, columns).len() == 2 * columns,
    decreases columns,
{
    if columns > 0 {
        lemma_row_text_len(grid, row, (columns - 1) as nat);
    }
}

/// The first `rows` lines take `2 * width + 1` characters each.
proof fn lemma_lines_len(grid: Grid, rows: nat)
    ensures
        grid.lines(rows).len() == rows * (2 * grid.width + 1),
    decreases rows,
{
    let line_len = 2 * grid.width + 1;
    if rows > 0 {
        lemma_lines_len(grid, (rows - 1) as nat);
        lemma_row_text_len(grid, rows - 1, grid.width);
        assert(rows * line_len == (rows - 1) * line_len + line_len) by (nonlinear_arith);
    } else {
        assert(rows * line_len == 0) by (nonlinear_arith)
            requires
                rows == 0,
        ;
    }
}

} // verus!
