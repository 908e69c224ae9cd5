//! The mathematical model of the game: row-major addressing, toroidal
//! neighbour counting and the transition rule, over sequences of cell states.
//!
//! A grid is a `Seq<bool>` of `width * height` cells in row-major order,
//! `true` for a live cell.

use vstd::arithmetic::div_mod::lemma_fundamental_div_mod_converse;
use vstd::prelude::*;

verus! {

/// The row-major position of the cell in `row` and `column` of a grid that
/// is `width` cells wide.
pub open spec fn cell_index(width: int, row: int, column: int) -> int {
    row * width + column
}

/// A grid of `len` dead cells.
pub open spec fn dead_cells(len: int) -> Seq<bool> {
    Seq::new(len as nat, |i: int| false)
}

/// 1 if the cell that `row` and `column` wrap around to is alive, else 0.
/// Rows wrap modulo `height` and columns modulo `width`: the grid is a torus.
pub open spec fn alive_at(cells: Seq<bool>, width: int, height: int, row: int, column: int) -> int {
    if cells[cell_index(width, row % height, column % width)] {
        1
    } else {
        0
    }
}

/// The position on an axis of `extent` cells that a step from inside the
/// axis arrives at: a step off either end arrives at the other end.
pub open spec fn wrapped(pos: int, extent: int) -> int {
    if pos < 0 {
        pos + extent
    } else if pos >= extent {
        pos - extent
    } else {
        pos
    }
}

/// 1 if the cell in `row` and `column`, each at most one step outside the
/// grid and then wrapped around, is alive, else 0.
pub open spec fn live_at(cells: Seq<bool>, width: int, height: int, row: int, column: int) -> int {
    if cells[cell_index(width, wrapped(row, height), wrapped(column, width))] {
        1
    } else {
        0
    }
}

/// What the cell displaced by `delta_row` and `delta_col` from `row` and
/// `column` adds to the neighbour count. The zero displacement is the cell
/// itself and adds nothing.
pub open spec fn neighbor_term(
    cells: Seq<bool>,
    width: int,
    height: int,
    row: int,
    column: int,
    delta_row: int,
    delta_col: int,
) -> int {
    if delta_row == 0 && delta_col == 0 {
        0
    } else {
        alive_at(cells, width, height, row + delta_row, column + delta_col)
    }
}

/// The live neighbours in the row displaced by `delta_row`: the columns to
/// the left (`width - 1`, which is -1 modulo `width`), the same and the right.
pub open spec fn neighbor_row_sum(
    cells: Seq<bool>,
    width: int,
    height: int,
    row: int,
    column: int,
    delta_row: int,
) -> int {
    neighbor_term(cells, width, height, row, column, delta_row, width - 1) + neighbor_term(
        cells,
        width,
        height,
        row,
        column,
        delta_row,
        0,
    ) + neighbor_term(cells, width, height, row, column, delta_row, 1)
}

/// The number of live cells among the neighbours of the cell in `row` and
/// `column`: the rows above (`height - 1`, which is -1 modulo `height`), the
/// same and below, each with its three columns, without the cell itself.
pub open spec fn live_neighbors(
    cells: Seq<bool>,
    width: int,
    height: int,
    row: int,
    column: int,
) -> int {
    neighbor_row_sum(cells, width, height, row, column, height - 1) + neighbor_row_sum(
        cells,
        width,
        height,
        row,
        column,
        0,
    ) + neighbor_row_sum(cells, width, height, row, column, 1)
}

/// The transition rule: a live cell lives on with two or three live
/// neighbours, a dead cell comes alive with exactly three, and every other
/// cell is dead in the next generation.
pub open spec fn next_state(alive: bool, live_neighbors: int) -> bool {
    if alive {
        live_neighbors == 2 || live_neighbors == 3
    } else {
        live_neighbors == 3
    }
}

/// The generation after `cells`: the rule applied to every cell at once, each
/// reading its neighbours in `cells` alone.
pub open spec fn next_generation(cells: Seq<bool>, width: int, height: int) -> Seq<bool> {
    Seq::new(
        cells.len(),
        |i: int| next_state(cells[i], live_neighbors(cells, width, height, i / width, i % width)),
    )
}

/// Where a glider asked for at `pos` is centred along an axis of `extent`
/// cells: the pattern is three cells across, so a centre on either edge moves
/// one cell inward.
pub open spec fn glider_anchor(pos: int, extent: int) -> int {
    if pos == 0 {
        1
    } else if pos >= extent - 1 {
        pos - 1
    } else {
        pos
    }
}

/// Where a pulsar asked for at `pos` is centred along an axis of `extent`
/// cells: a centre on the near edge moves six cells inward, and a centre
/// among the last seven cells moves to the seventh from the far edge.
pub open spec fn pulsar_anchor(pos: int, extent: int) -> int {
    if pos == 0 {
        6
    } else if pos >= extent - 7 {
        extent - 7
    } else {
        pos
    }
}

/// The glider, as a three-by-three pattern: `x` counts its rows from the top
/// and `y` its columns from the left. Alive are the leftmost cell of the top
/// row, the rightmost cell of the middle row and the whole bottom row.
pub open spec fn glider_shape(x: int, y: int) -> bool {
    (x == 0 && y == 0) || (x == 1 && y == 2) || x == 2
}

/// The row of the cell at index `i` within the three-by-three window centred
/// on `row`, counted from the window's top.
pub open spec fn window_x(width: int, row: int, i: int) -> int {
    i / width - (row - 1)
}

/// The column of the cell at index `i` within the three-by-three window
/// centred on `column`, counted from the window's left.
pub open spec fn window_y(width: int, column: int, i: int) -> int {
    i % width - (column - 1)
}

/// The cell at index `i` is among the first `done` cells, in row-major
/// order, of the three-by-three window centred on `row` and `column`.
pub open spec fn in_window(width: int, row: int, column: int, i: int, done: int) -> bool {
    let x = window_x(width, row, i);
    let y = window_y(width, column, i);
    0 <= x < 3 && 0 <= y < 3 && 3 * x + y < done
}

/// The grid `cells` after the first `done` cells of a glider centred on
/// `row` and `column` have been written over it.
pub open spec fn with_glider_cells(
    cells: Seq<bool>,
    width: int,
    row: int,
    column: int,
    done: int,
) -> Seq<bool> {
    Seq::new(
        cells.len(),
        |i: int|
            if in_window(width, row, column, i, done) {
                glider_shape(window_x(width, row, i), window_y(width, column, i))
            } else {
                cells[i]
            },
    )
}

/// The grid `cells` with a glider centred on `row` and `column`: the nine
/// cells of the window take the glider's shape, dead cells included, and
/// every cell outside it stays as it is.
pub open spec fn with_glider(cells: Seq<bool>, width: int, row: int, column: int) -> Seq<bool> {
    with_glider_cells(cells, width, row, column, 9)
}

/// The grid `cells` after the first `done` cells of the three-by-three window
/// centred on `row` and `column` have been set to alive.
pub open spec fn with_block_cells(
    cells: Seq<bool>,
    width: int,
    row: int,
    column: int,
    done: int,
) -> Seq<bool> {
    Seq::new(cells.len(), |i: int| in_window(width, row, column, i, done) || cells[i])
}

/// The grid `cells` with the three-by-three window centred on `row` and
/// `column` filled with live cells.
pub open spec fn with_block(cells: Seq<bool>, width: int, row: int, column: int) -> Seq<bool> {
    with_block_cells(cells, width, row, column, 9)
}

/// Inside the grid, the cell in row `x` and column `y` of the window centred
/// on `row` and `column` is the only cell with those window coordinates.
pub proof fn lemma_window_cell(width: int, height: int, row: int, column: int, x: int, y: int)
    requires
        0 <= row + x - 1 < height,
        0 <= column + y - 1 < width,
    ensures
        forall|i: int|
            0 <= i < width * height ==> ((window_x(width, row, i) == x && window_y(
                width,
                column,
                i,
            ) == y) <==> i == cell_index(width, row + x - 1, column + y - 1)),
{
    let target = cell_index(width, row + x - 1, column + y - 1);
    lemma_cell_index(width, height, row + x - 1, column + y - 1);
    assert forall|i: int| 0 <= i < width * height implies ((window_x(width, row, i) == x
        && window_y(width, column, i) == y) <==> i == target) by {
        lemma_index_cell(width, height, i);
    }
}

/// Entry `k` of `named` names the cell at index `i`.
pub open spec fn names_at(named: Seq<(u32, u32)>, width: int, i: int, k: int) -> bool {
    0 <= k < named.len() && cell_index(width, named[k].0 as int, named[k].1 as int) == i
}

/// Some entry of `named`, each a pair of row and column, names the cell at
/// index `i`.
pub open spec fn names(named: Seq<(u32, u32)>, width: int, i: int) -> bool {
    exists|k: int| names_at(named, width, i, k)
}

/// The grid `cells` with every cell that `named` names set to alive.
pub open spec fn with_alive(cells: Seq<bool>, width: int, named: Seq<(u32, u32)>) -> Seq<bool> {
    Seq::new(cells.len(), |i: int| cells[i] || names(named, width, i))
}

/// A cell inside the grid has its index inside the grid, and row and column
/// are recovered from the index by division and remainder.
pub proof fn lemma_cell_index(width: int, height: int, row: int, column: int)
    requires
        0 <= row < height,
        0 <= column < width,
    ensures
        0 <= cell_index(width, row, column) < width * height,
        cell_index(width, row, column) / width == row,
        cell_index(width, row, column) % width == column,
{
    assert(0 <= row * width && row * width + width <= height * width) by (nonlinear_arith)
        requires
            0 <= row < height,
            0 < width,
    ;
    assert(height * width == width * height) by (nonlinear_arith);
    lemma_fundamental_div_mod_converse(cell_index(width, row, column), width, row, column);
}

/// Every index inside the grid is the index of one cell inside the grid.
pub proof fn lemma_index_cell(width: int, height: int, i: int)
    requires
        0 < width,
        0 <= i < width * height,
    ensures
        0 <= i / width < height,
        0 <= i % width < width,
        cell_index(width, i / width, i % width) == i,
{
    vstd::arithmetic::div_mod::lemma_fundamental_div_mod(i, width);
    assert(0 <= i / width < height) by (nonlinear_arith)
        requires
            0 < width,
            0 <= i < width * height,
            i == width * (i / width) + i % width,
            0 <= i % width < width,
    ;
    assert(width * (i / width) == (i / width) * width) by (nonlinear_arith);
}

} // verus!
