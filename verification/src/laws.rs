//! What holds of the grid's operations taken together, proved from their
//! contracts and from the model.

use crate::model::{cell_index, dead_cells, lemma_cell_index, live_at, live_neighbors, wrapped};
use crate::universe::{snapshot, Cell, Universe};
use vstd::arithmetic::div_mod::{
    lemma_fundamental_div_mod_converse, lemma_mod_self_0, lemma_small_mod,
};
use vstd::prelude::*;

verus! {

/// Every grid that an operation leaves behind holds `width * height` cells,
/// and so does the snapshot that `get_cells` takes of it.
pub proof fn lemma_cell_count(universe: Universe)
    requires
        universe.wf(),
    ensures
        universe@.len() == universe.width() * universe.height(),
        snapshot(universe@).len() == universe.width() * universe.height(),
{
}

/// `tick` is a function of the generation before it: from two grids with the
/// same dimensions and the same cells it makes two grids with the same
/// dimensions and the same cells.
pub proof fn lemma_tick_deterministic(
    first: Universe,
    first_next: Universe,
    second: Universe,
    second_next: Universe,
)
    requires
        first.same_grid(second),
        first_next.is_tick_of(first),
        second_next.is_tick_of(second),
    ensures
        first_next.same_grid(second_next),
{
}

/// The rule that `tick` applies to the cell in `row` and `column`: a live
/// cell with two or three live neighbours stays alive, a dead cell with
/// exactly three comes alive, and in every other case the cell is dead
/// afterwards: a live cell with fewer than two or more than three live
/// neighbours dies, and a dead cell without exactly three stays dead.
pub proof fn lemma_tick_rule(before: Universe, after: Universe, row: int, column: int)
    requires
        before.wf(),
        after.is_tick_of(before),
        0 <= row < before.height(),
        0 <= column < before.width(),
    ensures
        ({
            let i = cell_index(before.width() as int, row, column);
            let n = live_neighbors(
                before@,
                before.width() as int,
                before.height() as int,
                row,
                column,
            );
            &&& 0 <= i < after@.len()
            &&& before@[i] && (n == 2 || n == 3) ==> after@[i]
            &&& !before@[i] && n == 3 ==> after@[i]
            &&& before@[i] && n < 2 ==> !after@[i]
            &&& before@[i] && n > 3 ==> !after@[i]
            &&& !before@[i] && n != 3 ==> !after@[i]
        }),
{
    lemma_cell_index(before.width() as int, before.height() as int, row, column);
}

/// No cell has more than eight live neighbours.
pub proof fn lemma_live_neighbors_bounds(
    cells: Seq<bool>,
    width: int,
    height: int,
    row: int,
    column: int,
)
    ensures
        0 <= live_neighbors(cells, width, height, row, column) <= 8,
{
}

/// The grid wraps around: a cell in the top row counts the cell of its
/// column in the bottom row among its neighbours, a cell in the bottom row
/// the one in the top row, a cell in the leftmost column the cell of its row
/// in the rightmost column, and a cell in the rightmost column the one in
/// the leftmost. Wherever that cell across the edge is alive, the count is at
/// least 1.
pub proof fn lemma_neighbors_wrap(cells: Seq<bool>, width: int, height: int, row: int, column: int)
    requires
        cells.len() == width * height,
        0 <= row < height,
        0 <= column < width,
    ensures
        row == 0 && cells[cell_index(width, height - 1, column)] ==> live_neighbors(
            cells,
            width,
            height,
            row,
            column,
        ) >= 1,
        row == height - 1 && cells[cell_index(width, 0, column)] ==> live_neighbors(
            cells,
            width,
            height,
            row,
            column,
        ) >= 1,
        column == 0 && cells[cell_index(width, row, width - 1)] ==> live_neighbors(
            cells,
            width,
            height,
            row,
            column,
        ) >= 1,
        column == width - 1 && cells[cell_index(width, row, 0)] ==> live_neighbors(
            cells,
            width,
            height,
            row,
            column,
        ) >= 1,
{
    lemma_wrapping(row, height);
    lemma_wrapping(column, width);
}

/// On a grid of at least two rows and two columns the neighbour count is the
/// number of live cells among the eight cells one step away, where a step
/// off an edge of the grid arrives on the opposite edge.
pub proof fn lemma_neighbors_on_torus(
    cells: Seq<bool>,
    width: int,
    height: int,
    row: int,
    column: int,
)
    requires
        cells.len() == width * height,
        height >= 2,
        width >= 2,
        0 <= row < height,
        0 <= column < width,
    ensures
        live_neighbors(cells, width, height, row, column) == live_at(
            cells,
            width,
            height,
            row - 1,
            column - 1,
        ) + live_at(cells, width, height, row - 1, column) + live_at(
            cells,
            width,
            height,
            row - 1,
            column + 1,
        ) + live_at(cells, width, height, row, column - 1) + live_at(
            cells,
            width,
            height,
            row,
            column + 1,
        ) + live_at(cells, width, height, row + 1, column - 1) + live_at(
            cells,
            width,
            height,
            row + 1,
            column,
        ) + live_at(cells, width, height, row + 1, column + 1),
{
    lemma_wrapping(row, height);
    lemma_wrapping(column, width);
}

/// Remainders of the positions one step before and after `pos` on an axis
/// of `extent` cells, where the step before is taken as `extent - 1`.
proof fn lemma_wrapping(pos: int, extent: int)
    requires
        0 <= pos < extent,
    ensures
        pos % extent == pos,
        (pos + 1) % extent == wrapped(pos + 1, extent),
        (pos + (extent - 1)) % extent == wrapped(pos - 1, extent),
{
    lemma_small_mod(pos as nat, extent as nat);
    if pos + 1 < extent {
        lemma_small_mod((pos + 1) as nat, extent as nat);
    } else {
        lemma_mod_self_0(extent);
    }
    if pos == 0 {
        lemma_small_mod((extent - 1) as nat, extent as nat);
    } else {
        lemma_fundamental_div_mod_converse(pos + (extent - 1), extent, 1, pos - 1);
    }
}

/// A grid of dead cells shows as many `Cell::Dead` as it has cells. This is
/// what `get_cells` returns after `kill_all_cells`, where `len` is
/// `width * height`, and after `set_width` or `set_height`, where `len` is
/// the new dimension times the one that was kept.
pub proof fn lemma_dead_snapshot(len: int)
    requires
        0 <= len,
    ensures
        snapshot(dead_cells(len)).len() == len,
        forall|i: int| 0 <= i < len ==> snapshot(dead_cells(len))[i] == Cell::Dead,
        snapshot(dead_cells(len)) == Seq::new(len as nat, |i: int| Cell::Dead),
{
    assert(snapshot(dead_cells(len)) =~= Seq::new(len as nat, |i: int| Cell::Dead));
}

} // verus!
