//! The grid and its operations.

use crate::bitset::{
    bit_seq, bitset_as_slice, bitset_clone, bitset_get, bitset_len, bitset_set,
    bitset_with_capacity, packed_bit,
};
use crate::model::{
    cell_index, dead_cells, glider_anchor, lemma_cell_index, lemma_window_cell, live_neighbors,
    names, names_at, neighbor_row_sum, neighbor_term, next_generation, next_state, pulsar_anchor,
    with_alive, with_block, with_block_cells, with_glider, with_glider_cells,
};
use fixedbitset::FixedBitSet;
use vstd::prelude::*;

verus! {

/// The state of one cell.
#[derive(Clone, Copy, Debug, PartialEq, Eq, Structural)]
pub enum Cell {
    Dead,
    Alive,
}

/// The state of a cell whose bit is `alive`.
pub open spec fn cell_state(alive: bool) -> Cell {
    if alive {
        Cell::Alive
    } else {
        Cell::Dead
    }
}

/// The cell states that a grid shows to a reader: one `Cell` for each bit,
/// in the same order.
pub open spec fn snapshot(cells: Seq<bool>) -> Seq<Cell> {
    Seq::new(cells.len(), |i: int| cell_state(cells[i]))
}

/// A toroidal grid of cells, `width` columns by `height` rows.
///
/// The grid always holds exactly `width * height` cells, and that number
/// fits the 32-bit index type: every constructor establishes this and every
/// operation keeps it.
pub struct Universe {
    width: u32,
    height: u32,
    cells: FixedBitSet,
}

impl View for Universe {
    type V = Seq<bool>;

    /// The cell states in row-major order, `true` for a live cell.
    closed spec fn view(&self) -> Seq<bool> {
        bit_seq(self.cells)
    }
}

impl Universe {
    /// The number of columns.
    pub closed spec fn spec_width(&self) -> u32 {
        self.width
    }

    /// The number of rows.
    pub closed spec fn spec_height(&self) -> u32 {
        self.height
    }

    /// The grid holds exactly `width * height` cells, and no more than the
    /// 32-bit index type can address.
    #[verifier::type_invariant]
    pub open spec fn wf(&self) -> bool {
        &&& self.width() * self.height() <= u32::MAX
        &&& self@.len() == self.width() * self.height()
    }

    /// This grid has the dimensions and the cells of `other`.
    pub open spec fn same_grid(&self, other: Universe) -> bool {
        &&& self.width() == other.width()
        &&& self.height() == other.height()
        &&& self@ == other@
    }

    /// This grid is what one `tick` makes of `before`: the dimensions are
    /// kept, and the cells are those of the generation after `before`.
    pub open spec fn is_tick_of(&self, before: Universe) -> bool {
        &&& self.width() == before.width()
        &&& self.height() == before.height()
        &&& self@ == next_generation(before@, before.width() as int, before.height() as int)
    }

    /// The number of columns.
    #[verifier::when_used_as_spec(spec_width)]
    pub fn width(&self) -> (width: u32)
        ensures
            width == self.width(),
    {
        self.width
    }

    /// The number of rows.
    #[verifier::when_used_as_spec(spec_height)]
    pub fn height(&self) -> (height: u32)
        ensures
            height == self.height(),
    {
        self.height
    }

    /// A grid of 64 by 64 cells, seeded from `flips`: one coin flip for each
    /// cell in row-major order, `true` for a live cell. The flips are the
    /// caller's: the grid draws no random numbers itself.
    pub fn new(flips: &[bool]) -> (universe: Universe)
        requires
            flips@.len() == 64 * 64,
        ensures
            universe.width() == 64,
            universe.height() == 64,
            universe@ == flips@,
            universe.wf(),
    {
        let width: u32 = 64;
        let height: u32 = 64;

        let cells = Universe::make_random_cells(width, height, flips);

        Universe { width, height, cells }
    }

    /// The packed storage behind the grid, for reading without a copy: cell
    /// `i` is bit `i % 32`, counted from the least significant, of block
    /// `i / 32`. The borrow ends before the grid can change again.
    pub fn cells(&self) -> (blocks: &[u32])
        ensures
            blocks@.len() == (self@.len() + 31) / 32,
            forall|i: int| 0 <= i < self@.len() ==> #[trigger] packed_bit(blocks@, i) == self@[i],
    {
        bitset_as_slice(&self.cells)
    }

    /// Advances the grid by one generation. Every cell of the new generation
    /// is computed from the old one alone: the new cells are built in a
    /// second buffer, which then replaces the old.
    pub fn tick(&mut self)
        ensures
            final(self).is_tick_of(*old(self)),
            final(self).wf(),
    {
        proof {
            use_type_invariant(&*self);
        }
        let ghost w = self.width as int;
        let ghost h = self.height as int;
        let ghost prev = self@;
        let mut next = bitset_clone(&self.cells);

        let mut row: u32 = 0;
        while row < self.height
            invariant
                self.wf(),
                self@ == prev,
                w == self.width,
                h == self.height,
                row <= self.height,
                bit_seq(next).len() == prev.len(),
                forall|i: int|
                    0 <= i < row * w ==> bit_seq(next)[i] == #[trigger] next_generation(
                        prev,
                        w,
                        h,
                    )[i],
            decreases self.height - row,
        {
            let mut column: u32 = 0;
            while column < self.width
                invariant
                    self.wf(),
                    self@ == prev,
                    w == self.width,
                    h == self.height,
                    row < self.height,
                    column <= self.width,
                    bit_seq(next).len() == prev.len(),
                    forall|i: int|
                        0 <= i < row * w + column ==> bit_seq(next)[i]
                            == #[trigger] next_generation(prev, w, h)[i],
                decreases self.width - column,
            {
                let index = self.get_index(row, column);
                let cell = bitset_get(&self.cells, index);
                let live_neighbors = self.live_neighbor_count(row, column);
                proof {
                    lemma_cell_index(w, h, row as int, column as int);
                }

                let next_cell = match (cell, live_neighbors) {
                    // A live cell with fewer than two live neighbours dies,
                    // as if by underpopulation.
                    (true, x) if x < 2 => false,
                    // A live cell with two or three live neighbours lives on.
                    (true, 2) | (true, 3) => true,
                    // A live cell with more than three live neighbours dies,
                    // as if by overpopulation.
                    (true, x) if x > 3 => false,
                    // A dead cell with exactly three live neighbours comes
                    // alive, as if by reproduction.
                    (false, 3) => true,
                    // Every other cell stays as it is.
                    (otherwise, _) => otherwise,
                };
                assert(next_cell == next_state(cell, live_neighbors as int));
                bitset_set(&mut next, index, next_cell);
                column += 1;
            }
            assert(row * w + w == (row + 1) * w) by (nonlinear_arith);
            row += 1;
        }

        assert(self.height * w == prev.len()) by (nonlinear_arith)
            requires
                prev.len() == w * self.height,
        ;
        assert(bit_seq(next) =~= next_generation(prev, w, h));
        self.cells = next;
    }

    /// Flips the state of the cell in `row` and `column`.
    pub fn toggle_cell(&mut self, row: u32, column: u32)
        requires
            row < old(self).height(),
            column < old(self).width(),
        ensures
            final(self).width() == old(self).width(),
            final(self).height() == old(self).height(),
            final(self)@ == old(self)@.update(
                cell_index(old(self).width() as int, row as int, column as int),
                !old(self)@[cell_index(old(self).width() as int, row as int, column as int)],
            ),
            final(self).wf(),
    {
        proof {
            use_type_invariant(&*self);
        }
        let index = self.get_index(row, column);
        let cell = bitset_get(&self.cells, index);
        bitset_set(&mut self.cells, index, !cell);
    }

    /// Seeds every cell anew from `flips`, one coin flip for each cell in
    /// row-major order, keeping the dimensions.
    pub fn randomize_cells(&mut self, flips: &[bool])
        requires
            flips@.len() == old(self).width() * old(self).height(),
        ensures
            final(self).width() == old(self).width(),
            final(self).height() == old(self).height(),
            final(self)@ == flips@,
            final(self).wf(),
    {
        proof {
            use_type_invariant(&*self);
        }
        self.cells = Universe::make_random_cells(self.width, self.height, flips);
    }

    /// Sets every cell to dead, keeping the dimensions.
    pub fn kill_all_cells(&mut self)
        ensures
            final(self).width() == old(self).width(),
            final(self).height() == old(self).height(),
            final(self)@ == dead_cells(old(self).width() * old(self).height()),
            final(self).wf(),
    {
        proof {
            use_type_invariant(&*self);
        }
        let size = (self.width * self.height) as usize;
        self.cells = Universe::make_dead_cells(size);
    }

    /// Writes a glider over the three-by-three window centred on `row` and
    /// `column`. A centre on an edge of the grid is first moved one cell
    /// inward, so that the window lies inside the grid.
    pub fn insert_glider(&mut self, row: u32, column: u32)
        requires
            old(self).height() >= 3,
            old(self).width() >= 3,
            row < old(self).height(),
            column < old(self).width(),
        ensures
            final(self).width() == old(self).width(),
            final(self).height() == old(self).height(),
            final(self)@ == with_glider(
                old(self)@,
                old(self).width() as int,
                glider_anchor(row as int, old(self).height() as int),
                glider_anchor(column as int, old(self).width() as int),
            ),
            final(self).wf(),
    {
        proof {
            use_type_invariant(&*self);
        }
        let corrected_row = {
            if row == 0 {
                row + 1
            } else if row >= (self.height - 1) {
                row - 1
            } else {
                row
            }
        };
        let corrected_column = {
            if column == 0 {
                column + 1
            } else if column >= (self.width - 1) {
                column - 1
            } else {
                column
            }
        };
        let ghost prev = self@;
        let ghost w = self.width as int;
        let ghost h = self.height as int;
        let ghost r = corrected_row as int;
        let ghost c = corrected_column as int;

        let mut x: u32 = 0;
        while x < 3
            invariant
                self.wf(),
                self.width() == old(self).width(),
                self.height() == old(self).height(),
                w == self.width(),
                h == self.height(),
                r == corrected_row,
                c == corrected_column,
                1 <= r < h - 1,
                1 <= c < w - 1,
                x <= 3,
                self@ == with_glider_cells(prev, w, r, c, 3 * x),
            decreases 3 - x,
        {
            let mut y: u32 = 0;
            while y < 3
                invariant
                    self.wf(),
                    self.width() == old(self).width(),
                    self.height() == old(self).height(),
                    w == self.width(),
                    h == self.height(),
                    r == corrected_row,
                    c == corrected_column,
                    1 <= r < h - 1,
                    1 <= c < w - 1,
                    x < 3,
                    y <= 3,
                    self@ == with_glider_cells(prev, w, r, c, 3 * x + y),
                decreases 3 - y,
            {
                let index = self.get_index((corrected_row + x) - 1, (corrected_column + y) - 1);
                let is_top_edges = x == 0 && y != 0;
                let is_center = x == 1 && y == 1;
                let is_left = x == 1 && y == 0;
                proof {
                    lemma_window_cell(w, h, r, c, x as int, y as int);
                }
                bitset_set(&mut self.cells, index, !is_top_edges && !is_center && !is_left);
                y += 1;
            }
            x += 1;
        }
    }

    /// Fills the three-by-three window centred on `row` and `column` with
    /// live cells. A centre on the near edge of the grid is first moved six
    /// cells inward, and a centre among the last seven rows or columns is
    /// moved to the seventh from the far edge.
    pub fn insert_pulsar(&mut self, row: u32, column: u32)
        requires
            old(self).height() >= 8,
            old(self).width() >= 8,
            row < old(self).height(),
            column < old(self).width(),
        ensures
            final(self).width() == old(self).width(),
            final(self).height() == old(self).height(),
            final(self)@ == with_block(
                old(self)@,
                old(self).width() as int,
                pulsar_anchor(row as int, old(self).height() as int),
                pulsar_anchor(column as int, old(self).width() as int),
            ),
            final(self).wf(),
    {
        proof {
            use_type_invariant(&*self);
        }
        let corrected_row = {
            if row == 0 {
                row + 6
            } else if row >= (self.height - 7) {
                let difference = row - (self.height - 7);
                row - difference
            } else {
                row
            }
        };
        let corrected_column = {
            if column == 0 {
                column + 6
            } else if column >= (self.width - 7) {
                let difference = column - (self.width - 7);
                column - difference
            } else {
                column
            }
        };
        let ghost prev = self@;
        let ghost w = self.width as int;
        let ghost h = self.height as int;
        let ghost r = corrected_row as int;
        let ghost c = corrected_column as int;

        let mut x: u32 = 0;
        while x < 3
            invariant
                self.wf(),
                self.width() == old(self).width(),
                self.height() == old(self).height(),
                w == self.width(),
                h == self.height(),
                r == corrected_row,
                c == corrected_column,
                1 <= r < h - 1,
                1 <= c < w - 1,
                x <= 3,
                self@ == with_block_cells(prev, w, r, c, 3 * x),
            decreases 3 - x,
        {
            let mut y: u32 = 0;
            while y < 3
                invariant
                    self.wf(),
                    self.width() == old(self).width(),
                    self.height() == old(self).height(),
                    w == self.width(),
                    h == self.height(),
                    r == corrected_row,
                    c == corrected_column,
                    1 <= r < h - 1,
                    1 <= c < w - 1,
                    x < 3,
                    y <= 3,
                    self@ == with_block_cells(prev, w, r, c, 3 * x + y),
                decreases 3 - y,
            {
                let index = self.get_index((corrected_row + x) - 1, (corrected_column + y) - 1);
                proof {
                    lemma_window_cell(w, h, r, c, x as int, y as int);
                }
                bitset_set(&mut self.cells, index, true);
                y += 1;
            }
            x += 1;
        }
    }

    /// Sets the width of the grid. Every cell of the resized grid is dead;
    /// the height stays as it is.
    pub fn set_width(&mut self, width: u32)
        requires
            width * old(self).height() <= u32::MAX,
        ensures
            final(self).width() == width,
            final(self).height() == old(self).height(),
            final(self)@ == dead_cells(width * old(self).height()),
            final(self).wf(),
    {
        let size = (width * self.height) as usize;

        *self = Universe { width, height: self.height, cells: Universe::make_dead_cells(size) };
    }

    /// Sets the height of the grid. Every cell of the resized grid is dead;
    /// the width stays as it is.
    pub fn set_height(&mut self, height: u32)
        requires
            height * old(self).width() <= u32::MAX,
        ensures
            final(self).width() == old(self).width(),
            final(self).height() == height,
            final(self)@ == dead_cells(old(self).width() * height),
            final(self).wf(),
    {
        assert(height * self.width == self.width * height) by (nonlinear_arith);
        let size = (height * self.width) as usize;

        *self = Universe { width: self.width, height, cells: Universe::make_dead_cells(size) };
    }

    /// The state of every cell, in row-major order.
    pub fn get_cells(&self) -> (cells: Vec<Cell>)
        ensures
            cells@ == snapshot(self@),
            cells@.len() == self.width() * self.height(),
    {
        proof {
            use_type_invariant(self);
        }
        let mut cells = Vec::new();
        let len = bitset_len(&self.cells);
        let mut index: usize = 0;
        while index < len
            invariant
                len == self@.len(),
                index <= len,
                cells@ == snapshot(self@.take(index as int)),
            decreases len - index,
        {
            if bitset_get(&self.cells, index) {
                cells.push(Cell::Alive)
            } else {
                cells.push(Cell::Dead)
            }
            index += 1;
        }
        cells
    }

    /// Sets the cells named in `cells`, each a pair of row and column, to
    /// alive. Every other cell stays as it is; naming a cell twice is the
    /// same as naming it once.
    pub fn set_cells(&mut self, cells: &[(u32, u32)])
        requires
            forall|k: int|
                0 <= k < cells@.len() ==> (#[trigger] cells@[k]).0 < old(self).height()
                    && cells@[k].1 < old(self).width(),
        ensures
            final(self).width() == old(self).width(),
            final(self).height() == old(self).height(),
            final(self)@ == with_alive(old(self)@, old(self).width() as int, cells@),
            final(self).wf(),
    {
        proof {
            use_type_invariant(&*self);
        }
        let ghost prev = self@;
        let ghost w = self.width as int;
        let mut k: usize = 0;
        while k < cells.len()
            invariant
                self.wf(),
                self.width() == old(self).width(),
                self.height() == old(self).height(),
                w == self.width(),
                prev.len() == self@.len(),
                k <= cells@.len(),
                forall|k: int|
                    0 <= k < cells@.len() ==> (#[trigger] cells@[k]).0 < self.height()
                        && cells@[k].1 < self.width(),
                self@ == with_alive(prev, w, cells@.take(k as int)),
            decreases cells@.len() - k,
        {
            let (row, column) = cells[k];
            let index = self.get_index(row, column);
            bitset_set(&mut self.cells, index, true);
            k += 1;
            assert(self@ =~= with_alive(prev, w, cells@.take(k as int))) by {
                let before = cells@.take(k - 1);
                let after = cells@.take(k as int);
                assert forall|i: int| 0 <= i < prev.len() implies names(after, w, i) == (names(
                    before,
                    w,
                    i,
                ) || i == index) by {
                    if names(before, w, i) {
                        let j = choose|j: int| names_at(before, w, i, j);
                        assert(names_at(after, w, i, j));
                    }
                    if i == index {
                        assert(names_at(after, w, i, k - 1));
                    }
                    if names(after, w, i) {
                        let j = choose|j: int| names_at(after, w, i, j);
                        if j < k - 1 {
                            assert(names_at(before, w, i, j));
                        }
                    }
                }
            }
        }
        assert(cells@.take(k as int) =~= cells@);
    }

    /// The position of the cell in `row` and `column` in row-major order.
    pub fn get_index(&self, row: u32, column: u32) -> (index: usize)
        requires
            row < self.height(),
            column < self.width(),
        ensures
            index == cell_index(self.width() as int, row as int, column as int),
            index < self@.len(),
    {
        proof {
            use_type_invariant(self);
            lemma_cell_index(self.width as int, self.height as int, row as int, column as int);
        }
        (row * self.width + column) as usize
    }

    /// The number of live cells among the eight neighbours of the cell in
    /// `row` and `column`, on the torus: the neighbours of a cell on an edge
    /// are found on the opposite edge.
    pub fn live_neighbor_count(&self, row: u32, column: u32) -> (count: u8)
        requires
            row < self.height(),
            column < self.width(),
        ensures
            count == live_neighbors(
                self@,
                self.width() as int,
                self.height() as int,
                row as int,
                column as int,
            ),
            count <= 8,
    {
        proof {
            use_type_invariant(self);
        }
        let delta_rows: [u32; 3] = [self.height - 1, 0, 1];
        let delta_cols: [u32; 3] = [self.width - 1, 0, 1];
        let ghost w = self.width as int;
        let ghost h = self.height as int;
        let ghost r = row as int;
        let ghost c = column as int;
        let mut count: u8 = 0;
        let mut i: usize = 0;
        while i < 3
            invariant
                self.wf(),
                row < self.height,
                column < self.width,
                w == self.width,
                h == self.height,
                r == row,
                c == column,
                delta_rows@ == seq![(self.height - 1) as u32, 0u32, 1u32],
                delta_cols@ == seq![(self.width - 1) as u32, 0u32, 1u32],
                i <= 3,
                count <= 3 * i,
                count == (if i >= 1 {
                    neighbor_row_sum(self@, w, h, r, c, h - 1)
                } else {
                    0
                }) + (if i >= 2 {
                    neighbor_row_sum(self@, w, h, r, c, 0)
                } else {
                    0
                }) + (if i >= 3 {
                    neighbor_row_sum(self@, w, h, r, c, 1)
                } else {
                    0
                }),
            decreases 3 - i,
        {
            let delta_row = delta_rows[i];
            let ghost before = count as int;
            let mut j: usize = 0;
            while j < 3
                invariant
                    self.wf(),
                    row < self.height,
                    column < self.width,
                    w == self.width,
                    h == self.height,
                    r == row,
                    c == column,
                    delta_cols@ == seq![(self.width - 1) as u32, 0u32, 1u32],
                    delta_row < self.height || delta_row == 1,
                    j <= 3,
                    before <= 6,
                    count <= before + j,
                    count == before + (if j >= 1 {
                        neighbor_term(self@, w, h, r, c, delta_row as int, w - 1)
                    } else {
                        0
                    }) + (if j >= 2 {
                        neighbor_term(self@, w, h, r, c, delta_row as int, 0)
                    } else {
                        0
                    }) + (if j >= 3 {
                        neighbor_term(self@, w, h, r, c, delta_row as int, 1)
                    } else {
                        0
                    }),
                decreases 3 - j,
            {
                let delta_col = delta_cols[j];
                if !(delta_row == 0 && delta_col == 0) {
                    let neighbor_row = ((row as u64 + delta_row as u64) % (self.height as u64)) as u32;
                    let neighbor_col = ((column as u64 + delta_col as u64) % (self.width as u64)) as u32;
                    let idx = self.get_index(neighbor_row, neighbor_col);
                    if bitset_get(&self.cells, idx) {
                        count += 1;
                    }
                }
                j += 1;
            }
            i += 1;
        }
        count
    }

    /// A bit set of `size` dead cells.
    fn make_dead_cells(size: usize) -> (cells: FixedBitSet)
        ensures
            bit_seq(cells) == dead_cells(size as int),
    {
        let mut cells = bitset_with_capacity(size);
        let mut i: usize = 0;
        while i < size
            invariant
                i <= size,
                bit_seq(cells) == dead_cells(size as int),
            decreases size - i,
        {
            bitset_set(&mut cells, i, false);
            i += 1;
        }
        cells
    }

    /// A bit set of `width * height` cells, cell `i` alive where `flips[i]`
    /// is `true`.
    fn make_random_cells(width: u32, height: u32, flips: &[bool]) -> (cells: FixedBitSet)
        requires
            width * height <= u32::MAX,
            flips@.len() == width * height,
        ensures
            bit_seq(cells) == flips@,
    {
        let size = (width * height) as usize;
        let mut cells = bitset_with_capacity(size);

        let mut i: usize = 0;
        while i < size
            invariant
                size == flips@.len(),
                i <= size,
                bit_seq(cells).len() == size,
                forall|j: int| 0 <= j < i ==> bit_seq(cells)[j] == flips@[j],
            decreases size - i,
        {
            bitset_set(&mut cells, i, flips[i]);
            i += 1;
        }

        cells
    }
}

} // verus!
