//! The universe: the cells, their dimensions, and the operations on them.

use vstd::prelude::*;
use crate::arith::{lemma_index_in_bounds, lemma_index_split, lemma_wrap};
use crate::cell::Cell;
use crate::error::GridError;
use crate::grid::Grid;

verus! {

/// A grid of cells that wraps around at every edge.
pub struct Universe {
    width: u32,
    height: u32,
    cells: Vec<Cell>,
}

impl View for Universe {
    type V = Grid;

    closed spec fn view(&self) -> Grid {
        Grid { width: self.width as nat, height: self.height as nat, cells: self.cells@ }
    }
}

/// The term that the neighbor in direction `k` adds to the count, the nine
/// directions numbered row by row; direction 4 is the cell itself.
spec fn neighbor_term(grid: Grid, row: int, column: int, k: int) -> int {
    if k == 4 {
        0
    } else {
        grid.wrapped(row + k / 3 - 1, column + k % 3 - 1).spec_value()
    }
}

/// The sum of the terms of the first `n` directions.
spec fn neighbor_sum(grid: Grid, row: int, column: int, n: int) -> int
    decreases n,
{
    if n <= 0 {
        0
    } else {
        neighbor_sum(grid, row, column, n - 1) + neighbor_term(grid, row, column, n - 1)
    }
}

/// All nine directions together give the count of live neighbors.
proof fn lemma_neighbor_sum_all(grid: Grid, row: int, column: int)
    ensures
        neighbor_sum(grid, row, column, 9) == grid.live_neighbors(row, column),
{
    reveal_with_fuel(neighbor_sum, 10);
}

/// The coordinate one back (`k == 0`), at (`k == 1`) or one on (`k == 2`)
/// from `x` on an axis of length `n`, wrapped around.
fn neighbor_coordinate(x: u32, k: u32, n: u32) -> (y: u32)
    requires
        x < n,
        k < 3,
    ensures
        y < n,
        y == (x + k - 1) % (n as int),
{
    let delta: u32 = if k == 0 {
        n - 1
    } else if k == 1 {
        0
    } else {
        1
    };
    let sum: u64 = x as u64 + delta as u64;
    let y: u64 = sum % (n as u64);
    proof {
        lemma_wrap(x as int, n as int);
    }
    y as u32
}

/// Taking one more position into account names one more index.
proof fn lemma_names_one_more(grid: Grid, positions: Seq<(u32, u32)>, n: int, i: int)
    requires
        0 <= n < positions.len(),
    ensures
        grid.names(positions.take(n + 1), i) <==> grid.names(positions.take(n), i)
            || grid.index_of(positions[n].0 as int, positions[n].1 as int) == i,
{
    let shorter = positions.take(n);
    let longer = positions.take(n + 1);
    if grid.names(longer, i) {
        let k = choose|k: int|
            0 <= k < longer.len() && grid.index_of(
                (#[trigger] longer[k]).0 as int,
                longer[k].1 as int,
            ) == i;
        if k < n {
            assert(shorter[k] == longer[k]);
        }
    }
    if grid.names(shorter, i) {
        let k = choose|k: int|
            0 <= k < shorter.len() && grid.index_of(
                (#[trigger] shorter[k]).0 as int,
                shorter[k].1 as int,
            ) == i;
        assert(longer[k] == shorter[k]);
    }
    if grid.index_of(positions[n].0 as int, positions[n].1 as int) == i {
        assert(longer[n] == positions[n]);
    }
}

/// A buffer of `n` dead cells.
fn dead_cells(n: usize) -> (cells: Vec<Cell>)
    ensures
        cells@ == Seq::new(n as nat, |i: int| Cell::Dead),
{
    let mut cells: Vec<Cell> = Vec::new();
    let mut i: usize = 0;
    while i < n
        invariant
            i <= n,
            cells@.len() == i,
            forall|k: int| 0 <= k < i ==> cells@[k] == Cell::Dead,
        decreases n - i,
    {
        cells.push(Cell::Dead);
        i += 1;
    }
    assert(cells@ =~= Seq::new(n as nat, |i: int| Cell::Dead));
    cells
}

impl Universe {
    #[verifier::type_invariant]
    spec fn inv(&self) -> bool {
        self.cells.len() == self.width * self.height
    }

    /// A 64 by 64 universe in which a cell is alive exactly when its index
    /// is a multiple of 2 or of 7.
    pub fn new() -> (universe: Universe)
        ensures
            universe@ == Grid::initial(),
            universe@.wf(),
    {
        let width: u32 = 64;
        let height: u32 = 64;
        let mut cells: Vec<Cell> = Vec::new();
        let mut i: u32 = 0;
        while i < width * height
            invariant
                width == 64,
                height == 64,
                i <= width * height,
                cells@.len() == i,
                forall|k: int| 0 <= k < i ==> cells@[k] == #[trigger] Grid::initial().cells[k],
            decreases width * height - i,
        {
            let cell = if i % 2 == 0 || i % 7 == 0 {
                Cell::Alive
            } else {
                Cell::Dead
            };
            cells.push(cell);
            i += 1;
        }
        assert(cells@ =~= Grid::initial().cells);
        Universe { width, height, cells }
    }

    /// The number of columns.
    pub fn width(&self) -> (width: u32)
        ensures
            width == self@.width,
    {
        self.width
    }

    /// The number of rows.
    pub fn height(&self) -> (height: u32)
        ensures
            height == self@.height,
    {
        self.height
    }

    /// The cells as they lie in memory, row after row: a view that lasts
    /// until the universe is next changed.
    pub fn cells(&self) -> (cells: &[Cell])
        ensures
            cells@ == self@.cells,
            cells@.len() == self@.width * self@.height,
    {
        proof {
            use_type_invariant(self);
        }
        self.cells.as_slice()
    }

    /// The cells, row after row.
    pub fn get_cells(&self) -> (cells: &[Cell])
        ensures
            cells@ == self@.cells,
            cells@.len() == self@.width * self@.height,
    {
        proof {
            use_type_invariant(self);
        }
        self.cells.as_slice()
    }

    /// The universe as text: a line for each row, a glyph for each cell.
    pub fn render(&self) -> (text: String)
        ensures
            text@ == self@.text(),
    {
        let mut text = String::new();
        let mut row: u32 = 0;
        while row < self.height
            invariant
                row <= self.height,
                text@.len() == row * (self.width + 1),
                forall|p: int| 0 <= p < text@.len() ==> text@[p] == #[trigger] self@.text_char(p),
            decreases self.height - row,
        {
            let mut col: u32 = 0;
            while col < self.width
                invariant
                    row < self.height,
                    col <= self.width,
                    text@.len() == row * (self.width + 1) + col,
                    forall|p: int| 0 <= p < text@.len() ==> text@[p] == #[trigger] self@.text_char(p),
                decreases self.width - col,
            {
                let idx = self.get_index(row, col);
                proof {
                    lemma_index_split(row as int, col as int, self.width + 1);
                }
                text.push(self.cells[idx].glyph());
                col += 1;
            }
            proof {
                lemma_index_split(row as int, self.width as int, self.width + 1);
            }
            text.push('\n');
            assert((row + 1) * (self.width + 1) == row * (self.width + 1) + self.width + 1)
                by (nonlinear_arith);
            row += 1;
        }
        assert(text@ =~= self@.text());
        text
    }

    /// How many of the eight neighbors of `(row, column)` are alive, or
    /// `IndexOutOfRange` when that is no position of the grid.
    pub fn live_neighbors(&self, row: u32, column: u32) -> (result: Result<u8, GridError>)
        ensures
            result is Ok <==> self@.contains(row as int, column as int),
            result matches Ok(count) ==> count == self@.live_neighbors(row as int, column as int),
            result matches Err(e) ==> e == GridError::IndexOutOfRange,
    {
        if row < self.height && column < self.width {
            Ok(self.live_neighbor_count(row, column))
        } else {
            Err(GridError::IndexOutOfRange)
        }
    }

    /// Advances the universe by one generation. Every cell is judged by the
    /// generation before: the new cells are gathered apart and replace the
    /// old ones only once all are known.
    pub fn tick(&mut self)
        ensures
            final(self)@ == old(self)@.next_generation(),
            final(self)@.wf(),
    {
        proof {
            use_type_invariant(&*self);
        }
        let mut next: Vec<Cell> = Vec::new();
        let mut row: u32 = 0;
        while row < self.height
            invariant
                *self == *old(self),
                self.cells.len() == self.width * self.height,
                row <= self.height,
                next@.len() == row * self.width,
                forall|k: int| 0 <= k < next@.len() ==> next@[k] == #[trigger] self@.next_cell(k),
            decreases self.height - row,
        {
            let mut col: u32 = 0;
            while col < self.width
                invariant
                    *self == *old(self),
                    self.cells.len() == self.width * self.height,
                    row < self.height,
                    col <= self.width,
                    next@.len() == row * self.width + col,
                    forall|k: int| 0 <= k < next@.len() ==> next@[k] == #[trigger] self@.next_cell(k),
                decreases self.width - col,
            {
                let idx = self.get_index(row, col);
                let cell = self.cells[idx];
                let live_neighbors = self.live_neighbor_count(row, col);
                proof {
                    lemma_index_split(row as int, col as int, self.width as int);
                }
                next.push(cell.next(live_neighbors));
                col += 1;
            }
            assert((row + 1) * self.width == row * self.width + self.width) by (nonlinear_arith);
            row += 1;
        }
        assert(self.height * self.width == self.width * self.height) by (nonlinear_arith);
        assert(next@ =~= self@.next_generation().cells);
        self.cells = next;
    }

    /// Flips the cell at `(row, column)`, or refuses with `IndexOutOfRange`
    /// and changes nothing when that is no position of the grid.
    pub fn toggle_cell(&mut self, row: u32, column: u32) -> (result: Result<(), GridError>)
        ensures
            result is Ok <==> old(self)@.contains(row as int, column as int),
            result is Ok ==> final(self)@ == old(self)@.toggled(row as int, column as int),
            final(self)@.wf(),
            result matches Err(e) ==> e == GridError::IndexOutOfRange,
            result is Err ==> final(self)@ == old(self)@,
    {
        proof {
            use_type_invariant(&*self);
        }
        if row >= self.height || column >= self.width {
            return Err(GridError::IndexOutOfRange);
        }
        let idx = self.get_index(row, column);
        self.cells[idx].toggle();
        Ok(())
    }

    /// Makes every cell that `cells` names, as `(row, column)`, alive and
    /// leaves the others as they are; or refuses with `IndexOutOfRange`
    /// and changes nothing when one of the pairs is no position of the grid.
    pub fn set_cells(&mut self, cells: &[(u32, u32)]) -> (result: Result<(), GridError>)
        ensures
            result is Ok <==> forall|k: int|
                0 <= k < cells@.len() ==> old(self)@.contains(
                    (#[trigger] cells@[k]).0 as int,
                    cells@[k].1 as int,
                ),
            result is Ok ==> final(self)@ == old(self)@.with_alive(cells@),
            final(self)@.wf(),
            result matches Err(e) ==> e == GridError::IndexOutOfRange,
            result is Err ==> final(self)@ == old(self)@,
    {
        proof {
            use_type_invariant(&*self);
        }
        let mut n: usize = 0;
        while n < cells.len()
            invariant
                *self == *old(self),
                self@.wf(),
                n <= cells@.len(),
                forall|k: int|
                    0 <= k < n ==> self@.contains(
                        (#[trigger] cells@[k]).0 as int,
                        cells@[k].1 as int,
                    ),
            decreases cells@.len() - n,
        {
            let (row, column) = cells[n];
            if row >= self.height || column >= self.width {
                return Err(GridError::IndexOutOfRange);
            }
            n += 1;
        }
        let mut n: usize = 0;
        while n < cells.len()
            invariant
                self.width == old(self).width,
                self.height == old(self).height,
                self.cells.len() == self.width * self.height,
                self.cells.len() == old(self).cells.len(),
                n <= cells@.len(),
                forall|k: int|
                    0 <= k < cells@.len() ==> self@.contains(
                        (#[trigger] cells@[k]).0 as int,
                        cells@[k].1 as int,
                    ),
                forall|i: int|
                    0 <= i < self.cells.len() ==> #[trigger] self.cells@[i] == (if old(self)@.names(
                        cells@.take(n as int),
                        i,
                    ) {
                        Cell::Alive
                    } else {
                        old(self).cells@[i]
                    }),
            decreases cells@.len() - n,
        {
            let (row, column) = cells[n];
            let idx = self.get_index(row, column);
            proof {
                assert forall|i: int| 0 <= i < self.cells.len() implies (old(self)@.names(
                    cells@.take(n + 1),
                    i,
                ) <==> old(self)@.names(cells@.take(n as int), i) || i == idx) by {
                    lemma_names_one_more(old(self)@, cells@, n as int, i);
                }
            }
            self.cells[idx] = Cell::Alive;
            n += 1;
        }
        proof {
            assert(cells@.take(n as int) =~= cells@);
            assert(self@.cells =~= old(self)@.with_alive(cells@).cells);
        }
        Ok(())
    }

    /// Sets the width and replaces the cells by dead ones, as many as the
    /// new width and the height ask for.
    pub fn set_width(&mut self, width: u32)
        requires
            width * old(self)@.height <= usize::MAX,
        ensures
            final(self)@ == Grid::blank(width as nat, old(self)@.height),
            final(self)@.wf(),
            forall|i: int|
                0 <= i < final(self)@.cells.len() ==> #[trigger] final(self)@.cells[i]
                    == Cell::Dead,
    {
        let height = self.height;
        let cells = dead_cells(width as usize * height as usize);
        *self = Universe { width, height, cells };
    }

    /// Sets the height and replaces the cells by dead ones, as many as the
    /// width and the new height ask for.
    pub fn set_height(&mut self, height: u32)
        requires
            old(self)@.width * height <= usize::MAX,
        ensures
            final(self)@ == Grid::blank(old(self)@.width, height as nat),
            final(self)@.wf(),
            forall|i: int|
                0 <= i < final(self)@.cells.len() ==> #[trigger] final(self)@.cells[i]
                    == Cell::Dead,
    {
        let width = self.width;
        let cells = dead_cells(width as usize * height as usize);
        *self = Universe { width, height, cells };
    }

    /// The place of `(row, column)` in the buffer.
    fn get_index(&self, row: u32, column: u32) -> (idx: usize)
        requires
            row < self.height,
            column < self.width,
        ensures
            idx == self@.index_of(row as int, column as int),
            idx < self.cells@.len(),
    {
        proof {
            use_type_invariant(self);
            lemma_index_in_bounds(row as int, column as int, self.width as int, self.height as int);
        }
        row as usize * self.width as usize + column as usize
    }

    /// Counts the live cells among the eight around `(row, column)`, each
    /// found by stepping one back, not at all or one on along either axis.
    fn live_neighbor_count(&self, row: u32, column: u32) -> (count: u8)
        requires
            row < self.height,
            column < self.width,
        ensures
            count == self@.live_neighbors(row as int, column as int),
    {
        let mut count: u8 = 0;
        let mut i: u32 = 0;
        while i < 3
            invariant
                i <= 3,
                row < self.height,
                column < self.width,
                count <= 3 * i,
                count == neighbor_sum(self@, row as int, column as int, 3 * i),
            decreases 3 - i,
        {
            let neighbor_row = neighbor_coordinate(row, i, self.height);
            let mut j: u32 = 0;
            while j < 3
                invariant
                    i < 3,
                    j <= 3,
                    row < self.height,
                    column < self.width,
                    neighbor_row < self.height,
                    neighbor_row == (row + i - 1) % (self.height as int),
                    count <= 3 * i + j,
                    count == neighbor_sum(self@, row as int, column as int, 3 * i + j),
                decreases 3 - j,
            {
                if !(i == 1 && j == 1) {
                    let neighbor_col = neighbor_coordinate(column, j, self.width);
                    let idx = self.get_index(neighbor_row, neighbor_col);
                    count += self.cells[idx].value();
                }
                j += 1;
            }
            i += 1;
        }
        proof {
            lemma_neighbor_sum_all(self@, row as int, column as int);
        }
        count
    }
}

} // verus!
