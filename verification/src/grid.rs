//! The mathematical model of a universe, over which all contracts are stated.

use vstd::prelude::*;
use crate::cell::Cell;

verus! {

/// A rectangular arrangement of cells: `cells` holds the rows one after the
/// other, so the cell in row `r` and column `c` is `cells[r * width + c]`.
pub struct Grid {
    pub width: nat,
    pub height: nat,
    pub cells: Seq<Cell>,
}

/// One step back from `x` on a ring of `n` places numbered from 0.
pub open spec fn step_back(x: int, n: int) -> int {
    if x == 0 {
        n - 1
    } else {
        x - 1
    }
}

/// One step on from `x` on a ring of `n` places numbered from 0.
pub open spec fn step_on(x: int, n: int) -> int {
    if x == n - 1 {
        0
    } else {
        x + 1
    }
}

impl Grid {
    /// There is exactly one cell for each position.
    pub open spec fn wf(self) -> bool {
        self.cells.len() == self.width * self.height
    }

    /// Whether `(row, column)` is a position of the grid.
    pub open spec fn contains(self, row: int, column: int) -> bool {
        0 <= row < self.height && 0 <= column < self.width
    }

    /// The place of `(row, column)` in `cells`.
    pub open spec fn index_of(self, row: int, column: int) -> int {
        row * self.width + column
    }

    /// The cell at a position of the grid.
    pub open spec fn cell(self, row: int, column: int) -> Cell {
        self.cells[self.index_of(row, column)]
    }

    /// The cell reached from any pair of integers once each coordinate is
    /// taken modulo the size of its axis: the grid is a torus.
    pub open spec fn wrapped(self, row: int, column: int) -> Cell {
        self.cell(row % (self.height as int), column % (self.width as int))
    }

    /// How many of the eight cells around `(row, column)` are alive. On a
    /// grid fewer than three cells wide or high some of the eight coincide,
    /// and each is counted as often as it is reached.
    pub open spec fn live_neighbors(self, row: int, column: int) -> int {
        self.wrapped(row - 1, column - 1).spec_value()
            + self.wrapped(row - 1, column).spec_value()
            + self.wrapped(row - 1, column + 1).spec_value()
            + self.wrapped(row, column - 1).spec_value()
            + self.wrapped(row, column + 1).spec_value()
            + self.wrapped(row + 1, column - 1).spec_value()
            + self.wrapped(row + 1, column).spec_value()
            + self.wrapped(row + 1, column + 1).spec_value()
    }

    /// The state that the cell at index `i` of `cells` has one generation on.
    pub open spec fn next_cell(self, i: int) -> Cell {
        self.cells[i].spec_next(
            self.live_neighbors(i / (self.width as int), i % (self.width as int)),
        )
    }

    /// The grid one generation on: every cell is replaced at once, each
    /// judged by the neighbors it has in `self`.
    pub open spec fn next_generation(self) -> Grid {
        Grid {
            width: self.width,
            height: self.height,
            cells: Seq::new(self.cells.len(), |i: int| self.next_cell(i)),
        }
    }

    /// The grid with the cell at `(row, column)` flipped.
    pub open spec fn toggled(self, row: int, column: int) -> Grid {
        Grid {
            width: self.width,
            height: self.height,
            cells: self.cells.update(
                self.index_of(row, column),
                self.cell(row, column).toggled(),
            ),
        }
    }

    /// Whether `(row, column)` is one of `positions`.
    pub open spec fn lists(positions: Seq<(u32, u32)>, row: int, column: int) -> bool {
        exists|k: int|
            0 <= k < positions.len() && (#[trigger] positions[k]).0 == row && positions[k].1
                == column
    }

    /// Whether `positions` names the cell at index `i` of `cells`.
    pub open spec fn names(self, positions: Seq<(u32, u32)>, i: int) -> bool {
        exists|k: int|
            0 <= k < positions.len() && self.index_of(
                (#[trigger] positions[k]).0 as int,
                positions[k].1 as int,
            ) == i
    }

    /// The grid in which every cell that `positions` names is alive and
    /// every other cell is as in `self`.
    pub open spec fn with_alive(self, positions: Seq<(u32, u32)>) -> Grid {
        Grid {
            width: self.width,
            height: self.height,
            cells: Seq::new(
                self.cells.len(),
                |i: int|
                    if self.names(positions, i) {
                        Cell::Alive
                    } else {
                        self.cells[i]
                    },
            ),
        }
    }

    /// A grid of the given size in which every cell is dead.
    pub open spec fn blank(width: nat, height: nat) -> Grid {
        Grid { width, height, cells: Seq::new(width * height, |i: int| Cell::Dead) }
    }

    /// The grid a new universe starts from: 64 by 64, a cell alive exactly
    /// when its index is a multiple of 2 or of 7.
    pub open spec fn initial() -> Grid {
        Grid {
            width: 64,
            height: 64,
            cells: Seq::new(
                4096,
                |i: int|
                    if i % 2 == 0 || i % 7 == 0 {
                        Cell::Alive
                    } else {
                        Cell::Dead
                    },
            ),
        }
    }

    /// The character at place `p` of the rendered text: each row takes
    /// `width + 1` places, its glyphs followed by a line break.
    pub open spec fn text_char(self, p: int) -> char {
        let stride = self.width as int + 1;
        if p % stride == self.width {
            '\n'
        } else {
            self.cell(p / stride, p % stride).spec_glyph()
        }
    }

    /// The glyphs of one row, left to right.
    pub open spec fn line(self, row: int) -> Seq<char> {
        Seq::new(self.width, |column: int| self.cell(row, column).spec_glyph())
    }

    /// The place in the rendered text at which the line of `row` starts.
    pub open spec fn line_start(self, row: int) -> int {
        row * (self.width + 1)
    }

    /// The grid as text: one line for each row, top to bottom, each line
    /// the glyphs of the row's cells, left to right, and a line break.
    pub open spec fn text(self) -> Seq<char> {
        Seq::new(self.height * (self.width + 1), |p: int| self.text_char(p))
    }
}

} // verus!
