//! What holds of every grid: the laws that the operations obey.

use vstd::prelude::*;
use crate::arith::{lemma_index_in_bounds, lemma_index_split, lemma_wrap};
use crate::cell::Cell;
use crate::grid::{step_back, step_on, Grid};

verus! {

/// Two positions of a grid share an index only when they are the same.
pub proof fn lemma_index_of_injective(grid: Grid, row: int, column: int, row2: int, column2: int)
    requires
        grid.contains(row, column),
        grid.contains(row2, column2),
        grid.index_of(row, column) == grid.index_of(row2, column2),
    ensures
        row == row2,
        column == column2,
{
    lemma_index_split(row, column, grid.width as int);
    lemma_index_split(row2, column2, grid.width as int);
}

/// The grid is a torus. Beyond the first row lies the last and beyond the
/// last the first, and so for the columns; hence the corner `(0, 0)` has
/// the opposite corner `(height - 1, width - 1)` for a diagonal neighbor,
/// and likewise at the three other corners.
pub proof fn lemma_wrapped_edges(grid: Grid)
    requires
        grid.width > 0,
        grid.height > 0,
    ensures
        forall|row: int, column: int|
            grid.contains(row, column) ==> #[trigger] grid.wrapped(row, column) == grid.cell(
                row,
                column,
            ),
        forall|column: int|
            0 <= column < grid.width ==> #[trigger] grid.wrapped(-1, column) == grid.cell(
                grid.height - 1,
                column,
            ),
        forall|column: int|
            0 <= column < grid.width ==> #[trigger] grid.wrapped(grid.height as int, column)
                == grid.cell(0, column),
        forall|row: int|
            0 <= row < grid.height ==> #[trigger] grid.wrapped(row, -1) == grid.cell(
                row,
                grid.width - 1,
            ),
        forall|row: int|
            0 <= row < grid.height ==> #[trigger] grid.wrapped(row, grid.width as int)
                == grid.cell(row, 0),
        grid.wrapped(-1, -1) == grid.cell(grid.height - 1, grid.width - 1),
        grid.wrapped(-1, grid.width as int) == grid.cell(grid.height - 1, 0),
        grid.wrapped(grid.height as int, -1) == grid.cell(0, grid.width - 1),
        grid.wrapped(grid.height as int, grid.width as int) == grid.cell(0, 0),
{
    let w = grid.width as int;
    let h = grid.height as int;
    lemma_wrap(0, w);
    lemma_wrap(0, h);
    lemma_wrap(w - 1, w);
    lemma_wrap(h - 1, h);
    assert forall|row: int, column: int| grid.contains(row, column) implies #[trigger] grid.wrapped(
        row,
        column,
    ) == grid.cell(row, column) by {
        lemma_wrap(row, h);
        lemma_wrap(column, w);
    }
    assert forall|column: int| 0 <= column < grid.width implies #[trigger] grid.wrapped(-1, column)
        == grid.cell(grid.height - 1, column) by {
        lemma_wrap(column, w);
    }
    assert forall|column: int| 0 <= column < grid.width implies #[trigger] grid.wrapped(
        grid.height as int,
        column,
    ) == grid.cell(0, column) by {
        lemma_wrap(column, w);
    }
    assert forall|row: int| 0 <= row < grid.height implies #[trigger] grid.wrapped(row, -1)
        == grid.cell(row, grid.width - 1) by {
        lemma_wrap(row, h);
    }
    assert forall|row: int| 0 <= row < grid.height implies #[trigger] grid.wrapped(
        row,
        grid.width as int,
    ) == grid.cell(row, 0) by {
        lemma_wrap(row, h);
    }
}

/// The neighbors of a position are the eight cells one step away along the
/// rows, the columns or both, each axis taken as a ring; so a count lies
/// between 0 and 8.
pub proof fn lemma_live_neighbors(grid: Grid, row: int, column: int)
    requires
        grid.contains(row, column),
    ensures
        grid.live_neighbors(row, column) == ({
            let up = step_back(row, grid.height as int);
            let down = step_on(row, grid.height as int);
            let left = step_back(column, grid.width as int);
            let right = step_on(column, grid.width as int);
            grid.cell(up, left).spec_value() + grid.cell(up, column).spec_value() + grid.cell(
                up,
                right,
            ).spec_value() + grid.cell(row, left).spec_value() + grid.cell(
                row,
                right,
            ).spec_value() + grid.cell(down, left).spec_value() + grid.cell(
                down,
                column,
            ).spec_value() + grid.cell(down, right).spec_value()
        }),
        0 <= grid.live_neighbors(row, column) <= 8,
{
    lemma_wrap(row, grid.height as int);
    lemma_wrap(column, grid.width as int);
}

/// One generation on, the grid has the same dimensions, and each cell is
/// what the rule makes of the cell and the live neighbors that it had.
pub proof fn lemma_next_generation(grid: Grid)
    requires
        grid.wf(),
    ensures
        grid.next_generation().wf(),
        grid.next_generation().width == grid.width,
        grid.next_generation().height == grid.height,
        forall|row: int, column: int|
            grid.contains(row, column) ==> #[trigger] grid.next_generation().cell(row, column)
                == grid.cell(row, column).spec_next(grid.live_neighbors(row, column)),
{
    assert forall|row: int, column: int| grid.contains(row, column) implies #[trigger] grid.next_generation().cell(
        row,
        column,
    ) == grid.cell(row, column).spec_next(grid.live_neighbors(row, column)) by {
        lemma_index_in_bounds(row, column, grid.width as int, grid.height as int);
        lemma_index_split(row, column, grid.width as int);
    }
}

/// A grid without cells is its own next generation.
pub proof fn lemma_next_generation_of_empty(grid: Grid)
    requires
        grid.wf(),
        grid.width == 0 || grid.height == 0,
    ensures
        grid.next_generation() == grid,
{
    assert(grid.width * grid.height == 0) by (nonlinear_arith)
        requires
            grid.width == 0 || grid.height == 0,
    ;
    assert(grid.next_generation().cells =~= grid.cells);
}

/// Toggling flips the one cell and leaves every other cell as it was.
pub proof fn lemma_toggled(grid: Grid, row: int, column: int)
    requires
        grid.wf(),
        grid.contains(row, column),
    ensures
        grid.toggled(row, column).wf(),
        grid.toggled(row, column).width == grid.width,
        grid.toggled(row, column).height == grid.height,
        grid.toggled(row, column).cell(row, column) == grid.cell(row, column).toggled(),
        forall|row2: int, column2: int|
            grid.contains(row2, column2) && (row2, column2) != (row, column)
                ==> #[trigger] grid.toggled(row, column).cell(row2, column2) == grid.cell(
                row2,
                column2,
            ),
{
    lemma_index_in_bounds(row, column, grid.width as int, grid.height as int);
    assert forall|row2: int, column2: int|
        grid.contains(row2, column2) && (row2, column2) != (row, column) implies #[trigger] grid.toggled(
        row,
        column,
    ).cell(row2, column2) == grid.cell(row2, column2) by {
        lemma_index_in_bounds(row2, column2, grid.width as int, grid.height as int);
        if grid.index_of(row, column) == grid.index_of(row2, column2) {
            lemma_index_of_injective(grid, row, column, row2, column2);
        }
    }
}

/// Toggling the same cell twice gives back the grid as it was.
pub proof fn lemma_toggle_twice(grid: Grid, row: int, column: int)
    requires
        grid.wf(),
        grid.contains(row, column),
    ensures
        grid.toggled(row, column).toggled(row, column) == grid,
{
    lemma_index_in_bounds(row, column, grid.width as int, grid.height as int);
    assert(grid.toggled(row, column).toggled(row, column).cells =~= grid.cells);
}

/// After `with_alive` a listed cell is alive and any other cell is as it
/// was before.
pub proof fn lemma_with_alive(grid: Grid, positions: Seq<(u32, u32)>)
    requires
        grid.wf(),
        forall|k: int|
            0 <= k < positions.len() ==> grid.contains(
                (#[trigger] positions[k]).0 as int,
                positions[k].1 as int,
            ),
    ensures
        grid.with_alive(positions).wf(),
        grid.with_alive(positions).width == grid.width,
        grid.with_alive(positions).height == grid.height,
        forall|row: int, column: int|
            grid.contains(row, column) ==> #[trigger] grid.with_alive(positions).cell(row, column)
                == (if Grid::lists(positions, row, column) {
                Cell::Alive
            } else {
                grid.cell(row, column)
            }),
{
    assert forall|row: int, column: int| grid.contains(row, column) implies #[trigger] grid.with_alive(
        positions,
    ).cell(row, column) == (if Grid::lists(positions, row, column) {
        Cell::Alive
    } else {
        grid.cell(row, column)
    }) by {
        lemma_index_in_bounds(row, column, grid.width as int, grid.height as int);
        let i = grid.index_of(row, column);
        if Grid::lists(positions, row, column) {
            let k = choose|k: int|
                0 <= k < positions.len() && (#[trigger] positions[k]).0 == row && positions[k].1
                    == column;
            assert(grid.index_of(positions[k].0 as int, positions[k].1 as int) == i);
        }
        if grid.names(positions, i) {
            let k = choose|k: int|
                0 <= k < positions.len() && grid.index_of(
                    (#[trigger] positions[k]).0 as int,
                    positions[k].1 as int,
                ) == i;
            lemma_index_of_injective(
                grid,
                row,
                column,
                positions[k].0 as int,
                positions[k].1 as int,
            );
        }
    }
}

/// Making the same cells alive a second time changes nothing more.
pub proof fn lemma_with_alive_idempotent(grid: Grid, positions: Seq<(u32, u32)>)
    ensures
        grid.with_alive(positions).with_alive(positions) == grid.with_alive(positions),
{
    let once = grid.with_alive(positions);
    assert forall|i: int| once.names(positions, i) == grid.names(positions, i) by {
        if grid.names(positions, i) {
            let k = choose|k: int|
                0 <= k < positions.len() && grid.index_of(
                    (#[trigger] positions[k]).0 as int,
                    positions[k].1 as int,
                ) == i;
            assert(once.index_of(positions[k].0 as int, positions[k].1 as int) == i);
        }
        if once.names(positions, i) {
            let k = choose|k: int|
                0 <= k < positions.len() && once.index_of(
                    (#[trigger] positions[k]).0 as int,
                    positions[k].1 as int,
                ) == i;
            assert(grid.index_of(positions[k].0 as int, positions[k].1 as int) == i);
        }
    }
    assert(once.with_alive(positions).cells =~= once.cells);
}

/// A blank grid is well formed and all its cells are dead.
pub proof fn lemma_blank(width: nat, height: nat)
    ensures
        Grid::blank(width, height).wf(),
        forall|i: int|
            0 <= i < Grid::blank(width, height).cells.len() ==> #[trigger] Grid::blank(
                width,
                height,
            ).cells[i] == Cell::Dead,
{
}

/// Where the rendered text keeps the place `column` of the line of `row`,
/// the place after the last glyph being that of the line break.
proof fn lemma_text_place(grid: Grid, row: int, column: int)
    requires
        0 <= row < grid.height,
        0 <= column <= grid.width,
    ensures
        0 <= grid.line_start(row) + column < grid.text().len(),
        grid.text()[grid.line_start(row) + column] == (if column == grid.width {
            '\n'
        } else {
            grid.cell(row, column).spec_glyph()
        }),
{
    let stride = grid.width as int + 1;
    lemma_index_in_bounds(row, column, stride, grid.height as int);
    lemma_index_split(row, column, stride);
    assert(stride * grid.height == grid.height * stride) by (nonlinear_arith);
}

/// The rendered text has one line for each row and nothing else: the line
/// of a row starts `width + 1` places after the line before it, holds the
/// glyph of each cell of the row in order, none of them a line break, and
/// is closed by a line break.
pub proof fn lemma_text(grid: Grid)
    ensures
        grid.text().len() == grid.height * (grid.width + 1),
        forall|row: int|
            0 <= row < grid.height ==> grid.text().subrange(
                grid.line_start(row),
                grid.line_start(row) + grid.width,
            ) == #[trigger] grid.line(row),
        forall|row: int|
            0 <= row < grid.height ==> grid.text()[#[trigger] grid.line_start(row) + grid.width]
                == '\n',
        forall|row: int, column: int|
            0 <= column < grid.width ==> (#[trigger] grid.line(row)[column]) != '\n',
        forall|row: int, column: int|
            grid.contains(row, column) ==> grid.text()[grid.line_start(row) + column]
                == (#[trigger] grid.cell(row, column)).spec_glyph(),
{
    assert forall|row: int| 0 <= row < grid.height implies grid.text().subrange(
        grid.line_start(row),
        grid.line_start(row) + grid.width,
    ) == #[trigger] grid.line(row) by {
        lemma_text_place(grid, row, 0);
        lemma_text_place(grid, row, grid.width as int);
        let part = grid.text().subrange(grid.line_start(row), grid.line_start(row) + grid.width);
        assert forall|column: int| 0 <= column < grid.width implies part[column] == grid.line(
            row,
        )[column] by {
            lemma_text_place(grid, row, column);
        }
        assert(part =~= grid.line(row));
    }
    assert forall|row: int| 0 <= row < grid.height implies grid.text()[#[trigger] grid.line_start(
        row,
    ) + grid.width] == '\n' by {
        lemma_text_place(grid, row, grid.width as int);
    }
    assert forall|row: int, column: int| grid.contains(row, column) implies grid.text()[grid.line_start(
        row,
    ) + column] == (#[trigger] grid.cell(row, column)).spec_glyph() by {
        lemma_text_place(grid, row, column);
    }
}

} // verus!
