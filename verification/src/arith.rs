//! Facts about row-major indices and about wrapping a coordinate.

use vstd::prelude::*;
use vstd::arithmetic::div_mod::lemma_fundamental_div_mod_converse;

verus! {

/// A position inside a `width` by `height` rectangle has a row-major index
/// below `width * height`.
pub proof fn lemma_index_in_bounds(row: int, column: int, width: int, height: int)
    requires
        0 <= row < height,
        0 <= column < width,
    ensures
        0 <= row * width + column < width * height,
        row * width + column + (width - column) <= width * height,
{
    assert(row * width >= 0) by (nonlinear_arith)
        requires
            0 <= row,
            0 <= width,
    ;
    assert((row + 1) * width <= height * width) by (nonlinear_arith)
        requires
            row + 1 <= height,
            0 <= width,
    ;
    assert((row + 1) * width == row * width + width) by (nonlinear_arith);
    assert(height * width == width * height) by (nonlinear_arith);
}

/// A row-major index splits back into the row and the column it was made of.
pub proof fn lemma_index_split(row: int, column: int, width: int)
    requires
        0 <= column < width,
    ensures
        (row * width + column) / width == row,
        (row * width + column) % width == column,
{
    lemma_fundamental_div_mod_converse(row * width + column, width, row, column);
}

/// Stepping one back, staying, or stepping one on along an axis of length
/// `n`, wrapped: the modulus written out by cases.
pub proof fn lemma_wrap(x: int, n: int)
    requires
        0 <= x < n,
    ensures
        (x - 1) % n == (if x == 0 { n - 1 } else { x - 1 }),
        x % n == x,
        (x + 1) % n == (if x == n - 1 { 0 } else { x + 1 }),
        (x + (n - 1)) % n == (x - 1) % n,
{
    if x == 0 {
        lemma_fundamental_div_mod_converse(x - 1, n, -1, n - 1);
        lemma_fundamental_div_mod_converse(x + (n - 1), n, 0, n - 1);
    } else {
        lemma_fundamental_div_mod_converse(x - 1, n, 0, x - 1);
        lemma_fundamental_div_mod_converse(x + (n - 1), n, 1, x - 1);
    }
    lemma_fundamental_div_mod_converse(x, n, 0, x);
    if x == n - 1 {
        lemma_fundamental_div_mod_converse(x + 1, n, 1, 0);
    } else {
        lemma_fundamental_div_mod_converse(x + 1, n, 0, x + 1);
    }
}

} // verus!
