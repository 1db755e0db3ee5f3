//! Row-major addressing, shared by the noise field and the raster.

use vstd::prelude::*;

verus! {

/// Position of column `col`, row `row` in a grid `width` wide that is
/// stored row by row.
pub open spec fn row_major(width: int, col: int, row: int) -> int {
    row * width + col
}

/// Every position of a `width` by `height` grid lies inside a buffer of
/// `width * height` elements.
pub proof fn lemma_row_major_in_bounds(width: int, height: int, col: int, row: int)
    requires
        0 <= col < width,
        0 <= row < height,
    ensures
        0 <= row * width <= row_major(width, col, row) < width * height,
{
    assert(row * width + width <= height * width) by (nonlinear_arith)
        requires
            row + 1 <= height,
            0 <= width,
    ;
    assert(0 <= row * width) by (nonlinear_arith)
        requires
            0 <= row,
            0 <= width,
    ;
    assert(height * width == width * height) by (nonlinear_arith);
}

/// Positions grow along a row and from one row to the next. The later
/// position may be the end of its row (`col1 == width`).
pub proof fn lemma_row_major_order(width: int, col0: int, row0: int, col1: int, row1: int)
    requires
        0 <= col0 < width,
        0 <= col1 <= width,
        0 <= row0,
        row0 < row1 || (row0 == row1 && col0 < col1),
    ensures
        0 <= row_major(width, col0, row0) < row_major(width, col1, row1),
{
    assert(0 <= row0 * width) by (nonlinear_arith)
        requires
            0 <= row0,
            0 <= width,
    ;
    if row0 < row1 {
        assert(row0 * width + width <= row1 * width) by (nonlinear_arith)
            requires
                row0 + 1 <= row1,
                0 <= width,
        ;
    }
}

} // verus!
