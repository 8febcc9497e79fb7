//! Where the cell `(x, y)` of a grid lies in its row-major storage.

use vstd::prelude::*;

verus! {

/// The position of cell `(x, y)` in a row-major grid that is `width` cells
/// wide: rows lie one after the other, `x` runs along a row.
pub open spec fn offset(width: int, x: int, y: int) -> int {
    y * width + x
}

/// The cell `(x, y)` lies on a grid of `width` by `height` cells.
pub open spec fn in_bounds(width: int, height: int, x: int, y: int) -> bool {
    0 <= x < width && 0 <= y < height
}

/// The cell `(x, y)` lies on the grid and not on its outer ring.
pub open spec fn is_interior(width: int, height: int, x: int, y: int) -> bool {
    1 <= x < width - 1 && 1 <= y < height - 1
}

/// The cell `(x, y)` lies on the outer ring of the grid.
pub open spec fn is_border(width: int, height: int, x: int, y: int) -> bool {
    in_bounds(width, height, x, y) && !is_interior(width, height, x, y)
}

/// Every cell of the grid has a position below `width * height`.
pub proof fn lemma_offset_in_range(width: int, height: int, x: int, y: int)
    requires
        in_bounds(width, height, x, y),
    ensures
        0 <= offset(width, x, y) < width * height,
{
    assert(0 <= y * width && y * width + width <= height * width) by (nonlinear_arith)
        requires
            0 <= y < height,
            0 < width,
    ;
    assert(height * width == width * height) by (nonlinear_arith);
}

/// Two cells of one grid that share a position are the same cell.
pub proof fn lemma_offset_injective(width: int, x1: int, y1: int, x2: int, y2: int)
    requires
        0 <= x1 < width,
        0 <= x2 < width,
        offset(width, x1, y1) == offset(width, x2, y2),
    ensures
        x1 == x2,
        y1 == y2,
{
    assert(y1 == y2) by (nonlinear_arith)
        requires
            0 <= x1 < width,
            0 <= x2 < width,
            y1 * width + x1 == y2 * width + x2,
    ;
}

/// The position of cell `(x, y)` in the row-major storage of a grid that is
/// `width` cells wide.
pub fn index(x: usize, y: usize, width: usize) -> (i: usize)
    requires
        offset(width as int, x as int, y as int) <= usize::MAX,
    ensures
        i == offset(width as int, x as int, y as int),
{
    assert(0 <= y * width) by (nonlinear_arith);
    y * width + x
}

} // verus!
