//! The row-major mapping between grid coordinates and buffer indices.

use vstd::prelude::*;

verus! {

/// Buffer index of the cell in column `x` of row `y`.
pub open spec fn to_index(width: int, x: int, y: int) -> int {
    y * width + x
}

/// Column and row of the cell at buffer index `index`.
pub open spec fn to_coord(width: int, index: int) -> (int, int) {
    (index % width, index / width)
}

/// `(x, y)` names a cell of a `width` by `height` grid.
pub open spec fn in_grid(width: int, height: int, x: int, y: int) -> bool {
    0 <= x < width && 0 <= y < height
}

/// Every index of the buffer maps to a coordinate pair inside the grid, and
/// mapping that pair back gives the index again.
pub proof fn lemma_index_round_trip(width: nat, height: nat, index: int)
    requires
        0 <= index < width * height,
    ensures
        in_grid(
            width as int,
            height as int,
            to_coord(width as int, index).0,
            to_coord(width as int, index).1,
        ),
        to_index(width as int, to_coord(width as int, index).0, to_coord(width as int, index).1)
            == index,
{
    let w = width as int;
    let h = height as int;
    assert(w > 0) by (nonlinear_arith)
        requires
            0 <= index < w * h,
            w >= 0,
    ;
    let x = index % w;
    let y = index / w;
    assert(index == w * y + x && 0 <= x < w) by (nonlinear_arith)
        requires
            w > 0,
            x == index % w,
            y == index / w,
    ;
    assert(y * w == w * y) by (nonlinear_arith);
    assert(0 <= y < h) by (nonlinear_arith)
        requires
            w > 0,
            0 <= x < w,
            index == w * y + x,
            0 <= index < w * h,
    ;
}

/// Every coordinate pair inside the grid maps to an index of the buffer, and
/// mapping that index back gives the pair again.
pub proof fn lemma_coord_round_trip(width: nat, height: nat, x: int, y: int)
    requires
        in_grid(width as int, height as int, x, y),
    ensures
        0 <= to_index(width as int, x, y) < width * height,
        to_coord(width as int, to_index(width as int, x, y)) == (x, y),
{
    let w = width as int;
    let h = height as int;
    let index = y * w + x;
    assert(0 <= index < w * h) by (nonlinear_arith)
        requires
            0 <= x < w,
            0 <= y < h,
            index == y * w + x,
    ;
    assert(index % w == x && index / w == y) by (nonlinear_arith)
        requires
            0 <= x < w,
            0 <= y,
            index == y * w + x,
    ;
}

} // verus!
