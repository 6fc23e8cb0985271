//! Row-major grids: cell `(x, y)` of a `width` by `height` grid is cell
//! number `y * width + x`.

use vstd::prelude::*;

verus! {

/// The most cells a grid can have: four bytes for each are counted in 32
/// bits.
pub const MAX_CELLS: u32 = 0x3FFF_FFFF;

/// The number of the cell `(x, y)` in a grid `width` cells wide.
pub open spec fn cell_index(x: int, y: int, width: int) -> int {
    y * width + x
}

/// The number of cells of a grid.
pub fn cell_count(width: u32, height: u32) -> (cells: u64)
    ensures
        cells == width * height,
{
    assert(0 <= width * height <= 0xFFFF_FFFF * 0xFFFF_FFFF) by (nonlinear_arith)
        requires
            0 <= width <= 0xFFFF_FFFF,
            0 <= height <= 0xFFFF_FFFF,
    ;
    (width as u64) * (height as u64)
}

/// Every cell inside the grid has a number below the number of cells, and
/// the cell can be read back from its number.
pub proof fn lemma_cell_index(x: int, y: int, width: int, height: int)
    requires
        0 <= x < width,
        0 <= y < height,
    ensures
        0 <= cell_index(x, y, width) < width * height,
        cell_index(x, y, width) % width == x,
        cell_index(x, y, width) / width == y,
{
    assert(y * width + x < width * height && y * width >= 0) by (nonlinear_arith)
        requires
            0 <= x < width,
            0 <= y < height,
    ;
    vstd::arithmetic::div_mod::lemma_fundamental_div_mod_converse(y * width + x, width, y, x);
}

/// The number of the cell `(x, y)`, or `None` for a place outside the grid.
pub fn index_of(x: u32, y: u32, width: u32, height: u32) -> (index: Option<u64>)
    ensures
        index is Some <==> x < width && y < height,
        index matches Some(cell) ==> cell == cell_index(x as int, y as int, width as int),
{
    if x < width && y < height {
        proof {
            lemma_cell_index(x as int, y as int, width as int, height as int);
            assert(width * height <= 0xFFFF_FFFF * 0xFFFF_FFFF) by (nonlinear_arith)
                requires
                    0 <= width <= 0xFFFF_FFFF,
                    0 <= height <= 0xFFFF_FFFF,
            ;
            assert(0 <= y * width <= y * width + x) by (nonlinear_arith)
                requires
                    0 <= x,
                    0 <= y,
                    0 <= width,
            ;
        }
        Some((y as u64) * (width as u64) + (x as u64))
    } else {
        None
    }
}

} // verus!
