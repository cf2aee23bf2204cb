//! The cell grid: row-major indexing and the neighbourhood of a cell.

use vstd::prelude::*;
use vstd::arithmetic::div_mod::lemma_fundamental_div_mod;

verus! {

/// Largest number of cells a grid may hold.
pub const MAX_CELLS: u32 = 0xFFFF_FFFF;

/// Which cells count as neighbours of a cell: the four that share an edge
/// with it, or those and the four that share only a corner.
#[derive(Clone, Copy, Debug, PartialEq, Eq, Structural)]
pub enum Adjacency {
    Four,
    Eight,
}

/// Number of cells of a `width` by `height` grid.
pub open spec fn cell_count(width: u32, height: u32) -> nat {
    (width as nat) * (height as nat)
}

/// Column `x`, row `y` lies on the grid.
pub open spec fn in_grid(width: int, height: int, x: int, y: int) -> bool {
    0 <= x < width && 0 <= y < height
}

/// Row-major index of column `x`, row `y`.
pub open spec fn cell_index(width: int, x: int, y: int) -> int {
    y * width + x
}

/// `(dx, dy)` leads from a cell to one of its neighbours.
pub open spec fn is_step(adjacency: Adjacency, dx: int, dy: int) -> bool {
    &&& -1 <= dx <= 1
    &&& -1 <= dy <= 1
    &&& (dx != 0 || dy != 0)
    &&& (adjacency == Adjacency::Eight || dx == 0 || dy == 0)
}

/// The index of a cell on the grid is below the number of cells.
pub proof fn index_in_grid(width: int, height: int, x: int, y: int)
    requires
        in_grid(width, height, x, y),
    ensures
        0 <= cell_index(width, x, y) < width * height,
{
    assert(0 <= y * width && (y + 1) * width <= height * width) by (nonlinear_arith)
        requires
            0 <= y < height,
            0 < width,
    ;
    assert((y + 1) * width == y * width + width) by (nonlinear_arith);
    assert(height * width == width * height) by (nonlinear_arith);
}

/// Every index below the number of cells is the index of one cell, whose
/// column and row are the remainder and the quotient by the width.
pub proof fn cell_of_index(width: int, height: int, i: int)
    requires
        0 < width,
        0 <= i < width * height,
    ensures
        in_grid(width, height, i % width, i / width),
        cell_index(width, i % width, i / width) == i,
{
    lemma_fundamental_div_mod(i, width);
    let q = i / width;
    assert(0 <= q) by (nonlinear_arith)
        requires
            0 < width,
            0 <= i,
            q == i / width,
    ;
    if q >= height {
        assert(q * width >= height * width) by (nonlinear_arith)
            requires
                q >= height,
                0 < width,
        ;
        assert(height * width == width * height) by (nonlinear_arith);
    }
}

/// Decides whether `len` is the number of cells of a `width` by `height` grid.
pub fn is_cell_count(width: u32, height: u32, len: usize) -> (same: bool)
    ensures
        same == (len == cell_count(width, height)),
{
    assert((width as int) * (height as int) <= 0xFFFF_FFFF * 0xFFFF_FFFF) by (nonlinear_arith)
        requires
            width <= 0xFFFF_FFFF,
            height <= 0xFFFF_FFFF,
    ;
    let product: u64 = (width as u64) * (height as u64);
    len as u64 == product
}

} // verus!
