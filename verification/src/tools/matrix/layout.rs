//! Row-major layout: how a cell address and a place in the storage
//! correspond, and where each transform takes a cell from.

use vstd::prelude::*;

verus! {

/// The place of cell `(x, y)` in the storage of a grid `width` cells wide.
pub open spec fn offset(width: int, x: int, y: int) -> int {
    y * width + x
}

/// How much of `extent` cells, counted from `start`, lies below `limit`.
pub open spec fn clip(start: int, extent: int, limit: int) -> int {
    if start >= limit {
        0
    } else if extent <= limit - start {
        extent
    } else {
        limit - start
    }
}

/// A cell inside a grid has its place inside the storage.
pub proof fn lemma_offset_in_storage(width: int, height: int, x: int, y: int)
    requires
        0 <= x < width,
        0 <= y < height,
    ensures
        0 <= offset(width, x, y) < width * height,
        y * width + x == offset(width, x, y),
{
    assert(0 <= y * width && (y + 1) * width <= height * width) by (nonlinear_arith)
        requires
            0 <= y < height,
            0 < width,
    ;
    assert((y + 1) * width == y * width + width) by (nonlinear_arith);
    assert(height * width == width * height) by (nonlinear_arith);
}

/// The place of a cell gives back its column and its row.
pub proof fn lemma_offset_split(width: int, x: int, y: int)
    requires
        0 <= x < width,
        0 <= y,
    ensures
        offset(width, x, y) / width == y,
        offset(width, x, y) % width == x,
        0 <= offset(width, x, y),
{
    vstd::arithmetic::div_mod::lemma_fundamental_div_mod_converse(offset(width, x, y), width, y, x);
    assert(0 <= y * width) by (nonlinear_arith)
        requires
            0 <= y,
            0 < width,
    ;
}

/// A place in the storage is the place of exactly one cell of the grid.
pub proof fn lemma_offset_join(width: int, height: int, k: int)
    requires
        0 <= k < width * height,
        0 <= width,
    ensures
        0 < width,
        0 < height,
        0 <= k % width < width,
        0 <= k / width < height,
        offset(width, k % width, k / width) == k,
{
    assert(0 < width && 0 < height) by (nonlinear_arith)
        requires
            0 <= k < width * height,
            0 <= width,
    ;
    vstd::arithmetic::div_mod::lemma_fundamental_div_mod(k, width);
    vstd::arithmetic::div_mod::lemma_mod_bound(k, width);
    let q = k / width;
    assert(width * q == q * width) by (nonlinear_arith);
    assert(0 <= q < height) by (nonlinear_arith)
        requires
            0 <= k < width * height,
            0 < width,
            k == q * width + k % width,
            0 <= k % width < width,
    ;
}

/// The product of two clipped extents is no more than the product of the
/// limits.
pub proof fn lemma_clip_area(x: int, w: int, width: int, y: int, h: int, height: int)
    requires
        0 <= x,
        0 <= y,
        0 <= w,
        0 <= h,
        0 <= width,
        0 <= height,
    ensures
        0 <= clip(x, w, width) <= width,
        0 <= clip(y, h, height) <= height,
        clip(x, w, width) <= w,
        clip(y, h, height) <= h,
        0 <= clip(x, w, width) * clip(y, h, height) <= width * height,
        clip(x, w, width) * clip(y, h, height) <= w * h,
{
    let cw = clip(x, w, width);
    let ch = clip(y, h, height);
    assert(0 <= cw * ch <= width * height) by (nonlinear_arith)
        requires
            0 <= cw <= width,
            0 <= ch <= height,
    ;
    assert(cw * ch <= w * h) by (nonlinear_arith)
        requires
            0 <= cw <= w,
            0 <= ch <= h,
    ;
}

} // verus!
