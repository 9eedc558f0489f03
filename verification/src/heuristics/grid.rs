//! Row-major pixel grids: which flat indices are interior cells, and the
//! index arithmetic that walking such a grid relies on.
use vstd::prelude::*;

verus! {

/// The cell at flat index `i` of a `w`-wide, `h`-high row-major grid has a
/// neighbour on each of its four sides.
pub open spec fn interior(w: int, h: int, i: int) -> bool {
    &&& w > 0
    &&& 1 <= i / w
    &&& i / w + 1 < h
    &&& 1 <= i % w
    &&& i % w + 1 < w
}

/// Facts about the cell in row `row`, column `col` of a row-major grid.
pub proof fn lemma_cell(w: int, h: int, row: int, col: int)
    requires
        w > 0,
        0 <= col < w,
        0 <= row,
        row * w + col < w * h,
    ensures
        row < h,
        (row * w + col) / w == row,
        (row * w + col) % w == col,
        row >= 1 ==> row * w + col >= w,
        row + 1 < h && col + 1 < w ==> row * w + col + w + 2 <= w * h,
{
    vstd::arithmetic::div_mod::lemma_fundamental_div_mod_converse(row * w + col, w, row, col);
    assert(row < h) by (nonlinear_arith)
        requires
            w > 0,
            0 <= col,
            row * w + col < w * h,
    ;
    assert(row >= 1 ==> row * w + col >= w) by (nonlinear_arith)
        requires
            w > 0,
            0 <= col,
    ;
    assert(row + 1 < h && col + 1 < w ==> row * w + col + w + 2 <= w * h) by (nonlinear_arith)
        requires
            w > 0,
    ;
}

/// Moving one cell right, wrapping to the next row, keeps the
/// `idx == row * w + col` correspondence.
pub proof fn lemma_step(w: int, row: int, col: int)
    requires
        w > 0,
        0 <= col < w,
    ensures
        col + 1 < w ==> row * w + col + 1 == row * w + (col + 1),
        col + 1 == w ==> row * w + col + 1 == (row + 1) * w + 0,
{
    assert(col + 1 == w ==> row * w + col + 1 == (row + 1) * w + 0) by (nonlinear_arith);
}

} // verus!
