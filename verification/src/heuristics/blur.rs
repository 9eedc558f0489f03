//! Blur detection via Laplacian variance.
//!
//! The 2-D Laplacian kernel [[0,1,0],[1,-4,1],[0,1,0]] measures local
//! curvature.  Sharp images give a high variance of the response, blurry
//! ones a low variance.  Border cells have response 0 and still count.
use vstd::prelude::*;

use crate::heuristics::grid::{interior, lemma_cell, lemma_step};
use crate::moments::{
    lemma_constant_variance_below,
    lemma_sums_take_next,
    seq_sum,
    seq_sum_sq,
    variance_below,
    variance_below_from_moments,
};

verus! {

/// An image is blurry when the variance of its Laplacian response is below this.
pub const BLUR_THRESHOLD: u64 = 80;

/// Laplacian response at flat index `i`: 0 on the border.
pub open spec fn laplacian_at(p: Seq<u8>, w: int, h: int, i: int) -> int {
    if interior(w, h, i) {
        p[i - w] + p[i + w] + p[i - 1] + p[i + 1] - 4 * p[i]
    } else {
        0
    }
}

/// The per-pixel Laplacian responses of a `w`×`h` image, in row-major order.
pub open spec fn laplacian_response(p: Seq<u8>, w: int, h: int) -> Seq<int> {
    Seq::new((w * h) as nat, |i: int| laplacian_at(p, w, h, i))
}

/// What the pixel slice must hold for the interior cells to be readable.
pub open spec fn grid_readable(len: int, w: int, h: int) -> bool {
    w >= 3 && h >= 3 ==> len + 1 >= w * h
}

/// The count, sum and sum of squares of the Laplacian responses.
pub fn laplacian_moments(pixels: &[u8], width: usize, height: usize) -> (m: (u64, i128, u128))
    requires
        width * height <= usize::MAX,
        grid_readable(pixels@.len() as int, width as int, height as int),
    ensures
        m.0 == width * height,
        m.1 == seq_sum(laplacian_response(pixels@, width as int, height as int)),
        m.2 == seq_sum_sq(laplacian_response(pixels@, width as int, height as int)),
        -1024 * m.0 <= m.1 <= 1024 * m.0,
        m.2 <= 1048576 * m.0,
{
    let n: usize = width * height;
    let ghost resp = laplacian_response(pixels@, width as int, height as int);
    let mut sum: i128 = 0;
    let mut sum_sq: u128 = 0;
    let mut idx: usize = 0;
    let mut row: usize = 0;
    let mut col: usize = 0;
    while idx < n
        invariant
            n == width * height,
            resp == laplacian_response(pixels@, width as int, height as int),
            grid_readable(pixels@.len() as int, width as int, height as int),
            idx <= n,
            width > 0 ==> col < width,
            idx == row * width + col,
            sum == seq_sum(resp.take(idx as int)),
            sum_sq == seq_sum_sq(resp.take(idx as int)),
            -1020 * idx <= sum <= 1020 * idx,
            sum_sq <= 1040400 * idx,
        decreases n - idx,
    {
        proof {
            assert(width > 0) by (nonlinear_arith)
                requires
                    idx < width * height,
            ;
            lemma_cell(width as int, height as int, row as int, col as int);
        }
        let v: i64 = if row >= 1 && row + 1 < height && col >= 1 && col + 1 < width {
            pixels[idx - width] as i64 + pixels[idx + width] as i64 + pixels[idx - 1] as i64
                + pixels[idx + 1] as i64 - 4 * (pixels[idx] as i64)
        } else {
            0
        };
        proof {
            assert(v == resp[idx as int]);
            lemma_sums_take_next(resp, idx as int);
            assert(0 <= v * v <= 1040400) by (nonlinear_arith)
                requires
                    -1020 <= v <= 1020,
            ;
            assert(sum_sq + v * v <= 1040400 * (idx + 1));
            lemma_step(width as int, row as int, col as int);
        }
        sum = sum + v as i128;
        sum_sq = sum_sq + (v * v) as u128;
        idx = idx + 1;
        col = col + 1;
        if col == width {
            col = 0;
            row = row + 1;
        }
    }
    proof {
        assert(resp.take(n as int) =~= resp);
    }
    (n as u64, sum, sum_sq)
}

/// True if the image is considered blurry: the variance of its Laplacian
/// response is below `BLUR_THRESHOLD`.  Computed exactly.
pub fn is_blurry(pixels: &[u8], width: usize, height: usize) -> (r: bool)
    requires
        width * height <= usize::MAX,
        grid_readable(pixels@.len() as int, width as int, height as int),
    ensures
        r == variance_below(
            laplacian_response(pixels@, width as int, height as int),
            BLUR_THRESHOLD as int,
        ),
{
    let (n, sum, sum_sq) = laplacian_moments(pixels, width, height);
    variance_below_from_moments(n, sum, sum_sq, BLUR_THRESHOLD)
}

/// A uniform image, all of whose pixels have the same value, has a zero
/// Laplacian response everywhere and is therefore blurry.
pub proof fn lemma_uniform_image_is_blurry(p: Seq<u8>, w: int, h: int)
    requires
        w >= 0,
        h >= 0,
        grid_readable(p.len() as int, w, h),
        forall|i: int| 0 <= i < p.len() ==> #[trigger] p[i] == p[0],
    ensures
        forall|i: int|
            0 <= i < w * h ==> #[trigger] laplacian_response(p, w, h)[i] == 0,
        variance_below(laplacian_response(p, w, h), BLUR_THRESHOLD as int),
{
    let resp = laplacian_response(p, w, h);
    assert forall|i: int| 0 <= i < w * h implies #[trigger] resp[i] == 0 by {
        if interior(w, h, i) {
            vstd::arithmetic::div_mod::lemma_fundamental_div_mod(i, w);
            vstd::arithmetic::div_mod::lemma_mod_bound(i, w);
            assert(i == (i / w) * w + i % w) by (nonlinear_arith)
                requires
                    i == w * (i / w) + i % w,
            ;
            lemma_cell(w, h, i / w, i % w);
            assert(w >= 3 && h >= 3);
        }
    }
    lemma_constant_variance_below(resp, 0, BLUR_THRESHOLD as int);
}

/// The Laplacian response of cell (`r`, `c`) is its top, bottom, left and
/// right neighbours minus four times the cell when the cell has all four
/// neighbours, and 0 on the border.
pub proof fn lemma_laplacian_kernel(p: Seq<u8>, w: int, h: int, r: int, c: int)
    requires
        0 <= r < h,
        0 <= c < w,
    ensures
        laplacian_response(p, w, h)[r * w + c] == if 1 <= r && r + 1 < h && 1 <= c && c + 1 < w {
            p[(r - 1) * w + c] + p[(r + 1) * w + c] + p[r * w + c - 1] + p[r * w + c + 1] - 4
                * p[r * w + c]
        } else {
            0
        },
{
    assert(r * w + c < w * h) by (nonlinear_arith)
        requires
            0 <= r < h,
            0 <= c < w,
    ;
    lemma_cell(w, h, r, c);
    assert(r * w + c - w == (r - 1) * w + c && r * w + c + w == (r + 1) * w + c)
        by (nonlinear_arith);
}

} // verus!
