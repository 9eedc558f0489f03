//! Noise estimation via the variance of pixel values in flat regions.
//!
//! A pixel is flat when its gradient magnitude, from central differences,
//! is below 8, i.e. when the squared magnitude is below 64.  Border pixels
//! have gradient 0 and are flat.  The variance of the flat pixels' values
//! reflects sensor noise.
use vstd::prelude::*;

use crate::heuristics::blur::grid_readable;
use crate::heuristics::grid::{interior, lemma_cell, lemma_step};
use crate::moments::{
    lemma_constant_variance_below,
    lemma_sums_push,
    seq_sum,
    seq_sum_sq,
    variance_below,
    variance_below_from_moments,
};

verus! {

/// Fewer flat pixels than this are not enough to judge: the level is low.
pub const MIN_FLAT_PIXELS: u64 = 64;

/// Variance of the flat pixels below which noise is low.
pub const LOW_NOISE_VARIANCE: u64 = 6;

/// Variance of the flat pixels below which noise is medium.
pub const MEDIUM_NOISE_VARIANCE: u64 = 25;

/// Noise estimate of an image.
#[derive(PartialEq, Eq, Structural, Clone, Copy, Debug)]
pub enum NoiseLevel {
    Low,
    Medium,
    High,
}

impl NoiseLevel {
    /// The text naming the level.
    pub open spec fn label_view(self) -> Seq<char> {
        match self {
            NoiseLevel::Low => "low"@,
            NoiseLevel::Medium => "medium"@,
            NoiseLevel::High => "high"@,
        }
    }

    /// Returns "low", "medium" or "high".
    pub fn label(&self) -> (r: &'static str)
        ensures
            r@ == self.label_view(),
    {
        match self {
            NoiseLevel::Low => "low",
            NoiseLevel::Medium => "medium",
            NoiseLevel::High => "high",
        }
    }
}

/// Squared gradient magnitude at flat index `i`: 0 on the border.
pub open spec fn gradient_sq_at(p: Seq<u8>, w: int, h: int, i: int) -> int {
    if interior(w, h, i) {
        let gx = p[i + 1] - p[i - 1];
        let gy = p[i + w] - p[i - w];
        gx * gx + gy * gy
    } else {
        0
    }
}

/// The pixel at flat index `i` lies in a flat region.
pub open spec fn is_flat(p: Seq<u8>, w: int, h: int, i: int) -> bool {
    gradient_sq_at(p, w, h, i) < 64
}

/// Values of the flat pixels among the first `k`, in row-major order.
pub open spec fn flat_values(p: Seq<u8>, w: int, h: int, k: int) -> Seq<int>
    decreases k,
{
    if k <= 0 {
        Seq::empty()
    } else if is_flat(p, w, h, k - 1) {
        flat_values(p, w, h, k - 1).push(p[k - 1] as int)
    } else {
        flat_values(p, w, h, k - 1)
    }
}

/// Values of the flat pixels of a `w`×`h` image; only pixels that are both
/// in the slice and in the grid are considered.
pub open spec fn flat_region(p: Seq<u8>, w: int, h: int) -> Seq<int> {
    flat_values(p, w, h, if p.len() < w * h { p.len() as int } else { w * h })
}

/// The noise level that the flat region of an image indicates.
pub open spec fn noise_class(p: Seq<u8>, w: int, h: int) -> NoiseLevel {
    let flat = flat_region(p, w, h);
    if flat.len() < MIN_FLAT_PIXELS {
        NoiseLevel::Low
    } else if variance_below(flat, LOW_NOISE_VARIANCE as int) {
        NoiseLevel::Low
    } else if variance_below(flat, MEDIUM_NOISE_VARIANCE as int) {
        NoiseLevel::Medium
    } else {
        NoiseLevel::High
    }
}

/// Classifies the noise of a `width`×`height` image.  Exact: the flat-pixel
/// variance is compared with the thresholds without rounding.
pub fn classify_noise(pixels: &[u8], width: usize, height: usize) -> (r: NoiseLevel)
    requires
        width * height <= usize::MAX,
        grid_readable(pixels@.len() as int, width as int, height as int),
    ensures
        r == noise_class(pixels@, width as int, height as int),
{
    let n: usize = width * height;
    let m: usize = if pixels.len() < n {
        pixels.len()
    } else {
        n
    };
    let ghost p = pixels@;
    let mut count: u64 = 0;
    let mut sum: u128 = 0;
    let mut sum_sq: u128 = 0;
    let mut idx: usize = 0;
    let mut row: usize = 0;
    let mut col: usize = 0;
    while idx < m
        invariant
            n == width * height,
            m <= n,
            m <= pixels@.len(),
            p == pixels@,
            grid_readable(pixels@.len() as int, width as int, height as int),
            idx <= m,
            width > 0 ==> col < width,
            idx == row * width + col,
            count == flat_values(p, width as int, height as int, idx as int).len(),
            sum == seq_sum(flat_values(p, width as int, height as int, idx as int)),
            sum_sq == seq_sum_sq(flat_values(p, width as int, height as int, idx as int)),
            count <= idx,
            sum <= 255 * count,
            sum_sq <= 65025 * count,
        decreases m - idx,
    {
        proof {
            assert(width > 0) by (nonlinear_arith)
                requires
                    idx < width * height,
            ;
            lemma_cell(width as int, height as int, row as int, col as int);
        }
        let g: i64 = if row >= 1 && row + 1 < height && col >= 1 && col + 1 < width {
            let gx: i64 = pixels[idx + 1] as i64 - pixels[idx - 1] as i64;
            let gy: i64 = pixels[idx + width] as i64 - pixels[idx - width] as i64;
            proof {
                assert(0 <= gx * gx <= 65025 && 0 <= gy * gy <= 65025) by (nonlinear_arith)
                    requires
                        -255 <= gx <= 255,
                        -255 <= gy <= 255,
                ;
            }
            gx * gx + gy * gy
        } else {
            0
        };
        let ghost prev = flat_values(p, width as int, height as int, idx as int);
        proof {
            assert(g == gradient_sq_at(p, width as int, height as int, idx as int));
        }
        if g < 64 {
            let v: u8 = pixels[idx];
            proof {
                lemma_sums_push(prev, v as int);
                assert(flat_values(p, width as int, height as int, idx + 1) == prev.push(
                    v as int,
                ));
                assert(0 <= v * v <= 65025) by (nonlinear_arith)
                    requires
                        v <= 255,
                ;
                assert(sum_sq + v * v <= 65025 * (count + 1));
            }
            count = count + 1;
            sum = sum + v as u128;
            sum_sq = sum_sq + (v as u128) * (v as u128);
        } else {
            proof {
                assert(flat_values(p, width as int, height as int, idx + 1) == prev);
            }
        }
        proof {
            lemma_step(width as int, row as int, col as int);
        }
        idx = idx + 1;
        col = col + 1;
        if col == width {
            col = 0;
            row = row + 1;
        }
    }
    if count < MIN_FLAT_PIXELS {
        NoiseLevel::Low
    } else if variance_below_from_moments(count, sum as i128, sum_sq, LOW_NOISE_VARIANCE) {
        NoiseLevel::Low
    } else if variance_below_from_moments(count, sum as i128, sum_sq, MEDIUM_NOISE_VARIANCE) {
        NoiseLevel::Medium
    } else {
        NoiseLevel::High
    }
}

/// Returns "low", "medium" or "high": the label of `classify_noise`.
pub fn estimate_noise(pixels: &[u8], width: usize, height: usize) -> (r: &'static str)
    requires
        width * height <= usize::MAX,
        grid_readable(pixels@.len() as int, width as int, height as int),
    ensures
        r@ == noise_class(pixels@, width as int, height as int).label_view(),
        r@ == "low"@ || r@ == "medium"@ || r@ == "high"@,
{
    classify_noise(pixels, width, height).label()
}

proof fn lemma_flat_values_uniform(p: Seq<u8>, w: int, h: int, k: int)
    requires
        k <= p.len(),
        forall|i: int| 0 <= i < p.len() ==> #[trigger] p[i] == p[0],
    ensures
        forall|j: int|
            0 <= j < flat_values(p, w, h, k).len() ==> #[trigger] flat_values(p, w, h, k)[j]
                == p[0] as int,
    decreases k,
{
    if k > 0 {
        lemma_flat_values_uniform(p, w, h, k - 1);
        assert(p[k - 1] == p[0]);
        let prev = flat_values(p, w, h, k - 1);
        let cur = flat_values(p, w, h, k);
        assert forall|j: int| 0 <= j < cur.len() implies #[trigger] cur[j] == p[0] as int by {
            if j < prev.len() {
                assert(prev[j] == p[0] as int);
            }
        }
    }
}

/// The noise of a uniform image, all of whose pixels have the same value,
/// is low: its flat pixels all share that value.
pub proof fn lemma_uniform_image_noise_is_low(p: Seq<u8>, w: int, h: int)
    requires
        forall|i: int| 0 <= i < p.len() ==> #[trigger] p[i] == p[0],
    ensures
        noise_class(p, w, h) == NoiseLevel::Low,
{
    let m = if p.len() < w * h {
        p.len() as int
    } else {
        w * h
    };
    lemma_flat_values_uniform(p, w, h, m);
    lemma_constant_variance_below(flat_region(p, w, h), p[0] as int, LOW_NOISE_VARIANCE as int);
}

/// Cell (`r`, `c`) is flat exactly when it lies on the border or the sum of
/// the squares of its horizontal and vertical central differences is below 64.
pub proof fn lemma_flatness_kernel(p: Seq<u8>, w: int, h: int, r: int, c: int)
    requires
        0 <= r < h,
        0 <= c < w,
    ensures
        is_flat(p, w, h, r * w + c) <==> if 1 <= r && r + 1 < h && 1 <= c && c + 1 < w {
            (p[r * w + c + 1] - p[r * w + c - 1]) * (p[r * w + c + 1] - p[r * w + c - 1]) + (p[(r
                + 1) * w + c] - p[(r - 1) * w + c]) * (p[(r + 1) * w + c] - p[(r - 1) * w + c]) < 64
        } else {
            true
        },
{
    assert(r * w + c < w * h) by (nonlinear_arith)
        requires
            0 <= r < h,
            0 <= c < w,
    ;
    lemma_cell(w, h, r, c);
    assert(r * w + c - w == (r - 1) * w + c && r * w + c + w == (r + 1) * w + c)
        by (nonlinear_arith);
}

} // verus!
