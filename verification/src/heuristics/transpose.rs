//! Transposing an image — swapping its width and height and reading pixel
//! (r, c) as pixel (c, r) — changes neither the blur verdict nor the noise
//! level: the Laplacian and the gradient treat rows and columns alike.
use vstd::prelude::*;

use crate::heuristics::blur::{laplacian_at, laplacian_response, BLUR_THRESHOLD};
use crate::heuristics::grid::interior;
use crate::heuristics::noise::{
    flat_region,
    flat_values,
    gradient_sq_at,
    is_flat,
    noise_class,
};
use crate::moments::{lemma_sums_push, seq_sum, seq_sum_sq, variance_below};

verus! {

/// `f(0) + f(1) + … + f(n - 1)`.
pub open spec fn sum_upto(f: spec_fn(int) -> int, n: int) -> int
    decreases n,
{
    if n <= 0 {
        0
    } else {
        sum_upto(f, n - 1) + f(n - 1)
    }
}

/// `f` read from position `a` on.
pub open spec fn shifted(f: spec_fn(int) -> int, a: int) -> spec_fn(int) -> int {
    |j: int| f(a + j)
}

/// The pointwise square of `f`.
pub open spec fn squared(f: spec_fn(int) -> int) -> spec_fn(int) -> int {
    |i: int| f(i) * f(i)
}

/// Row `r` of a two-argument function.
pub open spec fn row_of(g: spec_fn(int, int) -> int, r: int) -> spec_fn(int) -> int {
    |c: int| g(r, c)
}

/// Column `c` of a two-argument function.
pub open spec fn col_of(g: spec_fn(int, int) -> int, c: int) -> spec_fn(int) -> int {
    |r: int| g(r, c)
}

/// `f` read as a row-major grid with `cols` columns.
pub open spec fn unflatten(f: spec_fn(int) -> int, cols: int) -> spec_fn(int, int) -> int {
    |r: int, c: int| f(r * cols + c)
}

/// `g` with its two arguments swapped.
pub open spec fn swapped(g: spec_fn(int, int) -> int) -> spec_fn(int, int) -> int {
    |a: int, b: int| g(b, a)
}

/// Sum of `g(r, c)` over `0 <= r < rows`, `0 <= c < cols`, row by row.
pub open spec fn grid_sum(g: spec_fn(int, int) -> int, rows: int, cols: int) -> int
    decreases rows,
{
    if rows <= 0 {
        0
    } else {
        grid_sum(g, rows - 1, cols) + sum_upto(row_of(g, rows - 1), cols)
    }
}

pub proof fn lemma_sum_upto_ext(f: spec_fn(int) -> int, g: spec_fn(int) -> int, n: int)
    requires
        forall|i: int| 0 <= i < n ==> #[trigger] f(i) == g(i),
    ensures
        sum_upto(f, n) == sum_upto(g, n),
    decreases n,
{
    if n > 0 {
        lemma_sum_upto_ext(f, g, n - 1);
    }
}

pub proof fn lemma_sum_upto_split(f: spec_fn(int) -> int, a: int, b: int)
    requires
        a >= 0,
        b >= 0,
    ensures
        sum_upto(f, a + b) == sum_upto(f, a) + sum_upto(shifted(f, a), b),
    decreases b,
{
    if b > 0 {
        lemma_sum_upto_split(f, a, b - 1);
        assert(shifted(f, a)(b - 1) == f(a + b - 1));
    }
}

pub proof fn lemma_seq_new_sums(n: nat, f: spec_fn(int) -> int)
    ensures
        seq_sum(Seq::new(n, f)) == sum_upto(f, n as int),
        seq_sum_sq(Seq::new(n, f)) == sum_upto(squared(f), n as int),
    decreases n,
{
    if n > 0 {
        let s = Seq::new(n, f);
        assert(s.drop_last() =~= Seq::new((n - 1) as nat, f));
        lemma_seq_new_sums((n - 1) as nat, f);
        assert(squared(f)(n - 1) == f(n - 1) * f(n - 1));
    }
}

pub proof fn lemma_grid_sum_ext(
    g1: spec_fn(int, int) -> int,
    g2: spec_fn(int, int) -> int,
    rows: int,
    cols: int,
)
    requires
        forall|r: int, c: int| 0 <= r < rows && 0 <= c < cols ==> #[trigger] g1(r, c) == g2(r, c),
    ensures
        grid_sum(g1, rows, cols) == grid_sum(g2, rows, cols),
    decreases rows,
{
    if rows > 0 {
        lemma_grid_sum_ext(g1, g2, rows - 1, cols);
        assert forall|c: int| 0 <= c < cols implies #[trigger] row_of(g1, rows - 1)(c) == row_of(
            g2,
            rows - 1,
        )(c) by {
            assert(g1(rows - 1, c) == g2(rows - 1, c));
        }
        lemma_sum_upto_ext(row_of(g1, rows - 1), row_of(g2, rows - 1), cols);
    }
}

/// A row-major flat sum is the grid sum of the same values.
pub proof fn lemma_flat_to_grid(f: spec_fn(int) -> int, rows: int, cols: int)
    requires
        rows >= 0,
        cols >= 0,
    ensures
        sum_upto(f, rows * cols) == grid_sum(unflatten(f, cols), rows, cols),
    decreases rows,
{
    if rows == 0 {
        assert(rows * cols == 0);
    } else {
        lemma_flat_to_grid(f, rows - 1, cols);
        let a = (rows - 1) * cols;
        assert(a >= 0 && a + cols == rows * cols) by (nonlinear_arith)
            requires
                a == (rows - 1) * cols,
                rows >= 1,
                cols >= 0,
        ;
        lemma_sum_upto_split(f, a, cols);
        assert forall|c: int| 0 <= c < cols implies #[trigger] shifted(f, a)(c) == row_of(
            unflatten(f, cols),
            rows - 1,
        )(c) by {}
        lemma_sum_upto_ext(shifted(f, a), row_of(unflatten(f, cols), rows - 1), cols);
    }
}

proof fn lemma_grid_sum_no_cols(g: spec_fn(int, int) -> int, rows: int)
    ensures
        grid_sum(g, rows, 0) == 0,
    decreases rows,
{
    if rows > 0 {
        lemma_grid_sum_no_cols(g, rows - 1);
    }
}

/// Splitting off the last column of a grid sum.
proof fn lemma_grid_peel_col(g: spec_fn(int, int) -> int, rows: int, cols: int)
    requires
        cols >= 1,
    ensures
        grid_sum(g, rows, cols) == grid_sum(g, rows, cols - 1) + sum_upto(col_of(g, cols - 1), rows),
    decreases rows,
{
    if rows > 0 {
        lemma_grid_peel_col(g, rows - 1, cols);
        assert(row_of(g, rows - 1)(cols - 1) == g(rows - 1, cols - 1));
        assert(col_of(g, cols - 1)(rows - 1) == g(rows - 1, cols - 1));
    }
}

/// Summing a grid by rows or by columns gives the same total.
pub proof fn lemma_grid_swap(g: spec_fn(int, int) -> int, rows: int, cols: int)
    requires
        rows >= 0,
        cols >= 0,
    ensures
        grid_sum(g, rows, cols) == grid_sum(swapped(g), cols, rows),
    decreases rows,
{
    if rows == 0 {
        lemma_grid_sum_no_cols(swapped(g), cols);
    } else {
        lemma_grid_swap(g, rows - 1, cols);
        lemma_grid_peel_col(swapped(g), cols, rows);
        assert forall|c: int| 0 <= c < cols implies #[trigger] col_of(swapped(g), rows - 1)(c)
            == row_of(g, rows - 1)(c) by {}
        lemma_sum_upto_ext(col_of(swapped(g), rows - 1), row_of(g, rows - 1), cols);
    }
}

/// Summing the cells of a `w`×`h` grid in row-major order gives the same
/// total as summing the cells of its transpose in row-major order.
pub proof fn lemma_transpose_sum(fp: spec_fn(int) -> int, fq: spec_fn(int) -> int, w: int, h: int)
    requires
        w >= 0,
        h >= 0,
        forall|r: int, c: int|
            0 <= r < h && 0 <= c < w ==> #[trigger] unflatten(fq, h)(c, r) == unflatten(fp, w)(
                r,
                c,
            ),
    ensures
        sum_upto(fp, w * h) == sum_upto(fq, w * h),
{
    lemma_flat_to_grid(fp, h, w);
    lemma_grid_swap(unflatten(fp, w), h, w);
    lemma_flat_to_grid(fq, w, h);
    assert forall|a: int, b: int| 0 <= a < w && 0 <= b < h implies #[trigger] swapped(
        unflatten(fp, w),
    )(a, b) == unflatten(fq, h)(a, b) by {
        assert(unflatten(fq, h)(a, b) == unflatten(fp, w)(b, a));
    }
    lemma_grid_sum_ext(swapped(unflatten(fp, w)), unflatten(fq, h), w, h);
    assert(h * w == w * h) by (nonlinear_arith);
}

/// Pixel (`r`, `c`) of a row-major image `w` wide.
pub open spec fn cell(p: Seq<u8>, w: int, r: int, c: int) -> int {
    p[r * w + c] as int
}

/// `q` is the transpose of the `w`-wide, `h`-high image `p`: it is `h`
/// wide and `w` high, and its pixel (c, r) is pixel (r, c) of `p`.
pub open spec fn is_transpose(p: Seq<u8>, w: int, h: int, q: Seq<u8>) -> bool {
    &&& w >= 0
    &&& h >= 0
    &&& p.len() == w * h
    &&& q.len() == w * h
    &&& forall|r: int, c: int|
        0 <= r < h && 0 <= c < w ==> #[trigger] cell(q, h, c, r) == cell(p, w, r, c)
}

/// At corresponding cells of an image and its transpose, the pixel, the
/// Laplacian response and the squared gradient magnitude agree.
proof fn lemma_transposed_cell(p: Seq<u8>, w: int, h: int, q: Seq<u8>, r: int, c: int)
    requires
        is_transpose(p, w, h, q),
        0 <= r < h,
        0 <= c < w,
    ensures
        q[c * h + r] == p[r * w + c],
        laplacian_at(q, h, w, c * h + r) == laplacian_at(p, w, h, r * w + c),
        gradient_sq_at(q, h, w, c * h + r) == gradient_sq_at(p, w, h, r * w + c),
{
    let i = r * w + c;
    let j = c * h + r;
    vstd::arithmetic::div_mod::lemma_fundamental_div_mod_converse(i, w, r, c);
    vstd::arithmetic::div_mod::lemma_fundamental_div_mod_converse(j, h, c, r);
    assert(cell(q, h, c, r) == cell(p, w, r, c));
    assert(interior(w, h, i) == interior(h, w, j));
    if interior(w, h, i) {
        assert(i - w == (r - 1) * w + c && i + w == (r + 1) * w + c) by (nonlinear_arith)
            requires
                i == r * w + c,
        ;
        assert(j - h == (c - 1) * h + r && j + h == (c + 1) * h + r) by (nonlinear_arith)
            requires
                j == c * h + r,
        ;
        assert(cell(q, h, c, r - 1) == cell(p, w, r - 1, c));
        assert(cell(q, h, c, r + 1) == cell(p, w, r + 1, c));
        assert(cell(q, h, c - 1, r) == cell(p, w, r, c - 1));
        assert(cell(q, h, c + 1, r) == cell(p, w, r, c + 1));
        assert(q[j - 1] == p[i - w]);
        assert(q[j + 1] == p[i + w]);
        assert(q[j - h] == p[i - 1]);
        assert(q[j + h] == p[i + 1]);
    }
}

/// Transposing an image does not change whether the variance of its
/// Laplacian response is below any threshold; in particular it does not
/// change the blur verdict.
pub proof fn lemma_blur_transpose_invariant(p: Seq<u8>, w: int, h: int, q: Seq<u8>, t: int)
    requires
        is_transpose(p, w, h, q),
    ensures
        variance_below(laplacian_response(p, w, h), t) == variance_below(
            laplacian_response(q, h, w),
            t,
        ),
        variance_below(laplacian_response(p, w, h), BLUR_THRESHOLD as int) == variance_below(
            laplacian_response(q, h, w),
            BLUR_THRESHOLD as int,
        ),
{
    let fp = |i: int| laplacian_at(p, w, h, i);
    let fq = |i: int| laplacian_at(q, h, w, i);
    let n = w * h;
    assert(h * w == n) by (nonlinear_arith)
        requires
            n == w * h,
    ;
    assert(n >= 0) by (nonlinear_arith)
        requires
            w >= 0,
            h >= 0,
            n == w * h,
    ;
    assert(laplacian_response(p, w, h) =~= Seq::new(n as nat, fp));
    assert(laplacian_response(q, h, w) =~= Seq::new(n as nat, fq));
    lemma_seq_new_sums(n as nat, fp);
    lemma_seq_new_sums(n as nat, fq);
    assert forall|r: int, c: int| 0 <= r < h && 0 <= c < w implies #[trigger] unflatten(fq, h)(
        c,
        r,
    ) == unflatten(fp, w)(r, c) by {
        lemma_transposed_cell(p, w, h, q, r, c);
    }
    lemma_transpose_sum(fp, fq, w, h);
    assert forall|r: int, c: int| 0 <= r < h && 0 <= c < w implies #[trigger] unflatten(
        squared(fq),
        h,
    )(c, r) == unflatten(squared(fp), w)(r, c) by {
        lemma_transposed_cell(p, w, h, q, r, c);
    }
    lemma_transpose_sum(squared(fp), squared(fq), w, h);
}

/// Indicator of the flat pixels.
pub open spec fn flat_count_fn(p: Seq<u8>, w: int, h: int) -> spec_fn(int) -> int {
    |i: int| if is_flat(p, w, h, i) { 1int } else { 0int }
}

/// Value of each flat pixel, 0 elsewhere.
pub open spec fn flat_value_fn(p: Seq<u8>, w: int, h: int) -> spec_fn(int) -> int {
    |i: int| if is_flat(p, w, h, i) { p[i] as int } else { 0int }
}

/// Squared value of each flat pixel, 0 elsewhere.
pub open spec fn flat_square_fn(p: Seq<u8>, w: int, h: int) -> spec_fn(int) -> int {
    |i: int| if is_flat(p, w, h, i) { p[i] * p[i] } else { 0int }
}

proof fn lemma_flat_values_moments(p: Seq<u8>, w: int, h: int, k: int)
    requires
        k >= 0,
    ensures
        flat_values(p, w, h, k).len() == sum_upto(flat_count_fn(p, w, h), k),
        seq_sum(flat_values(p, w, h, k)) == sum_upto(flat_value_fn(p, w, h), k),
        seq_sum_sq(flat_values(p, w, h, k)) == sum_upto(flat_square_fn(p, w, h), k),
    decreases k,
{
    if k > 0 {
        lemma_flat_values_moments(p, w, h, k - 1);
        lemma_sums_push(flat_values(p, w, h, k - 1), p[k - 1] as int);
    }
}

/// Transposing an image does not change its noise level.
pub proof fn lemma_noise_transpose_invariant(p: Seq<u8>, w: int, h: int, q: Seq<u8>)
    requires
        is_transpose(p, w, h, q),
    ensures
        noise_class(p, w, h) == noise_class(q, h, w),
{
    let n = w * h;
    assert(h * w == n) by (nonlinear_arith)
        requires
            n == w * h,
    ;
    assert(n >= 0) by (nonlinear_arith)
        requires
            w >= 0,
            h >= 0,
            n == w * h,
    ;
    assert(flat_region(p, w, h) == flat_values(p, w, h, n));
    assert(flat_region(q, h, w) == flat_values(q, h, w, n));
    lemma_flat_values_moments(p, w, h, n);
    lemma_flat_values_moments(q, h, w, n);
    assert forall|r: int, c: int| 0 <= r < h && 0 <= c < w implies #[trigger] unflatten(
        flat_count_fn(q, h, w),
        h,
    )(c, r) == unflatten(flat_count_fn(p, w, h), w)(r, c) by {
        lemma_transposed_cell(p, w, h, q, r, c);
    }
    assert forall|r: int, c: int| 0 <= r < h && 0 <= c < w implies #[trigger] unflatten(
        flat_value_fn(q, h, w),
        h,
    )(c, r) == unflatten(flat_value_fn(p, w, h), w)(r, c) by {
        lemma_transposed_cell(p, w, h, q, r, c);
    }
    assert forall|r: int, c: int| 0 <= r < h && 0 <= c < w implies #[trigger] unflatten(
        flat_square_fn(q, h, w),
        h,
    )(c, r) == unflatten(flat_square_fn(p, w, h), w)(r, c) by {
        lemma_transposed_cell(p, w, h, q, r, c);
    }
    lemma_transpose_sum(flat_count_fn(p, w, h), flat_count_fn(q, h, w), w, h);
    lemma_transpose_sum(flat_value_fn(p, w, h), flat_value_fn(q, h, w), w, h);
    lemma_transpose_sum(flat_square_fn(p, w, h), flat_square_fn(q, h, w), w, h);
}

} // verus!
