//! Sums, sums of squares and the population-variance threshold test, done
//! exactly in integer arithmetic.
use vstd::prelude::*;

verus! {

/// Sum of the values of `s`.
pub open spec fn seq_sum(s: Seq<int>) -> int
    decreases s.len(),
{
    if s.len() == 0 {
        0
    } else {
        seq_sum(s.drop_last()) + s.last()
    }
}

/// Sum of the squares of the values of `s`.
pub open spec fn seq_sum_sq(s: Seq<int>) -> int
    decreases s.len(),
{
    if s.len() == 0 {
        0
    } else {
        seq_sum_sq(s.drop_last()) + s.last() * s.last()
    }
}

/// The population variance of `s` is `(n·Σx² − (Σx)²) / n²`; an empty
/// sequence has variance 0.  True when that variance is strictly below `t`.
pub open spec fn variance_below(s: Seq<int>, t: int) -> bool {
    if s.len() == 0 {
        0 < t
    } else {
        s.len() * seq_sum_sq(s) - seq_sum(s) * seq_sum(s) < t * s.len() * s.len()
    }
}

/// Appending a value adds it to the sum and its square to the sum of squares.
pub proof fn lemma_sums_push(s: Seq<int>, x: int)
    ensures
        seq_sum(s.push(x)) == seq_sum(s) + x,
        seq_sum_sq(s.push(x)) == seq_sum_sq(s) + x * x,
{
    assert(s.push(x).drop_last() =~= s);
}

/// Taking one more element of a sequence extends the prefix sums by it.
pub proof fn lemma_sums_take_next(s: Seq<int>, i: int)
    requires
        0 <= i < s.len(),
    ensures
        seq_sum(s.take(i + 1)) == seq_sum(s.take(i)) + s[i],
        seq_sum_sq(s.take(i + 1)) == seq_sum_sq(s.take(i)) + s[i] * s[i],
{
    assert(s.take(i + 1) =~= s.take(i).push(s[i]));
    lemma_sums_push(s.take(i), s[i]);
}

/// A sequence whose values all equal `c` sums to `n·c`, and its squares to `n·c²`.
pub proof fn lemma_sums_constant(s: Seq<int>, c: int)
    requires
        forall|i: int| 0 <= i < s.len() ==> s[i] == c,
    ensures
        seq_sum(s) == s.len() * c,
        seq_sum_sq(s) == s.len() * (c * c),
    decreases s.len(),
{
    if s.len() > 0 {
        lemma_sums_constant(s.drop_last(), c);
        let k = s.len() as int;
        assert((k - 1) * c + c == k * c) by (nonlinear_arith);
        assert((k - 1) * (c * c) + c * c == k * (c * c)) by (nonlinear_arith);
    }
}

/// A sequence of equal values has variance 0, which is below every
/// positive threshold.
pub proof fn lemma_constant_variance_below(s: Seq<int>, c: int, t: int)
    requires
        forall|i: int| 0 <= i < s.len() ==> s[i] == c,
        t > 0,
    ensures
        variance_below(s, t),
{
    lemma_sums_constant(s, c);
    if s.len() > 0 {
        let n = s.len() as int;
        assert(n * (n * (c * c)) - (n * c) * (n * c) < t * n * n) by (nonlinear_arith)
            requires
                n > 0,
                t > 0,
        ;
    }
}

proof fn lemma_split_identity(n: int, a: int, q: int, r: int, s2: int, t: int, e: int)
    by (nonlinear_arith)
    requires
        a == q * n + r,
        e == s2 - q * q * n - 2 * q * r - t * n,
    ensures
        n * s2 - a * a - t * n * n == n * e - r * r,
{
}

proof fn lemma_quotient_bounds(n: int, a: int, q: int, r: int)
    by (nonlinear_arith)
    requires
        n > 0,
        0 <= r < n,
        a == q * n + r,
        0 <= a <= 1024 * n,
    ensures
        0 <= q <= 1024,
        q * q * n <= 1048576 * n,
        0 <= 2 * q * r <= 2048 * n,
{
}

proof fn lemma_sign_cases(n: int, e: int, r: int)
    by (nonlinear_arith)
    requires
        n > 0,
        0 <= r < n,
    ensures
        e >= n ==> n * e - r * r > 0,
        e < 0 ==> n * e - r * r < 0,
        e == 0 ==> (n * e - r * r < 0 <==> r != 0),
        0 < e < n ==> n * e < n * n,
        r * r < n * n,
{
}

/// Decides whether a population variance lies strictly below `threshold`,
/// given the count, the sum and the sum of squares of the values, each of
/// magnitude at most 1024.  Exact: no rounding takes place.
pub fn variance_below_from_moments(count: u64, sum: i128, sum_sq: u128, threshold: u64) -> (r:
    bool)
    requires
        -1024 * count <= sum <= 1024 * count,
        sum_sq <= 1048576 * count,
        threshold <= 1024,
    ensures
        r == (if count == 0 {
            0 < threshold
        } else {
            count * sum_sq - sum * sum < threshold * count * count
        }),
{
    if count == 0 {
        return threshold > 0;
    }
    let n: u128 = count as u128;
    let a: u128 = if sum < 0 {
        (0 - sum) as u128
    } else {
        sum as u128
    };
    let q: u128 = a / n;
    let rem: u128 = a % n;
    proof {
        vstd::arithmetic::div_mod::lemma_fundamental_div_mod(a as int, n as int);
        assert(a == n * q + rem);
        assert(a == q * n + rem) by (nonlinear_arith)
            requires
                a == n * q + rem,
        ;
        lemma_quotient_bounds(n as int, a as int, q as int, rem as int);
        assert(n <= 0x1_0000_0000_0000_0000);
        assert(1048576 * n <= 0x10_0000_0000_0000_0000_0000);
        assert(q * q <= 1048576) by (nonlinear_arith)
            requires
                0 <= q <= 1024,
        ;
        assert(threshold * n <= 1024 * n) by (nonlinear_arith)
            requires
                threshold <= 1024,
                n >= 0,
        ;
    }
    let qqn: u128 = q * q * n;
    let qr2: u128 = 2 * q * rem;
    let tn: u128 = (threshold as u128) * n;
    let e: i128 = sum_sq as i128 - qqn as i128 - qr2 as i128 - tn as i128;
    proof {
        lemma_split_identity(
            n as int,
            a as int,
            q as int,
            rem as int,
            sum_sq as int,
            threshold as int,
            e as int,
        );
        assert(sum * sum == a * a) by (nonlinear_arith)
            requires
                a == sum || a == -sum,
        ;
        lemma_sign_cases(n as int, e as int, rem as int);
    }
    if e >= n as i128 {
        false
    } else if e <= 0 {
        !(e == 0 && rem == 0)
    } else {
        proof {
            assert(n * n <= u128::MAX) by (nonlinear_arith)
                requires
                    n <= 0xffff_ffff_ffff_ffff,
            ;
        }
        n * (e as u128) < rem * rem
    }
}

} // verus!
