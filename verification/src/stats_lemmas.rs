//! What holds of the statistics on every input.

use vstd::prelude::*;
use crate::fixed::{SCALE, fits_i64, is_sqrt_floor, lemma_sqrt_floor_is, lemma_trunc_div_multiple};
use crate::stats::{
    StatsError, MAX_SERIES, narrow, percent_change, sum, sum_squares, sum_indexed,
    index_sum, index_squares, fit_sxx, fit_sxy, fit_syy, fit_root, slope, correlation, best_fit,
    fit_computable, mean, squared_deviations, std_dev, bound_offset, bounds,
};
use crate::types::Bound;

verus! {

/// A value has not changed against itself: the percent change from `x` to
/// `x` is zero.
pub proof fn lemma_percent_change_same(x: i64)
    ensures
        percent_change(x as int, x as int) == 0,
        narrow(percent_change(x as int, x as int)) == Ok::<i64, StatsError>(0i64),
{
    assert((x - x) * 100 * SCALE == 0);
    if x > 0 {
        assert(0int / (x as int) == 0) by (nonlinear_arith)
            requires
                x > 0,
        ;
    }
    if x < 0 {
        assert(0int / (-(x as int)) == 0) by (nonlinear_arith)
            requires
                x < 0,
        ;
    }
}

/// The series climbs by `step` from one value to the next, starting at `first`.
pub open spec fn is_linear(s: Seq<i64>, first: int, step: int) -> bool {
    forall|i: int| 0 <= i < s.len() ==> #[trigger] s[i] == first + step * i
}

proof fn lemma_index_sums(n: nat)
    ensures
        2 * index_sum(n) == n * (n - 1),
        6 * index_squares(n) == (n - 1) * n * (2 * n - 1),
    decreases n,
{
    if n > 0 {
        lemma_index_sums((n - 1) as nat);
        let m = n - 1;
        assert(m * (m - 1) + 2 * m == (m + 1) * m) by (nonlinear_arith);
        assert((m - 1) * m * (2 * m - 1) + 6 * (m * m) == m * (m + 1) * (2 * (m + 1) - 1))
            by (nonlinear_arith);
    } else {
        assert((0 - 1) * 0 * (2 * 0 - 1) == 0) by (nonlinear_arith);
    }
}

/// The indices `0..n` spread out as soon as there are two of them.
pub proof fn lemma_fit_sxx_positive(n: nat)
    requires
        n >= 2,
    ensures
        fit_sxx(n) > 0,
        12 * fit_sxx(n) == n * n * (n - 1) * (n + 1),
{
    lemma_index_sums(n);
    let s = index_sum(n);
    let q = index_squares(n);
    assert(12 * (n * q - s * s) == n * n * (n - 1) * (n + 1)) by (nonlinear_arith)
        requires
            2 * s == n * (n - 1),
            6 * q == (n - 1) * n * (2 * n - 1),
    ;
    assert(n * n * (n - 1) * (n + 1) > 0) by (nonlinear_arith)
        requires
            n >= 2,
    ;
}

proof fn lemma_linear_sums(s: Seq<i64>, first: int, step: int)
    requires
        is_linear(s, first, step),
    ensures
        sum(s) == s.len() * first + step * index_sum(s.len()),
        sum_indexed(s) == first * index_sum(s.len()) + step * index_squares(s.len()),
        sum_squares(s) == s.len() * (first * first) + 2 * ((first * step) * index_sum(s.len()))
            + (step * step) * index_squares(s.len()),
    decreases s.len(),
{
    if s.len() > 0 {
        let rest = s.drop_last();
        assert(is_linear(rest, first, step)) by {
            assert forall|i: int| 0 <= i < rest.len() implies #[trigger] rest[i] == first + step
                * i by {
                assert(rest[i] == s[i]);
            }
        }
        lemma_linear_sums(rest, first, step);
        let m = rest.len() as int;
        let si = index_sum(rest.len());
        let sq = index_squares(rest.len());
        let last = s.last() as int;
        assert(last == first + step * m);
        assert(index_sum(s.len()) == si + m);
        assert(index_squares(s.len()) == sq + m * m);
        assert(m * first + step * si + last == (m + 1) * first + step * (si + m))
            by (nonlinear_arith)
            requires
                last == first + step * m,
        ;
        assert(first * si + step * sq + m * last == first * (si + m) + step * (sq + m * m))
            by (nonlinear_arith)
            requires
                last == first + step * m,
        ;
        let a = first * first;
        let b = first * step;
        let c = step * step;
        assert(last * last == a + 2 * (b * m) + c * (m * m)) by (nonlinear_arith)
            requires
                last == first + step * m,
                a == first * first,
                b == first * step,
                c == step * step,
        ;
        assert(b * (si + m) == b * si + b * m) by (nonlinear_arith);
        assert(c * (sq + m * m) == c * sq + c * (m * m)) by (nonlinear_arith);
        assert((m + 1) * a == m * a + a) by (nonlinear_arith);
    } else {
        assert(0 * first + step * 0 == 0) by (nonlinear_arith);
        assert(first * 0 + step * 0 == 0) by (nonlinear_arith);
        assert(0 * (first * first) + 2 * ((first * step) * 0) + (step * step) * 0 == 0)
            by (nonlinear_arith);
    }
}

/// On a series that climbs by `step` at every index, the regression finds
/// the slope `step` exactly, and the correlation is `1` where `step` is
/// positive, `-1` where it is negative and `0` where the series is flat.
pub proof fn lemma_best_fit_linear(s: Seq<i64>, first: int, step: int)
    requires
        s.len() >= 2,
        is_linear(s, first, step),
    ensures
        slope(s) == step,
        step > 0 ==> correlation(s) == SCALE,
        step < 0 ==> correlation(s) == -SCALE,
        step == 0 ==> correlation(s) == 0,
        fit_computable(s) && fits_i64(step) ==> best_fit(s) == Ok::<(i64, i64), StatsError>(
            (step as i64, correlation(s) as i64),
        ),
{
    let n = s.len() as int;
    lemma_linear_sums(s, first, step);
    lemma_fit_sxx_positive(s.len());
    let si = index_sum(s.len());
    let sq = index_squares(s.len());
    let sxx = fit_sxx(s.len());
    assert(fit_sxy(s) == step * sxx) by (nonlinear_arith)
        requires
            fit_sxy(s) == n * (first * si + step * sq) - si * (n * first + step * si),
            sxx == n * sq - si * si,
    ;
    let a = first * first;
    let b = first * step;
    let c = step * step;
    let total = n * first + step * si;
    let squares = n * a + 2 * (b * si) + c * sq;
    let p = n * first;
    let q = step * si;
    assert(total * total == p * p + 2 * (p * q) + q * q) by (nonlinear_arith)
        requires
            total == p + q,
    ;
    assert(p * p == (n * n) * a) by (nonlinear_arith)
        requires
            p == n * first,
            a == first * first,
    ;
    assert(p * q == n * (b * si)) by (nonlinear_arith)
        requires
            p == n * first,
            q == step * si,
            b == first * step,
    ;
    assert(q * q == c * (si * si)) by (nonlinear_arith)
        requires
            q == step * si,
            c == step * step,
    ;
    assert(n * squares == (n * n) * a + 2 * (n * (b * si)) + n * (c * sq)) by (nonlinear_arith)
        requires
            squares == n * a + 2 * (b * si) + c * sq,
    ;
    assert(n * (c * sq) - c * (si * si) == c * sxx) by (nonlinear_arith)
        requires
            sxx == n * sq - si * si,
    ;
    assert(fit_syy(s) == step * step * sxx);
    lemma_trunc_div_multiple(step, sxx);
    if step == 0 {
        assert(sxx * (step * step * sxx) == 0) by (nonlinear_arith)
            requires
                step == 0,
        ;
    } else {
        let size = if step > 0 {
            step
        } else {
            -step
        };
        let root = size * sxx;
        assert(root > 0) by (nonlinear_arith)
            requires
                root == size * sxx,
                size > 0,
                sxx > 0,
        ;
        assert(sxx * (step * step * sxx) == root * root) by (nonlinear_arith)
            requires
                root == size * sxx,
                size == step || size == -step,
        ;
        assert(root * root > 0 && root * root < (root + 1) * (root + 1)) by (nonlinear_arith)
            requires
                root > 0,
        ;
        assert(is_sqrt_floor(root * root, root));
        lemma_sqrt_floor_is(root * root, root);
        assert(fit_root(s) == root);
        if step > 0 {
            assert(fit_sxy(s) * SCALE == SCALE * root) by (nonlinear_arith)
                requires
                    fit_sxy(s) == step * sxx,
                    root == step * sxx,
            ;
            lemma_trunc_div_multiple(SCALE as int, root);
        } else {
            assert(fit_sxy(s) * SCALE == (-SCALE) * root) by (nonlinear_arith)
                requires
                    fit_sxy(s) == step * sxx,
                    root == (-step) * sxx,
            ;
            lemma_trunc_div_multiple(-SCALE as int, root);
        }
    }
}

/// Every value of the series is `value`.
pub open spec fn is_constant(s: Seq<i64>, value: int) -> bool {
    forall|i: int| 0 <= i < s.len() ==> #[trigger] s[i] == value
}

proof fn lemma_constant_sums(s: Seq<i64>, value: int)
    requires
        is_constant(s, value),
    ensures
        sum(s) == value * s.len(),
        squared_deviations(s, value) == 0,
    decreases s.len(),
{
    if s.len() > 0 {
        let rest = s.drop_last();
        assert(is_constant(rest, value)) by {
            assert forall|i: int| 0 <= i < rest.len() implies #[trigger] rest[i] == value by {
                assert(rest[i] == s[i]);
            }
        }
        lemma_constant_sums(rest, value);
        assert(s.last() == value);
        assert(value * rest.len() + value == value * s.len()) by (nonlinear_arith)
            requires
                s.len() == rest.len() + 1,
        ;
        assert((value - value) * (value - value) == 0) by (nonlinear_arith);
    } else {
        assert(value * 0 == 0) by (nonlinear_arith);
    }
}

/// Where the standard deviation is zero the envelope has no width: upper
/// and lower bound both equal the mean.
pub proof fn lemma_bounds_without_deviation(s: Seq<i64>, width: i64)
    requires
        std_dev(s) == 0,
    ensures
        bound_offset(s, width as int) == 0,
        bounds(s, width).is_ok() ==> bounds(s, width).unwrap().upper == bounds(
            s,
            width,
        ).unwrap().middle && bounds(s, width).unwrap().lower == bounds(s, width).unwrap().middle,
{
    assert(std_dev(s) * width == 0) by (nonlinear_arith)
        requires
            std_dev(s) == 0,
    ;
}

/// A constant series has the standard deviation zero, and its envelope is
/// its value three times.
pub proof fn lemma_bounds_constant(s: Seq<i64>, value: i64, width: i64)
    requires
        s.len() >= 1,
        is_constant(s, value as int),
    ensures
        mean(s) == value,
        std_dev(s) == 0,
        s.len() <= MAX_SERIES ==> bounds(s, width) == Ok::<Bound, StatsError>(
            Bound { upper: value, middle: value, lower: value },
        ),
{
    lemma_constant_sums(s, value as int);
    lemma_trunc_div_multiple(value as int, s.len() as int);
    assert(0int / (s.len() as int) == 0) by (nonlinear_arith)
        requires
            s.len() >= 1,
    ;
    assert(is_sqrt_floor(0, 0));
    lemma_sqrt_floor_is(0, 0);
    lemma_bounds_without_deviation(s, width);
}

} // verus!
