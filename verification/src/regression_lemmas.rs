//! Why slope and correlation stay within bounds: the Cauchy-Schwarz
//! inequality for the deviations of index and value from their means.

use vstd::prelude::*;
use crate::fixed::{SCALE, fits_i64, sqrt_floor, lemma_sqrt_floor_exists, lemma_quotient_bound};
use crate::stats::{
    sum, sum_squares, sum_indexed, index_sum, index_squares, fit_sxx, fit_sxy, fit_syy, slope,
    correlation, fit_computable, best_fit,
};

verus! {

/// `n` times the distance of index `i` from the mean index, for a total `p`
/// of the indices.
pub open spec fn index_deviation(i: int, n: int, p: int) -> int {
    n * i - p
}

/// `n` times the distance of value `i` from the mean value, for a total `q`
/// of the values.
pub open spec fn value_deviation(s: Seq<i64>, i: int, n: int, q: int) -> int {
    n * s[i] - q
}

/// The sum over the first `k` points of the squared index deviations.
pub open spec fn index_deviation_squares(k: int, n: int, p: int) -> int
    decreases k,
{
    if k <= 0 {
        0
    } else {
        index_deviation_squares(k - 1, n, p) + index_deviation(k - 1, n, p) * index_deviation(
            k - 1,
            n,
            p,
        )
    }
}

/// The sum over the first `k` points of the squared value deviations.
pub open spec fn value_deviation_squares(s: Seq<i64>, k: int, n: int, q: int) -> int
    decreases k,
{
    if k <= 0 {
        0
    } else {
        value_deviation_squares(s, k - 1, n, q) + value_deviation(s, k - 1, n, q)
            * value_deviation(s, k - 1, n, q)
    }
}

/// The sum over the first `k` points of the products of index deviation
/// and value deviation.
pub open spec fn deviation_products(s: Seq<i64>, k: int, n: int, p: int, q: int) -> int
    decreases k,
{
    if k <= 0 {
        0
    } else {
        deviation_products(s, k - 1, n, p, q) + index_deviation(k - 1, n, p) * value_deviation(
            s,
            k - 1,
            n,
            q,
        )
    }
}

/// The sum over the first `k` points of the squares of `u` value
/// deviations less `v` index deviations.
pub open spec fn combination_squares(
    s: Seq<i64>,
    k: int,
    n: int,
    p: int,
    q: int,
    u: int,
    v: int,
) -> int
    decreases k,
{
    if k <= 0 {
        0
    } else {
        combination_squares(s, k - 1, n, p, q, u, v) + (u * value_deviation(s, k - 1, n, q) - v
            * index_deviation(k - 1, n, p)) * (u * value_deviation(s, k - 1, n, q) - v
            * index_deviation(k - 1, n, p))
    }
}

proof fn lemma_square_of_difference(u: int, v: int, a: int, b: int)
    ensures
        (u * b - v * a) * (u * b - v * a) == (u * u) * (b * b) - 2 * ((u * v) * (a * b)) + (v * v)
            * (a * a),
{
    let x = u * b;
    let y = v * a;
    assert((x - y) * (x - y) == x * x - 2 * (x * y) + y * y) by (nonlinear_arith);
    assert(x * x == (u * u) * (b * b)) by (nonlinear_arith)
        requires
            x == u * b,
    ;
    assert(y * y == (v * v) * (a * a)) by (nonlinear_arith)
        requires
            y == v * a,
    ;
    assert(x * y == (u * v) * (a * b)) by (nonlinear_arith)
        requires
            x == u * b,
            y == v * a,
    ;
}

proof fn lemma_distribute(c: int, x: int, y: int)
    by (nonlinear_arith)
    ensures
        c * (x + y) == c * x + c * y,
        c * (x - y) == c * x - c * y,
{
}

/// A sum of squares of combined deviations is not negative, and it is the
/// combination of the three sums of squares and products.
proof fn lemma_combination_squares(s: Seq<i64>, k: int, n: int, p: int, q: int, u: int, v: int)
    requires
        0 <= k <= s.len(),
    ensures
        combination_squares(s, k, n, p, q, u, v) >= 0,
        combination_squares(s, k, n, p, q, u, v) == (u * u) * value_deviation_squares(s, k, n, q)
            - 2 * ((u * v) * deviation_products(s, k, n, p, q)) + (v * v)
            * index_deviation_squares(k, n, p),
    decreases k,
{
    if k > 0 {
        lemma_combination_squares(s, k - 1, n, p, q, u, v);
        let a = index_deviation(k - 1, n, p);
        let b = value_deviation(s, k - 1, n, q);
        let w = u * b - v * a;
        assert(w * w >= 0) by (nonlinear_arith);
        lemma_square_of_difference(u, v, a, b);
        lemma_distribute(u * u, value_deviation_squares(s, k - 1, n, q), b * b);
        lemma_distribute(u * v, deviation_products(s, k - 1, n, p, q), a * b);
        lemma_distribute(v * v, index_deviation_squares(k - 1, n, p), a * a);
    } else {
        assert((u * u) * 0 - 2 * ((u * v) * 0) + (v * v) * 0 == 0) by (nonlinear_arith);
    }
}

/// The square of the sum of products is at most the product of the two
/// sums of squares.
proof fn lemma_cauchy_schwarz(s: Seq<i64>, k: int, n: int, p: int, q: int)
    requires
        0 <= k <= s.len(),
        index_deviation_squares(k, n, p) > 0,
    ensures
        deviation_products(s, k, n, p, q) * deviation_products(s, k, n, p, q)
            <= index_deviation_squares(k, n, p) * value_deviation_squares(s, k, n, q),
{
    let xx = index_deviation_squares(k, n, p);
    let xy = deviation_products(s, k, n, p, q);
    let yy = value_deviation_squares(s, k, n, q);
    lemma_combination_squares(s, k, n, p, q, xx, xy);
    let total = combination_squares(s, k, n, p, q, xx, xy);
    assert(total == (xx * xx) * yy - 2 * ((xx * xy) * xy) + (xy * xy) * xx);
    assert((xx * xx) * yy - 2 * ((xx * xy) * xy) + (xy * xy) * xx == xx * (xx * yy - xy * xy))
        by (nonlinear_arith);
    assert(xx * yy - xy * xy >= 0) by (nonlinear_arith)
        requires
            xx > 0,
            xx * (xx * yy - xy * xy) >= 0,
    ;
}

proof fn lemma_prefix(s: Seq<i64>, k: int)
    requires
        0 < k <= s.len(),
    ensures
        s.take(k).drop_last() == s.take(k - 1),
        s.take(k).last() == s[k - 1],
        s.take(k).len() == k,
{
    assert(s.take(k).drop_last() =~= s.take(k - 1));
}

/// The sums of deviation squares and products, written out in the sums of
/// indices and values.
proof fn lemma_deviation_sums(s: Seq<i64>, k: int, n: int, p: int, q: int)
    requires
        0 <= k <= s.len(),
    ensures
        index_deviation_squares(k, n, p) == (n * n) * index_squares(k as nat) - 2 * ((n * p)
            * index_sum(k as nat)) + k * (p * p),
        value_deviation_squares(s, k, n, q) == (n * n) * sum_squares(s.take(k)) - 2 * ((n * q)
            * sum(s.take(k))) + k * (q * q),
        deviation_products(s, k, n, p, q) == (n * n) * sum_indexed(s.take(k)) - (n * q)
            * index_sum(k as nat) - (n * p) * sum(s.take(k)) + k * (p * q),
    decreases k,
{
    if k > 0 {
        lemma_deviation_sums(s, k - 1, n, p, q);
        lemma_prefix(s, k);
        let i = k - 1;
        let y = s[i] as int;
        let a = index_deviation(i, n, p);
        let b = value_deviation(s, i, n, q);
        let x = n * i;
        let z = n * y;
        assert((x - p) * (x - p) == x * x - 2 * (x * p) + p * p) by (nonlinear_arith);
        assert((z - q) * (z - q) == z * z - 2 * (z * q) + q * q) by (nonlinear_arith);
        assert((x - p) * (z - q) == x * z - x * q - p * z + p * q) by (nonlinear_arith);
        assert(x * x == (n * n) * (i * i)) by (nonlinear_arith)
            requires
                x == n * i,
        ;
        assert(z * z == (n * n) * (y * y)) by (nonlinear_arith)
            requires
                z == n * y,
        ;
        assert(x * z == (n * n) * (i * y)) by (nonlinear_arith)
            requires
                x == n * i,
                z == n * y,
        ;
        assert(x * p == (n * p) * i && x * q == (n * q) * i) by (nonlinear_arith)
            requires
                x == n * i,
        ;
        assert(z * q == (n * q) * y && p * z == (n * p) * y) by (nonlinear_arith)
            requires
                z == n * y,
        ;
        assert(a * a == (n * n) * (i * i) - 2 * ((n * p) * i) + p * p);
        assert(b * b == (n * n) * (y * y) - 2 * ((n * q) * y) + q * q);
        assert(a * b == (n * n) * (i * y) - (n * q) * i - (n * p) * y + p * q);
        lemma_distribute(n * n, index_squares(i as nat), i * i);
        lemma_distribute(n * p, index_sum(i as nat), i);
        lemma_distribute(n * n, sum_squares(s.take(i)), y * y);
        lemma_distribute(n * q, sum(s.take(i)), y);
        lemma_distribute(n * n, sum_indexed(s.take(i)), i * y);
        lemma_distribute(n * q, index_sum(i as nat), i);
        lemma_distribute(n * p, sum(s.take(i)), y);
        assert(k * (p * p) == i * (p * p) + p * p) by (nonlinear_arith)
            requires
                k == i + 1,
        ;
        assert(k * (q * q) == i * (q * q) + q * q) by (nonlinear_arith)
            requires
                k == i + 1,
        ;
        assert(k * (p * q) == i * (p * q) + p * q) by (nonlinear_arith)
            requires
                k == i + 1,
        ;
    } else {
        assert(s.take(0) =~= Seq::<i64>::empty());
        assert((n * n) * 0 - 2 * ((n * p) * 0) + 0 * (p * p) == 0) by (nonlinear_arith);
        assert((n * n) * 0 - 2 * ((n * q) * 0) + 0 * (q * q) == 0) by (nonlinear_arith);
        assert((n * n) * 0 - (n * q) * 0 - (n * p) * 0 + 0 * (p * q) == 0) by (nonlinear_arith);
    }
}

/// The square of the regression's product sum is at most the product of its
/// two sums of squares.
pub proof fn lemma_fit_cauchy_schwarz(s: Seq<i64>)
    requires
        s.len() >= 2,
    ensures
        fit_sxx(s.len()) > 0,
        fit_sxy(s) * fit_sxy(s) <= fit_sxx(s.len()) * fit_syy(s),
{
    let n = s.len() as int;
    let p = index_sum(s.len());
    let q = sum(s);
    let ix = index_squares(s.len());
    let a = fit_sxx(s.len());
    let b = fit_sxy(s);
    let c = fit_syy(s);
    crate::stats_lemmas::lemma_fit_sxx_positive(s.len());
    lemma_deviation_sums(s, n, n, p, q);
    assert(s.take(n) =~= s);
    let xx = index_deviation_squares(n, n, p);
    let xy = deviation_products(s, n, n, p, q);
    let yy = value_deviation_squares(s, n, n, q);
    assert(xx == n * a) by (nonlinear_arith)
        requires
            xx == (n * n) * ix - 2 * ((n * p) * p) + n * (p * p),
            a == n * ix - p * p,
    ;
    assert(yy == n * c) by (nonlinear_arith)
        requires
            yy == (n * n) * sum_squares(s) - 2 * ((n * q) * q) + n * (q * q),
            c == n * sum_squares(s) - q * q,
    ;
    assert(xy == n * b) by (nonlinear_arith)
        requires
            xy == (n * n) * sum_indexed(s) - (n * q) * p - (n * p) * q + n * (p * q),
            b == n * sum_indexed(s) - p * q,
    ;
    assert(xx > 0) by (nonlinear_arith)
        requires
            xx == n * a,
            n >= 2,
            a > 0,
    ;
    lemma_cauchy_schwarz(s, n, n, p, q);
    assert(b * b <= a * c) by (nonlinear_arith)
        requires
            (n * b) * (n * b) <= (n * a) * (n * c),
            n >= 2,
    ;
}

/// Every value of the series is at most `limit` in magnitude.
pub open spec fn values_within(s: Seq<i64>, limit: int) -> bool {
    forall|i: int| 0 <= i < s.len() ==> -limit <= #[trigger] s[i] <= limit
}

proof fn lemma_sum_squares_bound(s: Seq<i64>, m: int)
    requires
        m >= 0,
        values_within(s, m),
    ensures
        0 <= sum_squares(s) <= s.len() * (m * m),
    decreases s.len(),
{
    if s.len() > 0 {
        let rest = s.drop_last();
        assert(values_within(rest, m)) by {
            assert forall|i: int| 0 <= i < rest.len() implies -m <= #[trigger] rest[i] <= m by {
                assert(rest[i] == s[i]);
            }
        }
        lemma_sum_squares_bound(rest, m);
        let y = s.last() as int;
        assert(0 <= y * y <= m * m) by (nonlinear_arith)
            requires
                -m <= y <= m,
        ;
        assert(s.len() * (m * m) == rest.len() * (m * m) + m * m) by (nonlinear_arith)
            requires
                s.len() == rest.len() + 1,
        ;
    } else {
        assert(0 * (m * m) == 0) by (nonlinear_arith);
    }
}

/// The sum of the squares of the first `k` values is not negative and no
/// more than the sum of the squares of all of them.
pub proof fn lemma_sum_squares_prefix(s: Seq<i64>, k: int)
    requires
        0 <= k <= s.len(),
    ensures
        0 <= sum_squares(s.take(k)) <= sum_squares(s),
    decreases s.len() - k,
{
    if k == s.len() {
        assert(s.take(k) =~= s);
        lemma_sum_squares_bound(s, 0x8000_0000_0000_0000);
    } else {
        lemma_sum_squares_prefix(s, k + 1);
        lemma_prefix(s, k + 1);
        let y = s[k] as int;
        assert(y * y >= 0) by (nonlinear_arith);
        lemma_sum_squares_bound(s.take(k), 0x8000_0000_0000_0000);
    }
}

proof fn lemma_value_deviation_squares_not_negative(s: Seq<i64>, k: int, n: int, q: int)
    requires
        0 <= k <= s.len(),
    ensures
        value_deviation_squares(s, k, n, q) >= 0,
    decreases k,
{
    if k > 0 {
        lemma_value_deviation_squares_not_negative(s, k - 1, n, q);
        let d = value_deviation(s, k - 1, n, q);
        assert(d * d >= 0) by (nonlinear_arith);
    }
}

/// The values never spread by less than nothing: the square of their sum
/// is at most their number times the sum of their squares.
pub proof fn lemma_fit_syy_not_negative(s: Seq<i64>)
    ensures
        fit_syy(s) >= 0,
{
    let n = s.len() as int;
    let q = sum(s);
    if n > 0 {
        lemma_deviation_sums(s, n, n, 0, q);
        lemma_value_deviation_squares_not_negative(s, n, n, q);
        assert(s.take(n) =~= s);
        let yy = value_deviation_squares(s, n, n, q);
        let c = fit_syy(s);
        assert(yy == n * c) by (nonlinear_arith)
            requires
                yy == (n * n) * sum_squares(s) - 2 * ((n * q) * q) + n * (q * q),
                c == n * sum_squares(s) - q * q,
        ;
        assert(c >= 0) by (nonlinear_arith)
            requires
                n * c >= 0,
                n > 0,
        ;
    } else {
        assert(sum_squares(s) == 0);
        assert(sum(s) == 0);
        assert(0 * sum_squares(s) - sum(s) * sum(s) == 0) by (nonlinear_arith)
            requires
                sum(s) == 0,
        ;
    }
}

/// A number whose square is below `(m + 1)` squared is at most `m` in
/// magnitude.
pub proof fn lemma_magnitude_of_root(b: int, m: int)
    by (nonlinear_arith)
    requires
        m >= 0,
        b * b < (m + 1) * (m + 1),
    ensures
        -m <= b <= m,
{
}

/// The correlation of a window of at least two values lies between `-1`
/// and `1`.
pub proof fn lemma_correlation_bounds(s: Seq<i64>)
    requires
        s.len() >= 2,
    ensures
        -SCALE <= correlation(s) <= SCALE,
{
    let a = fit_sxx(s.len());
    let b = fit_sxy(s);
    let c = fit_syy(s);
    lemma_fit_cauchy_schwarz(s);
    let product = a * c;
    if product > 0 {
        lemma_sqrt_floor_exists(product);
        let root = sqrt_floor(product);
        assert(root >= 1) by (nonlinear_arith)
            requires
                root >= 0,
                product >= 1,
                product < (root + 1) * (root + 1),
        ;
        lemma_magnitude_of_root(b, root);
        assert(-(root * SCALE) <= b * SCALE <= root * SCALE) by (nonlinear_arith)
            requires
                -root <= b <= root,
                SCALE == 1_000_000,
        ;
        lemma_quotient_bound(b * SCALE, root, SCALE as int);
    }
}

/// The slope of a window of at least two values that are at most `limit`
/// in magnitude is at most twice that.
pub proof fn lemma_slope_bound(s: Seq<i64>, limit: int)
    requires
        s.len() >= 2,
        limit >= 0,
        values_within(s, limit),
    ensures
        -2 * limit <= slope(s) <= 2 * limit,
{
    let n = s.len() as int;
    let a = fit_sxx(s.len());
    let b = fit_sxy(s);
    let c = fit_syy(s);
    let m = limit;
    lemma_fit_cauchy_schwarz(s);
    crate::stats_lemmas::lemma_fit_sxx_positive(s.len());
    lemma_sum_squares_bound(s, m);
    let total = sum(s);
    let squares = sum_squares(s);
    assert(c <= n * squares) by (nonlinear_arith)
        requires
            c == n * squares - total * total,
    ;
    assert(n * squares <= (n * n) * (m * m)) by (nonlinear_arith)
        requires
            0 <= squares <= n * (m * m),
            n >= 2,
    ;
    assert(n * n <= 4 * a) by (nonlinear_arith)
        requires
            12 * a == n * n * (n - 1) * (n + 1),
            n >= 2,
    ;
    let bound = a * (2 * m);
    assert(a * c <= a * ((n * n) * (m * m))) by (nonlinear_arith)
        requires
            a > 0,
            c <= (n * n) * (m * m),
    ;
    assert(m * m >= 0) by (nonlinear_arith);
    assert(a * ((n * n) * (m * m)) <= a * ((4 * a) * (m * m))) by (nonlinear_arith)
        requires
            a > 0,
            n * n <= 4 * a,
            m * m >= 0,
    ;
    assert(a * ((4 * a) * (m * m)) == bound * bound) by (nonlinear_arith)
        requires
            bound == a * (2 * m),
    ;
    assert(bound >= 0) by (nonlinear_arith)
        requires
            bound == a * (2 * m),
            a > 0,
            m >= 0,
    ;
    assert(bound * bound < (bound + 1) * (bound + 1)) by (nonlinear_arith)
        requires
            bound >= 0,
    ;
    lemma_magnitude_of_root(b, bound);
    lemma_quotient_bound(b, a, 2 * m);
}

/// Within 256 values of at most half a million units each, the regression
/// can always be computed and its slope fits: such a window always has its
/// slope and correlation.
pub proof fn lemma_fit_computable_within(s: Seq<i64>)
    requires
        2 <= s.len() <= 256,
        values_within(s, 500_000_000_000),
    ensures
        fit_computable(s),
        fits_i64(slope(s)),
        best_fit(s).is_ok(),
{
    let n = s.len() as int;
    let a = fit_sxx(s.len());
    let c = fit_syy(s);
    let squares = sum_squares(s);
    let total = sum(s);
    lemma_sum_squares_bound(s, 500_000_000_000);
    lemma_fit_syy_not_negative(s);
    crate::stats_lemmas::lemma_fit_sxx_positive(s.len());
    lemma_slope_bound(s, 500_000_000_000);
    assert(500_000_000_000int * 500_000_000_000int == 250_000_000_000_000_000_000_000int);
    assert(0 <= n * squares <= 16_384_000_000_000_000_000_000_000_000) by (nonlinear_arith)
        requires
            0 <= squares <= n * 250_000_000_000_000_000_000_000,
            2 <= n <= 256,
    ;
    assert(total * total >= 0) by (nonlinear_arith);
    assert(0 <= c <= n * squares);
    assert(n * n * (n - 1) * (n + 1) <= 4_294_967_296) by (nonlinear_arith)
        requires
            2 <= n <= 256,
    ;
    assert(0 < a <= 357_913_942);
    assert(0 <= a * c <= 357_913_942 * 16_384_000_000_000_000_000_000_000_000)
        by (nonlinear_arith)
        requires
            0 < a <= 357_913_942,
            0 <= c <= 16_384_000_000_000_000_000_000_000_000,
    ;
}

} // verus!
