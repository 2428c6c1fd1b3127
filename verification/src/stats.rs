//! The signal engine: statistics over a window of recent prices.
//!
//! Every function is pure. Values are fixed-point numbers (see `fixed`).
//! The statistics are computed in 128-bit integers: a series is reported
//! as `OutOfRange` only where it is longer than `MAX_SERIES`, where a
//! quantity on the way does not fit 128 bits, or where the result does not
//! fit the fixed-point range.

use vstd::prelude::*;
use crate::fixed::{
    SCALE, trunc_div, sqrt_floor, fits_i64, fits_i128, div_trunc, isqrt, lemma_trunc_div_bound,
    lemma_product_bound, lemma_quotient_bound,
};
use crate::regression_lemmas::{
    lemma_correlation_bounds, lemma_fit_cauchy_schwarz, lemma_fit_syy_not_negative,
    lemma_magnitude_of_root, lemma_sum_squares_prefix,
};
use crate::types::{Bound, Candle};

verus! {

/// Why a statistic has no value.
#[derive(Clone, Copy, PartialEq, Eq, Structural, Debug)]
pub enum StatsError {
    /// The series is shorter than the statistic needs.
    InsufficientData,
    /// A parameter has no meaning, such as a period of zero days.
    InvalidInput,
    /// An input or the result is outside the fixed-point range.
    OutOfRange,
}

/// The longest series that the statistics accept. Up to this length the
/// sums of values and of indices cannot overflow 128 bits, whatever the
/// values.
pub const MAX_SERIES: usize = 1_000_000;

/// The size of the periods over which volatility is measured.
pub const VOLATILITY_PERIOD: usize = 7;

/// An exact value as a fixed-point number, where it fits.
pub open spec fn narrow(x: int) -> Result<i64, StatsError> {
    if fits_i64(x) {
        Ok(x as i64)
    } else {
        Err(StatsError::OutOfRange)
    }
}

/// Narrows a wide value to a fixed-point number, where it fits.
pub fn narrow_value(x: i128) -> (r: Result<i64, StatsError>)
    ensures
        r == narrow(x as int),
{
    if x < -0x8000_0000_0000_0000 || x > 0x7fff_ffff_ffff_ffff {
        Err(StatsError::OutOfRange)
    } else {
        Ok(x as i64)
    }
}

/// The change from `old` to `new` in percent of `old`: `(new - old) / old * 100`,
/// rounded toward zero; zero when `old` is zero.
pub open spec fn percent_change(new: int, old: int) -> int {
    trunc_div((new - old) * 100 * SCALE, old)
}

/// The percent change from `previous_value` to `new_value`.
pub fn get_percent_change(new_value: i64, previous_value: i64) -> (r: Result<i64, StatsError>)
    ensures
        r == narrow(percent_change(new_value as int, previous_value as int)),
{
    narrow_value(percent_change_wide(new_value, previous_value))
}

/// The percent change before it is narrowed to the fixed-point range.
pub fn percent_change_wide(new_value: i64, previous_value: i64) -> (r: i128)
    ensures
        r == percent_change(new_value as int, previous_value as int),
        -1_844_674_407_370_955_161_600_000_000 <= r <= 1_844_674_407_370_955_161_600_000_000,
{
    let difference: i128 = new_value as i128 - previous_value as i128;
    let scaled: i128 = difference * 100_000_000;
    proof {
        lemma_trunc_div_bound(scaled as int, previous_value as int);
    }
    div_trunc(scaled, previous_value as i128)
}

/// The sum of the values.
pub open spec fn sum(s: Seq<i64>) -> int
    decreases s.len(),
{
    if s.len() == 0 {
        0
    } else {
        sum(s.drop_last()) + s.last()
    }
}

/// The sum of the squares of the values.
pub open spec fn sum_squares(s: Seq<i64>) -> int
    decreases s.len(),
{
    if s.len() == 0 {
        0
    } else {
        sum_squares(s.drop_last()) + s.last() * s.last()
    }
}

/// The sum of each value times its index.
pub open spec fn sum_indexed(s: Seq<i64>) -> int
    decreases s.len(),
{
    if s.len() == 0 {
        0
    } else {
        sum_indexed(s.drop_last()) + (s.len() - 1) * s.last()
    }
}

/// `0 + 1 + ... + (n - 1)`.
pub open spec fn index_sum(n: nat) -> int
    decreases n,
{
    if n == 0 {
        0
    } else {
        index_sum((n - 1) as nat) + (n - 1)
    }
}

/// `0 + 1 + 4 + ... + (n - 1) * (n - 1)`.
pub open spec fn index_squares(n: nat) -> int
    decreases n,
{
    if n == 0 {
        0
    } else {
        index_squares((n - 1) as nat) + (n - 1) * (n - 1)
    }
}

/// `n` times the sum of squared deviations of the indices `0..n` from their mean.
pub open spec fn fit_sxx(n: nat) -> int {
    n * index_squares(n) - index_sum(n) * index_sum(n)
}

/// `n` times the sum of the products of the deviations of index and value.
pub open spec fn fit_sxy(s: Seq<i64>) -> int {
    s.len() * sum_indexed(s) - index_sum(s.len()) * sum(s)
}

/// `n` times the sum of squared deviations of the values from their mean.
pub open spec fn fit_syy(s: Seq<i64>) -> int {
    s.len() * sum_squares(s) - sum(s) * sum(s)
}

/// The slope of the least-squares line through the points `(i, s[i])`.
pub open spec fn slope(s: Seq<i64>) -> int {
    trunc_div(fit_sxy(s), fit_sxx(s.len()))
}

/// The square root that the correlation is divided by; zero where the
/// product under the root is not positive.
pub open spec fn fit_root(s: Seq<i64>) -> int {
    let product = fit_sxx(s.len()) * fit_syy(s);
    if product > 0 {
        sqrt_floor(product)
    } else {
        0
    }
}

/// The Pearson correlation coefficient between index and value.
pub open spec fn correlation(s: Seq<i64>) -> int {
    trunc_div(fit_sxy(s) * SCALE, fit_root(s))
}

/// The regression can be computed in 128 bits: the series is no longer
/// than `MAX_SERIES`, and the two largest quantities on the way fit, which
/// are the number of values times the sum of their squares, and the product
/// under the root of the correlation.
pub open spec fn fit_computable(s: Seq<i64>) -> bool {
    &&& s.len() <= MAX_SERIES
    &&& fits_i128(s.len() * sum_squares(s))
    &&& fits_i128(fit_sxx(s.len()) * fit_syy(s))
}

/// What `get_best_fit` returns: slope and correlation of a series of at
/// least two values, where the regression can be computed and the slope
/// fits the fixed-point range. The correlation always fits.
pub open spec fn best_fit(s: Seq<i64>) -> Result<(i64, i64), StatsError> {
    if s.len() < 2 {
        Err(StatsError::InsufficientData)
    } else if !fit_computable(s) || !fits_i64(slope(s)) {
        Err(StatsError::OutOfRange)
    } else {
        Ok((slope(s) as i64, correlation(s) as i64))
    }
}

proof fn lemma_take_step(s: Seq<i64>, k: int)
    requires
        0 <= k < s.len(),
    ensures
        s.take(k + 1).drop_last() == s.take(k),
        s.take(k + 1).last() == s[k],
        s.take(k + 1).len() == k + 1,
{
    assert(s.take(k + 1).drop_last() =~= s.take(k));
}

proof fn lemma_scaled_at_least(n: int, x: int)
    by (nonlinear_arith)
    requires
        n >= 1,
        x >= 0,
    ensures
        n * x >= x,
{
}

/// The slope and the correlation coefficient of the least-squares line
/// through the values, taken against their indices `0, 1, 2, ...`.
pub fn get_best_fit(values: &Vec<i64>) -> (r: Result<(i64, i64), StatsError>)
    ensures
        r == best_fit(values@),
{
    let n = values.len();
    if n < 2 {
        return Err(StatsError::InsufficientData);
    }
    if n > MAX_SERIES {
        return Err(StatsError::OutOfRange);
    }
    let mut sx: i128 = 0;
    let mut sxx: i128 = 0;
    let mut sy: i128 = 0;
    let mut syy: i128 = 0;
    let mut sxy: i128 = 0;
    let mut i: usize = 0;
    while i < n
        invariant
            n == values.len(),
            2 <= n <= 1_000_000,
            i <= n,
            sx == index_sum(i as nat),
            sxx == index_squares(i as nat),
            sy == sum(values@.take(i as int)),
            syy == sum_squares(values@.take(i as int)),
            sxy == sum_indexed(values@.take(i as int)),
            0 <= sx <= i * 1_000_000,
            0 <= sxx <= i * 1_000_000_000_000,
            -(i * 9_223_372_036_854_775_808) <= sy <= i * 9_223_372_036_854_775_808,
            0 <= syy,
            -(i * 9_223_372_036_854_775_808_000_000) <= sxy <= i
                * 9_223_372_036_854_775_808_000_000,
        decreases n - i,
    {
        let y: i128 = values[i] as i128;
        let x: i128 = i as i128;
        proof {
            lemma_take_step(values@, i as int);
            lemma_product_bound(x as int, x as int, 1_000_000, 1_000_000);
            lemma_product_bound(
                y as int,
                y as int,
                9_223_372_036_854_775_808,
                9_223_372_036_854_775_808,
            );
            lemma_product_bound(x as int, y as int, 1_000_000, 9_223_372_036_854_775_808);
            assert(x * x >= 0) by (nonlinear_arith);
            assert(y * y >= 0) by (nonlinear_arith);
        }
        let square: i128 = y * y;
        match syy.checked_add(square) {
            Some(more) => {
                syy = more;
            },
            None => {
                proof {
                    lemma_sum_squares_prefix(values@, i + 1);
                    lemma_scaled_at_least(n as int, sum_squares(values@));
                }
                return Err(StatsError::OutOfRange);
            },
        }
        sx = sx + x;
        sxx = sxx + x * x;
        sy = sy + y;
        sxy = sxy + x * y;
        i += 1;
    }
    assert(values@.take(n as int) =~= values@);
    let count: i128 = n as i128;
    let scaled_squares: i128 = match count.checked_mul(syy) {
        Some(product) => product,
        None => {
            return Err(StatsError::OutOfRange);
        },
    };
    proof {
        lemma_product_bound(count as int, sxx as int, 1_000_000, 1_000_000_000_000_000_000);
        lemma_product_bound(sx as int, sx as int, 1_000_000_000_000, 1_000_000_000_000);
        lemma_product_bound(
            count as int,
            sxy as int,
            1_000_000,
            9_223_372_036_854_775_808_000_000_000_000,
        );
        lemma_product_bound(
            sx as int,
            sy as int,
            1_000_000_000_000,
            9_223_372_036_854_775_808_000_000,
        );
        assert(count * sxx >= 0) by (nonlinear_arith)
            requires
                count >= 0,
                sxx >= 0,
        ;
        assert(sx * sx >= 0 && sy * sy >= 0) by (nonlinear_arith);
        lemma_fit_syy_not_negative(values@);
    }
    let fit_xx: i128 = count * sxx - sx * sx;
    let fit_yy: i128 = scaled_squares - sy * sy;
    let fit_xy: i128 = count * sxy - sx * sy;
    let product: i128 = match fit_xx.checked_mul(fit_yy) {
        Some(product) => product,
        None => {
            return Err(StatsError::OutOfRange);
        },
    };
    proof {
        lemma_fit_cauchy_schwarz(values@);
        lemma_magnitude_of_root(fit_xy as int, 13_043_817_825_332_782_212);
        lemma_correlation_bounds(values@);
    }
    let root: i128 = if product > 0 {
        isqrt(product as u128) as i128
    } else {
        0
    };
    let gradient: i128 = div_trunc(fit_xy, fit_xx);
    let r: i128 = div_trunc(fit_xy * 1_000_000, root);
    if gradient < -0x8000_0000_0000_0000 || gradient > 0x7fff_ffff_ffff_ffff {
        return Err(StatsError::OutOfRange);
    }
    Ok((gradient as i64, r as i64))
}

/// The index of the first occurrence of the largest of the first `end` values.
pub open spec fn peak_index(s: Seq<i64>, end: int) -> int
    decreases end,
{
    if end <= 1 {
        0
    } else {
        let peak = peak_index(s, end - 1);
        if s[end - 1] > s[peak] {
            end - 1
        } else {
            peak
        }
    }
}

/// The index of the first occurrence of the smallest of the values at
/// `start..end`; `start` where that range holds at most one value.
pub open spec fn low_index(s: Seq<i64>, start: int, end: int) -> int
    decreases end - start,
{
    if end <= start + 1 {
        start
    } else {
        let low = low_index(s, start, end - 1);
        if s[end - 1] < s[low] {
            end - 1
        } else {
            low
        }
    }
}

/// The last value has come down to the lowest value that followed the
/// latest peak, the last value itself left aside, and that low is neither
/// the peak nor one of the last two values.
pub open spec fn at_recent_low(s: Seq<i64>) -> bool {
    let peak = peak_index(s, s.len() as int);
    let low = low_index(s, peak, s.len() - 1);
    s.last() <= s[low] && low != peak && s.len() - low > 2
}

/// `peak_index` is the first position that holds the largest value.
pub proof fn lemma_peak_index(s: Seq<i64>, end: int)
    requires
        0 < end <= s.len(),
    ensures
        0 <= peak_index(s, end) < end,
        forall|i: int| 0 <= i < end ==> #[trigger] s[i] <= s[peak_index(s, end)],
        forall|i: int| 0 <= i < peak_index(s, end) ==> #[trigger] s[i] < s[peak_index(s, end)],
    decreases end,
{
    if end > 1 {
        lemma_peak_index(s, end - 1);
    }
}

/// `low_index` is the first position of the range that holds its smallest value.
pub proof fn lemma_low_index(s: Seq<i64>, start: int, end: int)
    requires
        0 <= start < end <= s.len(),
    ensures
        start <= low_index(s, start, end) < end,
        forall|i: int| start <= i < end ==> s[low_index(s, start, end)] <= #[trigger] s[i],
        forall|i: int|
            start <= i < low_index(s, start, end) ==> s[low_index(s, start, end)] < #[trigger] s[i],
    decreases end - start,
{
    if end > start + 1 {
        lemma_low_index(s, start, end - 1);
    }
}

/// Whether the series has fallen back to its low after its latest peak.
pub fn is_at_recent_low(values: &Vec<i64>) -> (r: Result<bool, StatsError>)
    ensures
        values.len() == 0 ==> r == Err::<bool, StatsError>(StatsError::InsufficientData),
        values.len() > 0 ==> r == Ok::<bool, StatsError>(at_recent_low(values@)),
{
    let n = values.len();
    if n == 0 {
        return Err(StatsError::InsufficientData);
    }
    let last_value = values[n - 1];
    let mut peak: usize = 0;
    let mut i: usize = 1;
    while i < n
        invariant
            n == values.len(),
            1 <= i <= n,
            peak < i,
            peak == peak_index(values@, i as int),
        decreases n - i,
    {
        if values[i] > values[peak] {
            peak = i;
        }
        i += 1;
    }
    let mut low: usize = peak;
    let mut j: usize = peak + 1;
    while j < n - 1
        invariant
            n == values.len(),
            peak < n,
            peak < j,
            j <= n - 1 || j == peak + 1,
            peak <= low < j,
            low == low_index(values@, peak as int, j as int),
        decreases n - j,
    {
        if values[j] < values[low] {
            low = j;
        }
        j += 1;
    }
    Ok(last_value <= values[low] && low != peak && n - low > 2)
}

/// The largest of zero and the values at `start..end`.
pub open spec fn range_high(s: Seq<i64>, start: int, end: int) -> int
    decreases end - start,
{
    if end <= start {
        0
    } else {
        let high = range_high(s, start, end - 1);
        if s[end - 1] > high {
            s[end - 1] as int
        } else {
            high
        }
    }
}

/// The smallest of zero and the values at `start..end`.
pub open spec fn range_low(s: Seq<i64>, start: int, end: int) -> int
    decreases end - start,
{
    if end <= start {
        0
    } else {
        let low = range_low(s, start, end - 1);
        if s[end - 1] < low {
            s[end - 1] as int
        } else {
            low
        }
    }
}

/// The number of periods of `size` values in a series of `len` values, a
/// shorter last period counted.
pub open spec fn period_count(len: int, size: int) -> int {
    (len + size - 1) / size
}

/// Where period `k` ends.
pub open spec fn period_end(len: int, size: int, k: int) -> int {
    if (k + 1) * size < len {
        (k + 1) * size
    } else {
        len
    }
}

/// The percent change from the low to the high of period `k`, both taken
/// with zero among the values.
pub open spec fn period_swing(s: Seq<i64>, k: int) -> int {
    let start = k * VOLATILITY_PERIOD;
    let end = period_end(s.len() as int, VOLATILITY_PERIOD as int, k);
    percent_change(range_high(s, start, end), range_low(s, start, end))
}

/// The sum of the swings of the first `k` periods.
pub open spec fn swings_sum(s: Seq<i64>, k: int) -> int
    decreases k,
{
    if k <= 0 {
        0
    } else {
        swings_sum(s, k - 1) + period_swing(s, k - 1)
    }
}

/// The mean swing over the periods of `VOLATILITY_PERIOD` values; zero for
/// an empty series.
pub open spec fn average_volatility(s: Seq<i64>) -> int {
    trunc_div(
        swings_sum(s, period_count(s.len() as int, VOLATILITY_PERIOD as int)),
        period_count(s.len() as int, VOLATILITY_PERIOD as int),
    )
}

/// The average volatility of the series: it is cut into periods of seven
/// values, and the percent changes from each period's low to its high are
/// averaged.
pub fn get_average_volatility(values: &Vec<i64>) -> (r: Result<i64, StatsError>)
    ensures
        values.len() > MAX_SERIES ==> r == Err::<i64, StatsError>(StatsError::OutOfRange),
        values.len() <= MAX_SERIES ==> r == narrow(average_volatility(values@)),
{
    let n = values.len();
    if n > MAX_SERIES {
        return Err(StatsError::OutOfRange);
    }
    let periods: usize = (n + (VOLATILITY_PERIOD - 1)) / VOLATILITY_PERIOD;
    let mut total: i128 = 0;
    let mut k: usize = 0;
    while k < periods
        invariant
            n == values.len(),
            n <= 1_000_000,
            periods == period_count(n as int, 7),
            k <= periods,
            total == swings_sum(values@, k as int),
            -(k * 1_844_674_407_370_955_161_600_000_000) <= total <= k
                * 1_844_674_407_370_955_161_600_000_000,
        decreases periods - k,
    {
        let start: usize = k * VOLATILITY_PERIOD;
        let end: usize = if start + VOLATILITY_PERIOD < n {
            start + VOLATILITY_PERIOD
        } else {
            n
        };
        let mut high: i64 = 0;
        let mut low: i64 = 0;
        let mut j: usize = start;
        while j < end
            invariant
                start <= j <= end <= n,
                n == values.len(),
                high == range_high(values@, start as int, j as int),
                low == range_low(values@, start as int, j as int),
            decreases end - j,
        {
            if values[j] > high {
                high = values[j];
            }
            if values[j] < low {
                low = values[j];
            }
            j += 1;
        }
        let swing = percent_change_wide(high, low);
        total = total + swing;
        k += 1;
    }
    narrow_value(div_trunc(total, periods as i128))
}

/// The mean of the values, rounded toward zero.
pub open spec fn mean(s: Seq<i64>) -> int {
    trunc_div(sum(s), s.len() as int)
}

/// The sum of the squared distances of the values from `center`.
pub open spec fn squared_deviations(s: Seq<i64>, center: int) -> int
    decreases s.len(),
{
    if s.len() == 0 {
        0
    } else {
        squared_deviations(s.drop_last(), center) + (s.last() - center) * (s.last() - center)
    }
}

/// The standard deviation: the square root of the mean squared distance
/// from the mean.
pub open spec fn std_dev(s: Seq<i64>) -> int {
    sqrt_floor(squared_deviations(s, mean(s)) / (s.len() as int))
}

/// How far the bounds lie from the mean: `width` standard deviations.
pub open spec fn bound_offset(s: Seq<i64>, width: int) -> int {
    trunc_div(std_dev(s) * width, SCALE as int)
}

/// The factor of the standard deviation by which the envelope is drawn.
pub const BOUND_WIDTH: i64 = 608_000;

/// What `get_bounds` returns: the envelope of a series of at least one
/// and at most `MAX_SERIES` values, where the sum of the squared distances
/// from the mean fits 128 bits and both bounds fit the fixed-point range.
pub open spec fn bounds(s: Seq<i64>, width: i64) -> Result<Bound, StatsError> {
    if s.len() == 0 {
        Err(StatsError::InsufficientData)
    } else if s.len() > MAX_SERIES || !fits_i128(squared_deviations(s, mean(s))) || !fits_i64(
        mean(s) + bound_offset(s, width as int),
    ) || !fits_i64(mean(s) - bound_offset(s, width as int)) {
        Err(StatsError::OutOfRange)
    } else {
        Ok(
            Bound {
                upper: (mean(s) + bound_offset(s, width as int)) as i64,
                middle: mean(s) as i64,
                lower: (mean(s) - bound_offset(s, width as int)) as i64,
            },
        )
    }
}

proof fn lemma_root_bound(x: int, r: int, limit: int)
    by (nonlinear_arith)
    requires
        0 <= r,
        r * r <= x,
        x < (limit + 1) * (limit + 1),
        limit >= 0,
    ensures
        r <= limit,
{
}

/// The squared distances of the first `k` values are not negative and sum
/// to no more than those of all the values.
proof fn lemma_squared_deviations_prefix(s: Seq<i64>, k: int, center: int)
    requires
        0 <= k <= s.len(),
    ensures
        0 <= squared_deviations(s.take(k), center) <= squared_deviations(s, center),
    decreases s.len() - k,
{
    if k == s.len() {
        assert(s.take(k) =~= s);
        lemma_squared_deviations_not_negative(s, center);
    } else {
        lemma_squared_deviations_prefix(s, k + 1, center);
        lemma_take_step(s, k);
        let d = s[k] - center;
        assert(d * d >= 0) by (nonlinear_arith);
        lemma_squared_deviations_not_negative(s.take(k), center);
    }
}

proof fn lemma_squared_deviations_not_negative(s: Seq<i64>, center: int)
    ensures
        squared_deviations(s, center) >= 0,
    decreases s.len(),
{
    if s.len() > 0 {
        lemma_squared_deviations_not_negative(s.drop_last(), center);
        let d = s.last() - center;
        assert(d * d >= 0) by (nonlinear_arith);
    }
}

/// The envelope of the series: its mean, and the mean plus and minus
/// `width` standard deviations.
pub fn get_bounds(values: &Vec<i64>, width: i64) -> (r: Result<Bound, StatsError>)
    ensures
        r == bounds(values@, width),
{
    let n = values.len();
    if n == 0 {
        return Err(StatsError::InsufficientData);
    }
    if n > MAX_SERIES {
        return Err(StatsError::OutOfRange);
    }
    let mut total: i128 = 0;
    let mut i: usize = 0;
    while i < n
        invariant
            n == values.len(),
            n <= 1_000_000,
            i <= n,
            total == sum(values@.take(i as int)),
            -(i * 9_223_372_036_854_775_808) <= total <= i * 9_223_372_036_854_775_808,
        decreases n - i,
    {
        proof {
            lemma_take_step(values@, i as int);
        }
        total = total + values[i] as i128;
        i += 1;
    }
    assert(values@.take(n as int) =~= values@);
    proof {
        lemma_quotient_bound(total as int, n as int, 9_223_372_036_854_775_808);
    }
    let middle: i128 = div_trunc(total, n as i128);
    let mut squares: i128 = 0;
    let mut j: usize = 0;
    while j < n
        invariant
            n == values.len(),
            n <= 1_000_000,
            j <= n,
            -9_223_372_036_854_775_808 <= middle <= 9_223_372_036_854_775_808,
            middle == mean(values@),
            squares == squared_deviations(values@.take(j as int), middle as int),
            0 <= squares,
        decreases n - j,
    {
        let distance: i128 = values[j] as i128 - middle;
        proof {
            lemma_take_step(values@, j as int);
            lemma_squared_deviations_prefix(values@, j + 1, middle as int);
            assert(distance * distance >= 0) by (nonlinear_arith);
        }
        let square: i128 = match distance.checked_mul(distance) {
            Some(square) => square,
            None => {
                return Err(StatsError::OutOfRange);
            },
        };
        match squares.checked_add(square) {
            Some(more) => {
                squares = more;
            },
            None => {
                return Err(StatsError::OutOfRange);
            },
        }
        j += 1;
    }
    assert(values@.take(n as int) =~= values@);
    let variance: i128 = squares / (n as i128);
    proof {
        assert(0 <= variance <= squares) by (nonlinear_arith)
            requires
                variance == (squares as int) / (n as int),
                squares >= 0,
                n > 0,
        ;
    }
    let deviation: i128 = isqrt(variance as u128) as i128;
    proof {
        let root = sqrt_floor(variance as int);
        assert(crate::fixed::is_sqrt_floor(variance as int, root)) by {
            crate::fixed::lemma_sqrt_floor_exists(variance as int);
        }
        lemma_root_bound(variance as int, root, 13_043_817_825_332_782_212);
        lemma_product_bound(
            deviation as int,
            width as int,
            13_043_817_825_332_782_212,
            9_223_372_036_854_775_808,
        );
        lemma_trunc_div_bound(deviation * width, SCALE as int);
    }
    let offset: i128 = div_trunc(deviation * (width as i128), 1_000_000);
    let upper: i128 = middle + offset;
    let lower: i128 = middle - offset;
    if upper < -0x8000_0000_0000_0000 || upper > 0x7fff_ffff_ffff_ffff || lower
        < -0x8000_0000_0000_0000 || lower > 0x7fff_ffff_ffff_ffff {
        return Err(StatsError::OutOfRange);
    }
    Ok(Bound { upper: upper as i64, middle: middle as i64, lower: lower as i64 })
}

/// The percent change from the close of candle `i` to the close of the next.
pub open spec fn daily_change(candles: Seq<Candle>, i: int) -> int {
    percent_change(candles[i + 1].close as int, candles[i].close as int)
}

/// The sum of the daily changes at `start..end`.
pub open spec fn daily_changes_sum(candles: Seq<Candle>, start: int, end: int) -> int
    decreases end - start,
{
    if end <= start {
        0
    } else {
        daily_changes_sum(candles, start, end - 1) + daily_change(candles, end - 1)
    }
}

/// The number of day-over-day changes in a history.
pub open spec fn change_count(candles: Seq<Candle>) -> int {
    if candles.len() == 0 {
        0
    } else {
        candles.len() - 1
    }
}

/// The mean of the daily changes of period `k`, the periods being
/// `step_size` changes long and the last one possibly shorter.
pub open spec fn period_average(candles: Seq<Candle>, step_size: int, k: int) -> int {
    let end = period_end(change_count(candles), step_size, k);
    trunc_div(daily_changes_sum(candles, k * step_size, end), end - k * step_size)
}

/// The periodic average returns of a history, one value per period.
pub open spec fn period_averages(candles: Seq<Candle>, step_size: int) -> Seq<i64> {
    Seq::new(
        period_count(change_count(candles), step_size) as nat,
        |k: int| period_average(candles, step_size, k) as i64,
    )
}

/// Every period's mean daily change fits the fixed-point range.
pub open spec fn averages_fit(candles: Seq<Candle>, step_size: int) -> bool {
    forall|k: int|
        0 <= k < period_count(change_count(candles), step_size) ==> fits_i64(
            #[trigger] period_average(candles, step_size, k),
        )
}

/// The periodic average returns of a history: the percent change of each
/// close from the close before, averaged over consecutive periods of
/// `step_size` changes.
pub fn average_changes(candles: &Vec<Candle>, step_size: usize) -> (r: Result<
    Vec<i64>,
    StatsError,
>)
    ensures
        step_size == 0 ==> r == Err::<Vec<i64>, StatsError>(StatsError::InvalidInput),
        step_size > 0 && (candles.len() > MAX_SERIES || !averages_fit(
            candles@,
            step_size as int,
        )) ==> r == Err::<Vec<i64>, StatsError>(StatsError::OutOfRange),
        step_size > 0 && candles.len() <= MAX_SERIES && averages_fit(candles@, step_size as int)
            ==> r.is_ok() && r.unwrap()@ == period_averages(candles@, step_size as int),
{
    if step_size == 0 {
        return Err(StatsError::InvalidInput);
    }
    let n = candles.len();
    if n > MAX_SERIES {
        return Err(StatsError::OutOfRange);
    }
    let changes: usize = if n == 0 {
        0
    } else {
        n - 1
    };
    let mut averages: Vec<i64> = Vec::new();
    let mut start: usize = 0;
    let ghost step = step_size as int;
    proof {
        lemma_period_step(changes as int, step, 0);
    }
    while start < changes
        invariant
            n == candles.len(),
            n <= 1_000_000,
            step == step_size as int,
            step > 0,
            changes == change_count(candles@),
            start <= changes,
            start < changes ==> start == averages.len() * step,
            start == changes ==> averages.len() == period_count(changes as int, step),
            forall|k: int|
                0 <= k < averages.len() ==> #[trigger] averages@[k] == period_average(
                    candles@,
                    step,
                    k,
                ),
        decreases changes - start,
    {
        let ghost k = averages.len() as int;
        let end: usize = if step_size < changes - start {
            start + step_size
        } else {
            changes
        };
        proof {
            lemma_period_step(changes as int, step, k);
            assert(end == period_end(changes as int, step, k));
        }
        let mut total: i128 = 0;
        let mut i: usize = start;
        while i < end
            invariant
                n == candles.len(),
                n <= 1_000_000,
                start <= i <= end <= changes,
                changes == change_count(candles@),
                changes < n,
                total == daily_changes_sum(candles@, start as int, i as int),
                -((i - start) * 1_844_674_407_370_955_161_600_000_000) <= total <= (i - start)
                    * 1_844_674_407_370_955_161_600_000_000,
            decreases end - i,
        {
            let change = percent_change_wide(candles[i + 1].close, candles[i].close);
            total = total + change;
            i += 1;
        }
        let average = div_trunc(total, (end - start) as i128);
        if average < -0x8000_0000_0000_0000 || average > 0x7fff_ffff_ffff_ffff {
            assert(!fits_i64(period_average(candles@, step, k)));
            return Err(StatsError::OutOfRange);
        }
        averages.push(average as i64);
        start = end;
    }
    proof {
        assert forall|k: int| 0 <= k < period_count(changes as int, step) implies fits_i64(
            #[trigger] period_average(candles@, step, k),
        ) by {
            assert(averages@[k] == period_average(candles@, step, k));
        }
        assert(averages@ =~= period_averages(candles@, step));
    }
    Ok(averages)
}

/// Period `k` starts inside the series exactly when `k` is less than the
/// number of periods, and the period after the one that reaches the end of
/// the series is the last.
proof fn lemma_period_step(len: int, size: int, k: int)
    by (nonlinear_arith)
    requires
        size > 0,
        k >= 0,
        len >= 0,
    ensures
        k * size < len <==> k < period_count(len, size),
        (k + 1) * size >= len && k * size < len ==> period_count(len, size) == k + 1,
        (k + 1) * size == k * size + size,
        k == 0 ==> k * size == 0,
        len == 0 ==> period_count(len, size) == 0,
{
}


} // verus!
