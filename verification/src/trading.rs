//! The decision engine: when to buy, when to sell, and how much.
//!
//! Two strategies share the engine. The trend-following one reads a window
//! of recent closes; the mean-reversion one reads a single day's close
//! against the envelope of the instrument's past returns.

use vstd::prelude::*;
use crate::fixed::{SCALE, trunc_div, div_trunc, lemma_trunc_div_bound};
use crate::dates::Date;
use crate::stats::{
    StatsError, narrow, narrow_value, percent_change, percent_change_wide, best_fit,
    get_best_fit, at_recent_low, is_at_recent_low, average_volatility, get_average_volatility,
    MAX_SERIES, averages_fit, period_averages, bounds, average_changes, get_bounds,
};
use crate::types::{Bound, Candle, Close};
use crate::window::{day_close, get_day_close};

verus! {

/// Closes below this price are penny stocks and are not bought.
pub const PENNY_PRICE: i64 = 1_000_000;

/// The number of closes in the recent segment of a window.
pub const RECENT_DAYS: usize = 4;

/// The number of closes before the recent segment that the older trend is
/// fitted to.
pub const TREND_DAYS: usize = 14;

/// The largest percent change from the last older close to the newest close
/// at which a buy is still made.
pub const MAX_RECENT_DIFFERENCE: i64 = 1_000_000;

/// The weakest correlation for which a trend counts as clean.
pub const MIN_CORRELATION: i64 = 830_000;

/// The least slope of the recent segment at which a buy is made.
pub const MIN_GRADIENT: i64 = 10_000;

/// The largest slope of the recent segment at which a buy is made.
pub const MAX_GRADIENT: i64 = 30_000;

/// The lower of the two thresholds on the percent change from the older
/// slope to the recent one. A buy is refused where the change is below both.
pub const GRADIENT_CHANGE_LOW: i64 = 30_000_000;

/// The higher of the two thresholds on the percent change from the older
/// slope to the recent one.
pub const GRADIENT_CHANGE_HIGH: i64 = 100_000_000;

/// The number of closes in which a pullback from a peak is looked for.
pub const PULLBACK_DAYS: usize = 10;

/// Below this inverse volatility an instrument counts as risky.
pub const MIN_INVERSE_VOLATILITY: i64 = 300_000;

/// The margin from the entry price at which the mean-reversion strategy
/// sells whatever the day brought.
pub const HARD_STOP_MARGIN: i64 = -5_000_000;

/// The absolute value.
pub open spec fn magnitude(x: int) -> int {
    if x >= 0 {
        x
    } else {
        -x
    }
}

/// The older segment of a window: the `TREND_DAYS` closes before the
/// recent segment.
pub open spec fn old_segment(closes: Seq<i64>) -> Seq<i64> {
    closes.subrange(closes.len() - 18, closes.len() - 4)
}

/// The recent segment of a window: its last `RECENT_DAYS` closes.
pub open spec fn new_segment(closes: Seq<i64>) -> Seq<i64> {
    closes.subrange(closes.len() - 4, closes.len() as int)
}

/// The filters of the trend-following buy, on a window of at least
/// `TREND_DAYS + RECENT_DAYS` closes that does not slope down, given the
/// regression of its older segment and that of its recent segment, each as
/// slope and correlation: the last three closes rise; the newest close is
/// within `MAX_RECENT_DIFFERENCE` percent of the last close of the older
/// segment; the older and the recent segment each correlate with time by
/// at least `MIN_CORRELATION`; the slope of the recent segment lies between
/// `MIN_GRADIENT` and `MAX_GRADIENT`; and the percent change from the older
/// slope to the recent one is not below both `GRADIENT_CHANGE_LOW` and
/// `GRADIENT_CHANGE_HIGH` in magnitude.
pub open spec fn trend_filters_pass(
    closes: Seq<i64>,
    old_fit: (i64, i64),
    new_fit: (i64, i64),
) -> bool {
    let n = closes.len() as int;
    let recent_difference = percent_change(closes[n - 1] as int, closes[n - 5] as int);
    let gradient_change = percent_change(new_fit.0 as int, old_fit.0 as int);
    &&& closes[n - 3] < closes[n - 2] < closes[n - 1]
    &&& magnitude(recent_difference) <= MAX_RECENT_DIFFERENCE
    &&& old_fit.1 >= MIN_CORRELATION
    &&& new_fit.1 >= MIN_CORRELATION
    &&& MIN_GRADIENT <= new_fit.0 <= MAX_GRADIENT
    &&& !(magnitude(gradient_change) < GRADIENT_CHANGE_LOW && magnitude(gradient_change)
        < GRADIENT_CHANGE_HIGH)
}

/// The verdict of the trend-following strategy on buying, from a window of
/// closes that ends today: no verdict on fewer than
/// `TREND_DAYS + RECENT_DAYS` closes; no buy of a penny stock; no buy into
/// a window that slopes down; else what the filters say of the older and
/// the recent segment. Where one of the three regressions has no value,
/// its error is the verdict.
pub open spec fn buy_verdict(closes: Seq<i64>) -> Result<bool, StatsError> {
    if closes.len() < TREND_DAYS + RECENT_DAYS {
        Err(StatsError::InsufficientData)
    } else if closes.last() < PENNY_PRICE {
        Ok(false)
    } else {
        match best_fit(closes) {
            Err(e) => Err(e),
            Ok(overall) => if overall.0 < 0 {
                Ok(false)
            } else {
                match best_fit(old_segment(closes)) {
                    Err(e) => Err(e),
                    Ok(old_fit) => match best_fit(new_segment(closes)) {
                        Err(e) => Err(e),
                        Ok(new_fit) => Ok(trend_filters_pass(closes, old_fit, new_fit)),
                    },
                }
            },
        }
    }
}

/// A copy of the values at `start..end`.
fn copy_range(values: &Vec<i64>, start: usize, end: usize) -> (r: Vec<i64>)
    requires
        start <= end <= values.len(),
    ensures
        r@ == values@.subrange(start as int, end as int),
{
    let mut out: Vec<i64> = Vec::new();
    let mut i: usize = start;
    while i < end
        invariant
            start <= i <= end <= values.len(),
            out@ == values@.subrange(start as int, i as int),
        decreases end - i,
    {
        out.push(values[i]);
        assert(values@.subrange(start as int, i as int).push(values@[i as int])
            =~= values@.subrange(start as int, i + 1));
        i += 1;
    }
    out
}

fn magnitude_of(x: i128) -> (r: i128)
    requires
        x > i128::MIN,
    ensures
        r == magnitude(x as int),
{
    if x >= 0 {
        x
    } else {
        -x
    }
}

/// Whether the trend-following strategy buys on the window of closes that
/// ends today: the instrument is no penny stock, its window does not slope
/// down, its last three closes rise, it has not jumped against the close
/// before the recent segment, both the older and the recent trend are clean,
/// and the recent slope lies in its range and differs enough from the older.
pub fn should_buy(closes: &Vec<i64>) -> (r: Result<bool, StatsError>)
    ensures
        r == buy_verdict(closes@),
{
    let n = closes.len();
    if n < TREND_DAYS + RECENT_DAYS {
        return Err(StatsError::InsufficientData);
    }
    let latest_price = closes[n - 1];
    if latest_price < PENNY_PRICE {
        return Ok(false);
    }
    let overall = match get_best_fit(closes) {
        Ok(fit) => fit,
        Err(e) => {
            return Err(e);
        },
    };
    if overall.0 < 0 {
        return Ok(false);
    }
    let old_values = copy_range(closes, n - 18, n - 4);
    let new_values = copy_range(closes, n - 4, n);
    let old_fit = match get_best_fit(&old_values) {
        Ok(fit) => fit,
        Err(e) => {
            return Err(e);
        },
    };
    let new_fit = match get_best_fit(&new_values) {
        Ok(fit) => fit,
        Err(e) => {
            return Err(e);
        },
    };
    if !(closes[n - 3] < closes[n - 2] && closes[n - 2] < closes[n - 1]) {
        return Ok(false);
    }
    let recent_difference = magnitude_of(percent_change_wide(closes[n - 1], closes[n - 5]));
    if recent_difference > MAX_RECENT_DIFFERENCE as i128 {
        return Ok(false);
    }
    if old_fit.1 < MIN_CORRELATION || new_fit.1 < MIN_CORRELATION {
        return Ok(false);
    }
    if new_fit.0 < MIN_GRADIENT || new_fit.0 > MAX_GRADIENT {
        return Ok(false);
    }
    let gradient_change = magnitude_of(percent_change_wide(new_fit.0, old_fit.0));
    if gradient_change < GRADIENT_CHANGE_LOW as i128 && gradient_change
        < GRADIENT_CHANGE_HIGH as i128 {
        return Ok(false);
    }
    Ok(true)
}

/// The last `PULLBACK_DAYS` closes.
pub open spec fn pullback_window(closes: Seq<i64>) -> Seq<i64> {
    closes.subrange(closes.len() - 10, closes.len() as int)
}

/// The verdict of the trend-following strategy on selling a position that
/// was entered at `buy_price`.
pub open spec fn sell_verdict(
    closes: Seq<i64>,
    buy_price: i64,
    sell_loss_percent: i64,
    sell_gain_percent: i64,
) -> Result<bool, StatsError> {
    if closes.len() == 0 {
        Err(StatsError::InsufficientData)
    } else {
        let gains = percent_change(closes.last() as int, buy_price as int);
        if gains <= -sell_loss_percent {
            Ok(true)
        } else if gains <= sell_gain_percent {
            Ok(false)
        } else if closes.len() < PULLBACK_DAYS {
            Err(StatsError::InsufficientData)
        } else {
            Ok(at_recent_low(pullback_window(closes)))
        }
    }
}

/// Whether the trend-following strategy sells on the window of closes that
/// ends today: at once where the loss has reached `sell_loss_percent`, not
/// while the gain is at most `sell_gain_percent`, and above that once the
/// last ten closes have fallen back to their low after their peak.
pub fn should_sell(
    closes: &Vec<i64>,
    buy_price: i64,
    sell_loss_percent: i64,
    sell_gain_percent: i64,
) -> (r: Result<bool, StatsError>)
    ensures
        r == sell_verdict(closes@, buy_price, sell_loss_percent, sell_gain_percent),
{
    let n = closes.len();
    if n == 0 {
        return Err(StatsError::InsufficientData);
    }
    let latest_price = closes[n - 1];
    let current_gains = percent_change_wide(latest_price, buy_price);
    if current_gains <= -(sell_loss_percent as i128) {
        return Ok(true);
    }
    if current_gains <= sell_gain_percent as i128 {
        return Ok(false);
    }
    if n < PULLBACK_DAYS {
        return Err(StatsError::InsufficientData);
    }
    let window = copy_range(closes, n - 10, n);
    is_at_recent_low(&window)
}

/// The amount to spend on an instrument whose closes have the average
/// volatility `volatility`: half of `max_amount` where the inverse of the
/// volatility is below `MIN_INVERSE_VOLATILITY`, else all of it.
pub open spec fn sized_amount(max_amount: i64, volatility: i64) -> i64 {
    if trunc_div(SCALE as int * SCALE as int, volatility as int) < MIN_INVERSE_VOLATILITY {
        trunc_div(max_amount as int, 2) as i64
    } else {
        max_amount
    }
}

/// What `get_risk_factored_amount` returns.
pub open spec fn risk_factored_amount(max_amount: i64, closes: Seq<i64>) -> Result<
    i64,
    StatsError,
> {
    if closes.len() > MAX_SERIES {
        Err(StatsError::OutOfRange)
    } else {
        match narrow(average_volatility(closes)) {
            Err(e) => Err(e),
            Ok(volatility) => Ok(sized_amount(max_amount, volatility)),
        }
    }
}

/// The amount to spend on an instrument of the given average volatility.
pub fn amount_for_volatility(max_amount: i64, volatility: i64) -> (r: i64)
    ensures
        r == sized_amount(max_amount, volatility),
{
    let inverse = div_trunc(1_000_000_000_000, volatility as i128);
    if inverse < MIN_INVERSE_VOLATILITY as i128 {
        proof {
            lemma_trunc_div_bound(max_amount as int, 2);
        }
        return div_trunc(max_amount as i128, 2) as i64;
    }
    max_amount
}

/// Scales the amount of a buy down for a volatile instrument.
pub fn get_risk_factored_amount(max_amount: i64, closes: &Vec<i64>) -> (r: Result<
    i64,
    StatsError,
>)
    ensures
        r == risk_factored_amount(max_amount, closes@),
{
    match get_average_volatility(closes) {
        Ok(volatility) => Ok(amount_for_volatility(max_amount, volatility)),
        Err(e) => Err(e),
    }
}

/// The verdict of the mean-reversion strategy on buying: the instrument is
/// no penny stock, its returns average above zero, and today's change is at
/// or below the lower bound.
pub open spec fn dip_buy_verdict(close: Close, bound: Bound) -> bool {
    close.value > PENNY_PRICE && bound.middle > 0 && close.percent_change <= bound.lower
}

/// Whether the mean-reversion strategy buys today's dip.
pub fn should_buy_dip(close: &Close, bound: &Bound) -> (r: bool)
    ensures
        r == dip_buy_verdict(*close, *bound),
{
    close.value > PENNY_PRICE && bound.middle > 0 && close.percent_change <= bound.lower
}

/// The verdict of the mean-reversion strategy on selling a position that
/// was entered at `buy_price`: the margin from the entry price has fallen to
/// the hard stop, or today's change is at or above the upper bound and, where
/// a least margin is asked for, the margin exceeds it.
pub open spec fn peak_sell_verdict(
    close: Close,
    bound: Bound,
    buy_price: i64,
    min_margin: Option<i64>,
) -> bool {
    let margin = percent_change(close.value as int, buy_price as int);
    margin <= HARD_STOP_MARGIN || (close.percent_change >= bound.upper && match min_margin {
        Some(least) => margin > least,
        None => true,
    })
}

/// Whether the mean-reversion strategy sells today's peak.
pub fn should_sell_peak(
    close: &Close,
    bound: &Bound,
    buy_price: i64,
    min_margin: Option<i64>,
) -> (r: bool)
    ensures
        r == peak_sell_verdict(*close, *bound, buy_price, min_margin),
{
    let margin = percent_change_wide(close.value, buy_price);
    if margin <= HARD_STOP_MARGIN as i128 {
        return true;
    }
    if close.percent_change < bound.upper {
        return false;
    }
    match min_margin {
        Some(least) => margin > least as i128,
        None => true,
    }
}

/// How the amount of a buy is chosen.
#[derive(Clone, Copy, Debug)]
pub enum Sizing {
    /// Half the amount for a volatile instrument.
    RiskFactored,
    /// The full amount, whatever the instrument.
    NoOp,
}

/// The rule by which the engine buys and sells.
#[derive(Clone, Copy, Debug)]
pub enum Strategy {
    /// Buys into a clean, moderate uptrend of the recent closes and sells
    /// at a stop loss or on a pullback once the gain is made.
    TrendFollowing,
    /// Buys a day whose change is at or below the lower bound of the
    /// instrument's periodic average returns and sells one at or above the
    /// upper bound.
    MeanReversion {
        /// The number of daily changes in one period.
        step_size: usize,
        /// The factor of the standard deviation by which the bounds are drawn.
        bound_width: i64,
        /// The margin that a sell at the upper bound must exceed, if any.
        min_margin: Option<i64>,
    },
}

/// The share of a buy's amount that buys units: the rest is the cost of
/// trading.
pub const BUY_FACTOR: i64 = 995_000;

/// The amount that a buy may cost.
pub open spec fn sized_buy_amount(sizing: Sizing, max_amount: i64, closes: Seq<i64>) -> Result<
    i64,
    StatsError,
> {
    match sizing {
        Sizing::RiskFactored => risk_factored_amount(max_amount, closes),
        Sizing::NoOp => Ok(max_amount),
    }
}

impl Sizing {
    /// The amount to spend on an instrument with the given closes.
    pub fn amount(&self, max_amount: i64, closes: &Vec<i64>) -> (r: Result<i64, StatsError>)
        ensures
            r == sized_buy_amount(*self, max_amount, closes@),
    {
        match self {
            Sizing::RiskFactored => get_risk_factored_amount(max_amount, closes),
            Sizing::NoOp => Ok(max_amount),
        }
    }
}

/// The number of units that `amount` buys at `price`, after the cost of
/// trading.
pub open spec fn buy_quantity(amount: i64, price: i64) -> int {
    trunc_div(trunc_div(amount * BUY_FACTOR, SCALE as int) * SCALE, price as int)
}

/// The number of units that `amount` buys at `price`.
pub fn get_buy_quantity(amount: i64, price: i64) -> (r: Result<i64, StatsError>)
    ensures
        r == narrow(buy_quantity(amount, price)),
{
    let spend: i128 = div_trunc((amount as i128) * 995_000, 1_000_000);
    narrow_value(div_trunc(spend * 1_000_000, price as i128))
}

/// The envelope that a strategy reads for an instrument: none for trend
/// following; for mean reversion the bounds of the periodic average returns
/// of the whole history, where they can be computed.
pub open spec fn stock_bound(history: Seq<Candle>, strategy: Strategy) -> Option<Bound> {
    match strategy {
        Strategy::TrendFollowing => None,
        Strategy::MeanReversion { step_size, bound_width, min_margin } => if step_size == 0
            || history.len() > MAX_SERIES || !averages_fit(history, step_size as int) {
            None
        } else {
            match bounds(period_averages(history, step_size as int), bound_width) {
                Ok(bound) => Some(bound),
                Err(_) => None,
            }
        },
    }
}

/// The number of closes that a strategy reads on one day.
pub open spec fn window_days(strategy: Strategy, days_to_go_back: i64) -> i64 {
    match strategy {
        Strategy::TrendFollowing => days_to_go_back,
        Strategy::MeanReversion { step_size, bound_width, min_margin } => 2,
    }
}

/// Whether the strategy buys on the window of closes that ends on `date`.
pub open spec fn buy_signal(
    strategy: Strategy,
    bound: Option<Bound>,
    closes: Seq<i64>,
    date: Date,
) -> bool {
    match strategy {
        Strategy::TrendFollowing => buy_verdict(closes) == Ok::<bool, StatsError>(true),
        Strategy::MeanReversion { step_size, bound_width, min_margin } => match (
            bound,
            day_close(closes, date),
        ) {
            (Some(b), Some(c)) => dip_buy_verdict(c, b),
            _ => false,
        },
    }
}

/// Whether the strategy sells a position entered at `buy_price` on the
/// window of closes that ends on `date`.
pub open spec fn sell_signal(
    strategy: Strategy,
    bound: Option<Bound>,
    closes: Seq<i64>,
    date: Date,
    buy_price: i64,
    sell_loss_percent: i64,
    sell_gain_percent: i64,
) -> bool {
    match strategy {
        Strategy::TrendFollowing => sell_verdict(
            closes,
            buy_price,
            sell_loss_percent,
            sell_gain_percent,
        ) == Ok::<bool, StatsError>(true),
        Strategy::MeanReversion { step_size, bound_width, min_margin } => match (
            bound,
            day_close(closes, date),
        ) {
            (Some(b), Some(c)) => peak_sell_verdict(c, b, buy_price, min_margin),
            _ => false,
        },
    }
}

impl Strategy {
    /// The envelope of the instrument's history that the strategy reads.
    pub fn bound_for(&self, history: &Vec<Candle>) -> (r: Option<Bound>)
        ensures
            r == stock_bound(history@, *self),
    {
        match self {
            Strategy::TrendFollowing => None,
            Strategy::MeanReversion { step_size, bound_width, min_margin } => {
                match average_changes(history, *step_size) {
                    Ok(averages) => match get_bounds(&averages, *bound_width) {
                        Ok(bound) => Some(bound),
                        Err(_) => None,
                    },
                    Err(_) => None,
                }
            },
        }
    }

    /// The number of closes that the strategy reads on one day.
    pub fn window(&self, days_to_go_back: i64) -> (r: i64)
        ensures
            r == window_days(*self, days_to_go_back),
    {
        match self {
            Strategy::TrendFollowing => days_to_go_back,
            Strategy::MeanReversion { step_size, bound_width, min_margin } => 2,
        }
    }

    /// Whether to buy on the window of closes that ends on `date`. A signal
    /// that cannot be computed is no signal.
    pub fn should_buy(&self, bound: &Option<Bound>, closes: &Vec<i64>, date: Date) -> (r: bool)
        ensures
            r == buy_signal(*self, *bound, closes@, date),
    {
        match self {
            Strategy::TrendFollowing => match should_buy(closes) {
                Ok(verdict) => verdict,
                Err(_) => false,
            },
            Strategy::MeanReversion { step_size, bound_width, min_margin } => {
                match (bound, get_day_close(closes, date)) {
                    (Some(b), Some(c)) => should_buy_dip(&c, b),
                    _ => false,
                }
            },
        }
    }

    /// Whether to sell a position entered at `buy_price` on the window of
    /// closes that ends on `date`. A signal that cannot be computed is no
    /// signal.
    pub fn should_sell(
        &self,
        bound: &Option<Bound>,
        closes: &Vec<i64>,
        date: Date,
        buy_price: i64,
        sell_loss_percent: i64,
        sell_gain_percent: i64,
    ) -> (r: bool)
        ensures
            r == sell_signal(
                *self,
                *bound,
                closes@,
                date,
                buy_price,
                sell_loss_percent,
                sell_gain_percent,
            ),
    {
        match self {
            Strategy::TrendFollowing => match should_sell(
                closes,
                buy_price,
                sell_loss_percent,
                sell_gain_percent,
            ) {
                Ok(verdict) => verdict,
                Err(_) => false,
            },
            Strategy::MeanReversion { step_size, bound_width, min_margin } => {
                match (bound, get_day_close(closes, date)) {
                    (Some(b), Some(c)) => should_sell_peak(&c, b, buy_price, *min_margin),
                    _ => false,
                }
            },
        }
    }
}

} // verus!
