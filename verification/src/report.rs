//! The figures by which a finished run is judged.

use vstd::prelude::*;
use crate::fixed::{SCALE, trunc_div, div_trunc, fits_i64, lemma_trunc_div_bound};
use crate::portfolio::{Portfolio, Trade};
use crate::simulator::Config;
use crate::stats::{StatsError, MAX_SERIES, narrow, percent_change, percent_change_wide};

verus! {

/// The figures of a run. Percentages and the ratio are fixed-point numbers.
#[derive(Clone, Copy, PartialEq, Eq, Structural, Debug)]
pub struct Summary {
    /// The change of the balance over the run, in percent.
    pub total_returns: i64,
    /// The total returns per year of the date range.
    pub annual_returns: i64,
    /// The number of trades.
    pub trades: usize,
    /// Winning trades per losing trade.
    pub win_loss_ratio: i64,
    /// The share of the trades that won, in percent.
    pub win_percent: i64,
    /// The mean gain of the winning trades, in percent.
    pub average_win: i64,
    /// The share of the trades that did not win, in percent.
    pub loss_percent: i64,
    /// The mean gain of the trades that did not win, in percent.
    pub average_loss: i64,
}

/// A trade has won where it was sold above its buy price.
pub open spec fn is_win(trade: Trade) -> bool {
    trade.sell_price > trade.buy_price
}

/// The number of trades that won, or of those that did not.
pub open spec fn outcome_count(trades: Seq<Trade>, wins: bool) -> int
    decreases trades.len(),
{
    if trades.len() == 0 {
        0
    } else {
        outcome_count(trades.drop_last(), wins) + if is_win(trades.last()) == wins {
            1int
        } else {
            0int
        }
    }
}

/// The sum of the percent gains of the trades that won, or of those that
/// did not.
pub open spec fn outcome_gains(trades: Seq<Trade>, wins: bool) -> int
    decreases trades.len(),
{
    if trades.len() == 0 {
        0
    } else {
        outcome_gains(trades.drop_last(), wins) + if is_win(trades.last()) == wins {
            percent_change(trades.last().sell_price as int, trades.last().buy_price as int)
        } else {
            0int
        }
    }
}

/// The share of `count` in `total`, in percent.
pub open spec fn share(count: int, total: int) -> int {
    trunc_div(count * 100 * SCALE, total)
}

/// The mean percent gain of the trades that won, or of those that did not.
pub open spec fn average_gain(trades: Seq<Trade>, wins: bool) -> int {
    trunc_div(outcome_gains(trades, wins), outcome_count(trades, wins))
}

/// What `get_chances` returns.
pub open spec fn chances(trades: Seq<Trade>, wins: bool) -> Result<(i64, i64), StatsError> {
    if trades.len() > MAX_SERIES || !fits_i64(average_gain(trades, wins)) {
        Err(StatsError::OutOfRange)
    } else {
        Ok(
            (
                share(outcome_count(trades, wins), trades.len() as int) as i64,
                average_gain(trades, wins) as i64,
            ),
        )
    }
}

proof fn lemma_trades_step(s: Seq<Trade>, k: int)
    requires
        0 <= k < s.len(),
    ensures
        s.take(k + 1).drop_last() == s.take(k),
        s.take(k + 1).last() == s[k],
        s.take(k + 1).len() == k + 1,
{
    assert(s.take(k + 1).drop_last() =~= s.take(k));
}

/// Counts the trades that won, or those that did not, and sums their gains.
fn tally(trades: &Vec<Trade>, wins: bool) -> (r: (usize, i128))
    requires
        trades.len() <= MAX_SERIES,
    ensures
        r.0 == outcome_count(trades@, wins),
        r.1 == outcome_gains(trades@, wins),
        r.0 <= trades.len(),
        -1_844_674_407_370_955_161_600_000_000_000_000 <= r.1
            <= 1_844_674_407_370_955_161_600_000_000_000_000,
{
    let n = trades.len();
    let mut count: usize = 0;
    let mut gains: i128 = 0;
    let mut i: usize = 0;
    while i < n
        invariant
            n == trades.len(),
            n <= 1_000_000,
            i <= n,
            count <= i,
            count == outcome_count(trades@.take(i as int), wins),
            gains == outcome_gains(trades@.take(i as int), wins),
            -(i * 1_844_674_407_370_955_161_600_000_000) <= gains <= i
                * 1_844_674_407_370_955_161_600_000_000,
        decreases n - i,
    {
        proof {
            lemma_trades_step(trades@, i as int);
        }
        if (trades[i].sell_price > trades[i].buy_price) == wins {
            count += 1;
            gains = gains + percent_change_wide(trades[i].sell_price, trades[i].buy_price);
        }
        i += 1;
    }
    assert(trades@.take(n as int) =~= trades@);
    (count, gains)
}

/// The share of the trades that won, in percent, and their mean gain; or,
/// with `wins` false, the same of the trades that did not win.
pub fn get_chances(trades: &Vec<Trade>, wins: bool) -> (r: Result<(i64, i64), StatsError>)
    ensures
        r == chances(trades@, wins),
{
    if trades.len() > MAX_SERIES {
        return Err(StatsError::OutOfRange);
    }
    let (count, gains) = tally(trades, wins);
    let average = div_trunc(gains, count as i128);
    if average < -0x8000_0000_0000_0000 || average > 0x7fff_ffff_ffff_ffff {
        return Err(StatsError::OutOfRange);
    }
    proof {
        lemma_trunc_div_bound(count * 100 * SCALE, trades.len() as int);
    }
    let probability = div_trunc((count as i128) * 100_000_000, trades.len() as i128);
    Ok((probability as i64, average as i64))
}

/// The returns per year: the total returns divided by the length of the
/// date range in years of 365 days.
pub open spec fn annual_returns(total_returns: i64, days: int) -> int {
    trunc_div(total_returns * 365, days)
}

/// Winning trades per trade that did not win.
pub open spec fn win_loss_ratio(trades: Seq<Trade>) -> int {
    trunc_div(outcome_count(trades, true) * SCALE, outcome_count(trades, false))
}

/// What `summarize` returns.
pub open spec fn summary(balance: i64, trades: Seq<Trade>, config: Config) -> Result<
    Summary,
    StatsError,
> {
    match narrow(percent_change(balance as int, config.balance as int)) {
        Err(e) => Err(e),
        Ok(total) => match narrow(
            annual_returns(total, config.end_date.days - config.start_date.days),
        ) {
            Err(e) => Err(e),
            Ok(annual) => match chances(trades, true) {
                Err(e) => Err(e),
                Ok(won) => match chances(trades, false) {
                    Err(e) => Err(e),
                    Ok(lost) => Ok(
                        Summary {
                            total_returns: total,
                            annual_returns: annual,
                            trades: trades.len() as usize,
                            win_loss_ratio: win_loss_ratio(trades) as i64,
                            win_percent: won.0,
                            average_win: won.1,
                            loss_percent: lost.0,
                            average_loss: lost.1,
                        },
                    ),
                },
            },
        },
    }
}

/// The figures of a finished run: returns, the number of trades, and how
/// often and by how much they won and lost.
pub fn summarize(result: &Portfolio, config: &Config) -> (r: Result<Summary, StatsError>)
    ensures
        r == summary(result.balance, result.trades@, *config),
{
    let total_wide = percent_change_wide(result.balance, config.balance);
    if total_wide < -0x8000_0000_0000_0000 || total_wide > 0x7fff_ffff_ffff_ffff {
        return Err(StatsError::OutOfRange);
    }
    let total = total_wide as i64;
    let days: i128 = config.end_date.days as i128 - config.start_date.days as i128;
    let annual = div_trunc((total as i128) * 365, days);
    if annual < -0x8000_0000_0000_0000 || annual > 0x7fff_ffff_ffff_ffff {
        return Err(StatsError::OutOfRange);
    }
    let won = match get_chances(&result.trades, true) {
        Ok(won) => won,
        Err(e) => {
            return Err(e);
        },
    };
    let lost = match get_chances(&result.trades, false) {
        Ok(lost) => lost,
        Err(e) => {
            return Err(e);
        },
    };
    let (winners, _) = tally(&result.trades, true);
    let (losers, _) = tally(&result.trades, false);
    proof {
        lemma_trunc_div_bound(winners * SCALE, losers as int);
    }
    let ratio = div_trunc((winners as i128) * 1_000_000, losers as i128);
    Ok(
        Summary {
            total_returns: total,
            annual_returns: annual as i64,
            trades: result.trades.len(),
            win_loss_ratio: ratio as i64,
            win_percent: won.0,
            average_win: won.1,
            loss_percent: lost.0,
            average_loss: lost.1,
        },
    )
}

} // verus!
