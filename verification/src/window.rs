//! Looking a day up in an instrument's history.

use vstd::prelude::*;
use crate::dates::{Date, past_date, is_past_date};
use crate::stats::{narrow, percent_change, get_percent_change};
use crate::types::{Candle, Close, Stock};

verus! {

/// The index of the first candle dated `date`; `-1` where there is none.
pub open spec fn candle_at(history: Seq<Candle>, date: Date) -> int
    decreases history.len(),
{
    if history.len() == 0 {
        -1
    } else {
        let before = candle_at(history.drop_last(), date);
        if before >= 0 {
            before
        } else if history.last().date == date {
            history.len() - 1
        } else {
            -1
        }
    }
}

/// `candle_at` finds the first candle of the day, or none at all.
pub proof fn lemma_candle_at(history: Seq<Candle>, date: Date)
    ensures
        -1 <= candle_at(history, date) < history.len(),
        candle_at(history, date) >= 0 ==> history[candle_at(history, date)].date == date,
        forall|j: int|
            0 <= j < history.len() && (j < candle_at(history, date) || candle_at(history, date) < 0)
                ==> (#[trigger] history[j]).date != date,
    decreases history.len(),
{
    if history.len() > 0 {
        lemma_candle_at(history.drop_last(), date);
        assert forall|j: int|
            0 <= j < history.len() && (j < candle_at(history, date) || candle_at(history, date)
                < 0) implies (#[trigger] history[j]).date != date by {
            if j < history.len() - 1 {
                assert(history.drop_last()[j] == history[j]);
            }
        }
    }
}

/// The closes of the candles at `start..end`.
pub open spec fn closes_between(history: Seq<Candle>, start: int, end: int) -> Seq<i64> {
    Seq::new((end - start) as nat, |k: int| history[start + k].close)
}

/// The closes of the `days` candles that end with the candle dated `date`;
/// `None` where no candle has that date or fewer than `days` candles reach
/// up to it.
pub open spec fn recent_closes(history: Seq<Candle>, date: Date, days: i64) -> Option<Seq<i64>> {
    let index = candle_at(history, date);
    if days < 1 || index < 0 || index < days - 1 {
        None
    } else {
        Some(closes_between(history, index - (days - 1), index + 1))
    }
}

/// The index of the first candle dated `date`.
pub fn find_candle(history: &Vec<Candle>, date: Date) -> (r: Option<usize>)
    ensures
        match r {
            Some(i) => i == candle_at(history@, date) && i < history.len(),
            None => candle_at(history@, date) == -1,
        },
{
    let n = history.len();
    let mut i: usize = 0;
    while i < n
        invariant
            n == history.len(),
            i <= n,
            forall|j: int| 0 <= j < i ==> (#[trigger] history@[j]).date != date,
        decreases n - i,
    {
        if history[i].date.days == date.days {
            proof {
                lemma_candle_at(history@, date);
            }
            return Some(i);
        }
        i += 1;
    }
    proof {
        lemma_candle_at(history@, date);
    }
    None
}

/// The closes of the last `days_to_go_back` candles up to and with the one
/// dated `date`, oldest first.
pub fn get_recent_closes(stock: &Stock, date: Date, days_to_go_back: i64) -> (r: Option<Vec<i64>>)
    ensures
        match r {
            Some(closes) => recent_closes(stock.history@, date, days_to_go_back) == Some(closes@),
            None => recent_closes(stock.history@, date, days_to_go_back).is_none(),
        },
{
    if days_to_go_back < 1 {
        return None;
    }
    let index = match find_candle(&stock.history, date) {
        Some(i) => i,
        None => {
            return None;
        },
    };
    let required: u64 = (days_to_go_back - 1) as u64;
    if (index as u64) < required {
        return None;
    }
    let start: usize = index - (required as usize);
    let mut closes: Vec<i64> = Vec::new();
    let mut i: usize = start;
    while i < index + 1
        invariant
            start <= i <= index + 1,
            index < stock.history.len(),
            closes@ == closes_between(stock.history@, start as int, i as int),
        decreases index + 1 - i,
    {
        closes.push(stock.history[i].close);
        assert(closes@ =~= closes_between(stock.history@, start as int, i + 1));
        i += 1;
    }
    Some(closes)
}

/// The day's close with its change from the close before, read from a
/// window that ends with the day; `None` where the window holds no close
/// before it or the change does not fit the fixed-point range.
pub open spec fn day_close(closes: Seq<i64>, date: Date) -> Option<Close> {
    if closes.len() < 2 {
        None
    } else {
        match narrow(
            percent_change(closes[closes.len() - 1] as int, closes[closes.len() - 2] as int),
        ) {
            Ok(change) => Some(
                Close { value: closes[closes.len() - 1], percent_change: change, date },
            ),
            Err(_) => None,
        }
    }
}

/// The day's close with its change from the close before.
pub fn get_day_close(closes: &Vec<i64>, date: Date) -> (r: Option<Close>)
    ensures
        r == day_close(closes@, date),
{
    let n = closes.len();
    if n < 2 {
        return None;
    }
    match get_percent_change(closes[n - 1], closes[n - 2]) {
        Ok(change) => Some(Close { value: closes[n - 1], percent_change: change, date }),
        Err(_) => None,
    }
}

/// The instrument is listed on `date`: the date is past its listing date.
pub open spec fn listed(stock: Stock, date: Date) -> bool {
    past_date(date, stock.listing_date)
}

/// Whether the instrument has been listed yet on `current_date`.
pub fn has_been_listed_yet(stock: &Stock, current_date: Date) -> (r: bool)
    ensures
        r == listed(*stock, current_date),
{
    is_past_date(current_date, stock.listing_date)
}

/// The candles of `history` that are dated past `listing_date`, in order.
pub open spec fn listed_history(history: Seq<Candle>, listing_date: Date) -> Seq<Candle> {
    history.filter(|candle: Candle| past_date(candle.date, listing_date))
}

/// Keeps the candles that are dated past the listing date.
pub fn retain_listed(history: Vec<Candle>, listing_date: Date) -> (r: Vec<Candle>)
    ensures
        r@ == listed_history(history@, listing_date),
{
    let mut kept: Vec<Candle> = Vec::new();
    let n = history.len();
    let mut i: usize = 0;
    assert(history@.take(0) =~= Seq::<Candle>::empty());
    while i < n
        invariant
            n == history.len(),
            i <= n,
            kept@ == listed_history(history@.take(i as int), listing_date),
        decreases n - i,
    {
        let candle = history[i];
        proof {
            assert(history@.take(i + 1).drop_last() =~= history@.take(i as int));
            reveal(Seq::filter);
        }
        if is_past_date(candle.date, listing_date) {
            kept.push(candle);
        }
        i += 1;
    }
    assert(history@.take(n as int) =~= history@);
    kept
}

/// The instrument has no negative close.
pub open spec fn closes_not_negative(stock: Stock) -> bool {
    forall|i: int| 0 <= i < stock.history@.len() ==> (#[trigger] stock.history@[i]).close >= 0
}

/// No instrument has a negative close.
pub open spec fn all_closes_not_negative(stocks: Seq<Stock>) -> bool {
    forall|i: int| 0 <= i < stocks.len() ==> closes_not_negative(#[trigger] stocks[i])
}

/// The last close of a window that was read from a history without
/// negative closes is not negative.
pub proof fn lemma_window_not_negative(stock: Stock, date: Date, days: i64)
    requires
        closes_not_negative(stock),
        recent_closes(stock.history@, date, days).is_some(),
    ensures
        recent_closes(stock.history@, date, days).unwrap().len() == days,
        recent_closes(stock.history@, date, days).unwrap().last() >= 0,
{
    lemma_candle_at(stock.history@, date);
    let index = candle_at(stock.history@, date);
    assert(stock.history@[index].close >= 0);
}

} // verus!
