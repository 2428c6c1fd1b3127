//! What becomes of the positions that are still open when the date range
//! is exhausted: they are unwound at the next close that can be had, or
//! valued at their last known close.

use vstd::prelude::*;
use crate::dates::{Date, MAX_DAY, past_date, day_after, is_past_date, next_day};
use crate::portfolio::{
    Portfolio, Ledger, ledger_after_liquidation, ledger_after_valuation, lemma_position_of,
};
use crate::types::{Candle, Stock};
use crate::window::{
    recent_closes, get_recent_closes, lemma_candle_at, closes_not_negative,
    all_closes_not_negative, lemma_window_not_negative,
};

verus! {

/// The number of closes that must end on a day for a position to be
/// unwound at that day's close.
pub const UNWIND_WINDOW: i64 = 3;

/// The index of the first instrument with `symbol`; `-1` where there is none.
pub open spec fn stock_of(stocks: Seq<Stock>, symbol: Seq<char>) -> int
    decreases stocks.len(),
{
    if stocks.len() == 0 {
        -1
    } else {
        let before = stock_of(stocks.drop_last(), symbol);
        if before >= 0 {
            before
        } else if stocks.last().symbol@ == symbol {
            stocks.len() - 1
        } else {
            -1
        }
    }
}

/// `stock_of` finds the first instrument with the symbol, or none at all.
pub proof fn lemma_stock_of(stocks: Seq<Stock>, symbol: Seq<char>)
    ensures
        -1 <= stock_of(stocks, symbol) < stocks.len(),
        stock_of(stocks, symbol) >= 0 ==> stocks[stock_of(stocks, symbol)].symbol@ == symbol,
        forall|j: int|
            0 <= j < stocks.len() && (j < stock_of(stocks, symbol) || stock_of(stocks, symbol) < 0)
                ==> (#[trigger] stocks[j]).symbol@ != symbol,
    decreases stocks.len(),
{
    if stocks.len() > 0 {
        lemma_stock_of(stocks.drop_last(), symbol);
        assert forall|j: int|
            0 <= j < stocks.len() && (j < stock_of(stocks, symbol) || stock_of(stocks, symbol)
                < 0) implies (#[trigger] stocks[j]).symbol@ != symbol by {
            if j < stocks.len() - 1 {
                assert(stocks.drop_last()[j] == stocks[j]);
            }
        }
    }
}

/// The index of the first instrument with `symbol`.
pub fn find_stock(stocks: &Vec<Stock>, symbol: &String) -> (r: Option<usize>)
    ensures
        match r {
            Some(i) => i == stock_of(stocks@, symbol@) && i < stocks.len(),
            None => stock_of(stocks@, symbol@) == -1,
        },
{
    let n = stocks.len();
    let mut i: usize = 0;
    while i < n
        invariant
            n == stocks.len(),
            i <= n,
            forall|j: int| 0 <= j < i ==> (#[trigger] stocks@[j]).symbol@ != symbol@,
        decreases n - i,
    {
        if stocks[i].symbol == *symbol {
            proof {
                lemma_stock_of(stocks@, symbol@);
            }
            return Some(i);
        }
        i += 1;
    }
    proof {
        lemma_stock_of(stocks@, symbol@);
    }
    None
}

/// The first day from `clock` on, and not past `last`, on which the
/// history has a window of `UNWIND_WINDOW` closes; the first day past
/// `last` where there is none. The search stops at the end of the clock's
/// range at the latest.
pub open spec fn next_window_day(history: Seq<Candle>, clock: Date, last: Date) -> Date
    decreases last.days + 2 - clock.days,
{
    if past_date(clock, last) || clock.days >= MAX_DAY + 2 || recent_closes(
        history,
        clock,
        UNWIND_WINDOW,
    ).is_some() {
        clock
    } else {
        next_window_day(history, day_after(clock), last)
    }
}

/// The price at which a position is unwound on `day`: the close of that
/// day where the search found a window, else the last close of the history.
pub open spec fn unwind_price(history: Seq<Candle>, day: Date, last: Date) -> Option<i64> {
    if !past_date(day, last) && day.days < MAX_DAY + 2 && recent_closes(
        history,
        day,
        UNWIND_WINDOW,
    ).is_some() {
        Some(recent_closes(history, day, UNWIND_WINDOW).unwrap().last())
    } else if history.len() > 0 {
        Some(history.last().close)
    } else {
        None
    }
}

/// Searches forward from `clock` for the day and price at which a position
/// in the instrument can be unwound.
pub fn find_unwind_day(stock: &Stock, clock: Date, last: Date) -> (r: (Date, Option<i64>))
    ensures
        r.0 == next_window_day(stock.history@, clock, last),
        r.1 == unwind_price(stock.history@, r.0, last),
        clock.days <= r.0.days,
        closes_not_negative(*stock) && r.1.is_some() ==> r.1.unwrap() >= 0,
{
    let mut day = clock;
    while !is_past_date(day, last) && day.days <= MAX_DAY + 1
        invariant
            clock.days <= day.days,
            next_window_day(stock.history@, day, last) == next_window_day(
                stock.history@,
                clock,
                last,
            ),
        decreases last.days + 2 - day.days,
    {
        match get_recent_closes(stock, day, UNWIND_WINDOW) {
            Some(closes) => {
                proof {
                    lemma_candle_at(stock.history@, day);
                    if closes_not_negative(*stock) {
                        lemma_window_not_negative(*stock, day, UNWIND_WINDOW);
                    }
                }
                return (day, Some(closes[closes.len() - 1]));
            },
            None => {
                day = next_day(day);
            },
        }
    }
    let n = stock.history.len();
    if n > 0 {
        (day, Some(stock.history[n - 1].close))
    } else {
        (day, None)
    }
}

/// The ledger and the clock after the positions from `index` on have been
/// unwound, one after the other: each is liquidated at the next close that
/// its instrument has, its full value credited, the search going on from
/// where the one before stopped. A position that cannot be liquidated
/// stays.
pub open spec fn unwound(
    stocks: Seq<Stock>,
    ledger: Ledger,
    index: int,
    clock: Date,
    last: Date,
) -> (Ledger, Date)
    decreases ledger.investments.len() - index,
{
    if index < 0 || index >= ledger.investments.len() {
        (ledger, clock)
    } else {
        let symbol = ledger.investments[index].symbol@;
        let found = stock_of(stocks, symbol);
        proof {
            lemma_stock_of(stocks, symbol);
            lemma_position_of(ledger.investments, symbol);
        }
        if found < 0 {
            unwound(stocks, ledger, index + 1, clock, last)
        } else {
            let day = next_window_day(stocks[found].history@, clock, last);
            match unwind_price(stocks[found].history@, day, last) {
                None => unwound(stocks, ledger, index + 1, day, last),
                Some(price) => match ledger_after_liquidation(ledger, symbol, price, day) {
                    Ok(after) => unwound(stocks, after, index, day, last),
                    Err(_) => unwound(stocks, ledger, index + 1, day, last),
                },
            }
        }
    }
}

/// Unwinds the positions that are still open: each is liquidated at the
/// next close that can be had, looking forward from `trading_date` and not
/// past `final_date`, or at the last close of its history where the search
/// finds none. The balance rises by the full value of the position, the
/// position is removed, and the last trade of its symbol gets price and
/// day as its sell side. Returns the day at which the clock stops.
pub fn cleanup_portfolio(
    stocks: &Vec<Stock>,
    portfolio: &mut Portfolio,
    trading_date: Date,
    final_date: Date,
) -> (clock: Date)
    ensures
        (final(portfolio)@, clock) == unwound(
            stocks@,
            old(portfolio)@,
            0,
            trading_date,
            final_date,
        ),
        old(portfolio)@.wf() && all_closes_not_negative(stocks@) ==> final(portfolio)@.wf(),
{
    let mut clock = trading_date;
    let mut index: usize = 0;
    while index < portfolio.investments.len()
        invariant
            unwound(stocks@, portfolio@, index as int, clock, final_date) == unwound(
                stocks@,
                old(portfolio)@,
                0,
                trading_date,
                final_date,
            ),
            old(portfolio)@.wf() && all_closes_not_negative(stocks@) ==> portfolio@.wf(),
        decreases portfolio.investments.len() - index,
    {
        let symbol = portfolio.investments[index].symbol.clone();
        match find_stock(stocks, &symbol) {
            None => {
                index += 1;
            },
            Some(found) => {
                let (day, price) = find_unwind_day(&stocks[found], clock, final_date);
                clock = day;
                match price {
                    None => {
                        index += 1;
                    },
                    Some(price) => {
                        proof {
                            lemma_position_of(portfolio@.investments, symbol@);
                            if all_closes_not_negative(stocks@) {
                                assert(closes_not_negative(stocks@[found as int]));
                            }
                        }
                        match portfolio.liquidate(&symbol, price, day) {
                            Ok(()) => {},
                            Err(_) => {
                                index += 1;
                            },
                        }
                    },
                }
            },
        }
    }
    clock
}

/// The ledger after the positions from `index` on have been valued, one
/// after the other, each at the last close of its instrument's history,
/// and their values credited. A position whose instrument is not in the
/// list or has no history, or whose value the balance cannot take, adds
/// nothing.
pub open spec fn settled(stocks: Seq<Stock>, ledger: Ledger, index: int) -> Ledger
    decreases ledger.investments.len() - index,
{
    if index < 0 || index >= ledger.investments.len() {
        ledger
    } else {
        let symbol = ledger.investments[index].symbol@;
        let found = stock_of(stocks, symbol);
        proof {
            lemma_stock_of(stocks, symbol);
        }
        if found < 0 || stocks[found].history@.len() == 0 {
            settled(stocks, ledger, index + 1)
        } else {
            match ledger_after_valuation(ledger, symbol, stocks[found].history@.last().close) {
                Ok(after) => settled(stocks, after, index + 1),
                Err(_) => settled(stocks, ledger, index + 1),
            }
        }
    }
}

/// Values the positions that are still open, each at the last close of
/// its instrument's history, and credits their values. Nothing is sold: the
/// positions stay open and their trades keep their sell side unset.
pub fn settle_portfolio(stocks: &Vec<Stock>, portfolio: &mut Portfolio)
    ensures
        final(portfolio)@ == settled(stocks@, old(portfolio)@, 0),
        old(portfolio)@.wf() && all_closes_not_negative(stocks@) ==> final(portfolio)@.wf(),
{
    let mut index: usize = 0;
    while index < portfolio.investments.len()
        invariant
            settled(stocks@, portfolio@, index as int) == settled(stocks@, old(portfolio)@, 0),
            old(portfolio)@.wf() && all_closes_not_negative(stocks@) ==> portfolio@.wf(),
        decreases portfolio.investments.len() - index,
    {
        let symbol = portfolio.investments[index].symbol.clone();
        match find_stock(stocks, &symbol) {
            None => {
                index += 1;
            },
            Some(found) => {
                let n = stocks[found].history.len();
                if n == 0 {
                    index += 1;
                } else {
                    let price = stocks[found].history[n - 1].close;
                    proof {
                        if all_closes_not_negative(stocks@) {
                            assert(closes_not_negative(stocks@[found as int]));
                        }
                    }
                    let _ = portfolio.force_value(&symbol, price);
                    index += 1;
                }
            },
        }
    }
}

} // verus!
