//! What holds of the trades of every run: they stand in the order of their
//! buy dates, none is sold before it was bought, and under the
//! trend-following strategy the cooldown lies between the trades of one
//! symbol.

use vstd::prelude::*;
use crate::dates::{Date, MAX_DAY, past_date, day_after};
use crate::portfolio::{
    Ledger, Trade, position_of, last_trade_of, ledger_after_close, ledger_after_valuation,
    closed_trade, lemma_last_trade_of, lemma_position_of,
};
use crate::simulator::{
    Config, EndPolicy, COOLDOWN_DAYS, sold_recently, ledger_after_stock, bound_at,
    ledger_after_day, ledger_after_days, ledger_after_selling_days, clock_after_days, stock_bounds,
    opening_ledger, simulated,
};
use crate::types::{Bound, Candle, Stock};
use crate::unwind::{unwound, settled, stock_of, next_window_day, unwind_price, lemma_stock_of};

verus! {

/// The trades stand in the order of their buy dates, and each that is sold
/// was sold on or after the day it was bought.
pub open spec fn trades_in_order(trades: Seq<Trade>) -> bool {
    &&& forall|i: int, j: int|
        0 <= i < j < trades.len() ==> (#[trigger] trades[i]).buy_date.days <= (
        #[trigger] trades[j]).buy_date.days
    &&& forall|i: int|
        0 <= i < trades.len() ==> match (#[trigger] trades[i]).sell_date {
            Some(sold) => trades[i].buy_date.days <= sold.days,
            None => true,
        }
}

/// The trades are in order, and none was bought or sold after `date`.
pub open spec fn dated_up_to(trades: Seq<Trade>, date: Date) -> bool {
    &&& trades_in_order(trades)
    &&& forall|i: int|
        0 <= i < trades.len() ==> (#[trigger] trades[i]).buy_date.days <= date.days
            && match trades[i].sell_date {
            Some(sold) => sold.days <= date.days,
            None => true,
        }
}

/// An instrument's turn on `date` keeps the trades in order: what it adds
/// or completes is dated `date`.
pub proof fn lemma_stock_keeps_dates(
    stock: Stock,
    bound: Option<Bound>,
    date: Date,
    ledger: Ledger,
    config: Config,
    buying: bool,
)
    requires
        dated_up_to(ledger.trades, date),
    ensures
        dated_up_to(ledger_after_stock(stock, bound, date, ledger, config, buying).trades, date),
{
    let after = ledger_after_stock(stock, bound, date, ledger, config, buying);
    if after != ledger {
        if position_of(ledger.investments, stock.symbol@) >= 0 {
            lemma_closing_keeps_dates(ledger, stock.symbol@, date, after);
        } else {
            let n = ledger.trades.len() as int;
            assert(after.trades.len() == n + 1);
            assert(after.trades[n].buy_date == date);
            assert(after.trades[n].sell_date.is_none());
            assert forall|i: int| 0 <= i < n implies #[trigger] after.trades[i]
                == ledger.trades[i] by {}
            assert forall|i: int, j: int| 0 <= i < j < after.trades.len() implies (
            #[trigger] after.trades[i]).buy_date.days <= (
            #[trigger] after.trades[j]).buy_date.days by {
                assert(after.trades[i] == ledger.trades[i]);
                if j < n {
                    assert(after.trades[j] == ledger.trades[j]);
                }
            }
        }
    }
}

/// Completing the last trade of a symbol on `date` keeps the trades in
/// order, whatever else the ledger does with balance and positions.
proof fn lemma_closing_keeps_dates(ledger: Ledger, symbol: Seq<char>, date: Date, after: Ledger)
    requires
        dated_up_to(ledger.trades, date),
        exists|price: i64, at_cost: bool|
            ledger_after_close(ledger, symbol, price, date, at_cost) == Ok::<
                Ledger,
                crate::portfolio::LedgerError,
            >(after),
    ensures
        dated_up_to(after.trades, date),
{
    let (price, at_cost) = choose|price: i64, at_cost: bool|
        ledger_after_close(ledger, symbol, price, date, at_cost) == Ok::<
            Ledger,
            crate::portfolio::LedgerError,
        >(after);
    let index = last_trade_of(ledger.trades, symbol);
    lemma_last_trade_of(ledger.trades, symbol);
    if index >= 0 {
        assert(after.trades == ledger.trades.update(
            index,
            closed_trade(ledger.trades[index], price, date),
        ));
        assert(ledger.trades[index].buy_date.days <= date.days);
        assert forall|i: int| 0 <= i < after.trades.len() implies (
        #[trigger] after.trades[i]).buy_date == ledger.trades[i].buy_date by {}
        assert forall|i: int| 0 <= i < after.trades.len() && i != index implies
            #[trigger] after.trades[i] == ledger.trades[i] by {}
    }
}

/// A day keeps the trades in order.
pub proof fn lemma_day_keeps_dates(
    stocks: Seq<Stock>,
    bounds: Seq<Option<Bound>>,
    count: int,
    date: Date,
    ledger: Ledger,
    config: Config,
    buying: bool,
)
    requires
        dated_up_to(ledger.trades, date),
    ensures
        dated_up_to(
            ledger_after_day(stocks, bounds, count, date, ledger, config, buying).trades,
            date,
        ),
    decreases count,
{
    if count > 0 {
        lemma_day_keeps_dates(stocks, bounds, count - 1, date, ledger, config, buying);
        lemma_stock_keeps_dates(
            stocks[count - 1],
            bound_at(bounds, count - 1),
            date,
            ledger_after_day(stocks, bounds, count - 1, date, ledger, config, buying),
            config,
            buying,
        );
    }
}

/// What is dated up to one day is dated up to every later day.
pub proof fn lemma_dated_later(trades: Seq<Trade>, date: Date, later: Date)
    requires
        dated_up_to(trades, date),
        date.days <= later.days,
    ensures
        dated_up_to(trades, later),
{
}

/// The days of the date range keep the trades in order.
pub proof fn lemma_days_keep_dates(
    stocks: Seq<Stock>,
    bounds: Seq<Option<Bound>>,
    date: Date,
    last: Date,
    ledger: Ledger,
    config: Config,
)
    requires
        dated_up_to(ledger.trades, date),
    ensures
        dated_up_to(
            ledger_after_days(stocks, bounds, date, last, ledger, config).trades,
            clock_after_days(date, last),
        ),
    decreases last.days + 2 - date.days,
{
    if !(past_date(date, last) || date.days >= MAX_DAY + 2) {
        let count = stocks.len() as int;
        let next = ledger_after_day(stocks, bounds, count, date, ledger, config, true);
        lemma_day_keeps_dates(stocks, bounds, stocks.len() as int, date, ledger, config, true);
        lemma_dated_later(next.trades, date, day_after(date));
        lemma_days_keep_dates(stocks, bounds, day_after(date), last, next, config);
    }
}

/// The days on which the run only sells keep the trades in order.
pub proof fn lemma_selling_days_keep_dates(
    stocks: Seq<Stock>,
    bounds: Seq<Option<Bound>>,
    date: Date,
    last: Date,
    ledger: Ledger,
    config: Config,
)
    requires
        dated_up_to(ledger.trades, date),
    ensures
        trades_in_order(
            ledger_after_selling_days(stocks, bounds, date, last, ledger, config).trades,
        ),
    decreases last.days + 2 - date.days,
{
    if !(past_date(date, last) || date.days >= MAX_DAY + 2 || ledger.investments.len() == 0) {
        let next = ledger_after_day(
            stocks,
            bounds,
            stocks.len() as int,
            date,
            ledger,
            config,
            false,
        );
        lemma_day_keeps_dates(stocks, bounds, stocks.len() as int, date, ledger, config, false);
        lemma_dated_later(next.trades, date, day_after(date));
        lemma_selling_days_keep_dates(stocks, bounds, day_after(date), last, next, config);
    }
}

/// The search for a day to unwind on never goes back.
pub proof fn lemma_next_window_day(history: Seq<Candle>, clock: Date, last: Date)
    ensures
        clock.days <= next_window_day(history, clock, last).days,
    decreases last.days + 2 - clock.days,
{
    if !(past_date(clock, last) || clock.days >= MAX_DAY + 2 || crate::window::recent_closes(
        history,
        clock,
        crate::unwind::UNWIND_WINDOW,
    ).is_some()) {
        lemma_next_window_day(history, day_after(clock), last);
    }
}

/// Unwinding keeps the trades in order: each position is liquidated on or
/// after the day at which the clock stood.
pub proof fn lemma_unwinding_keeps_dates(
    stocks: Seq<Stock>,
    ledger: Ledger,
    index: int,
    clock: Date,
    last: Date,
)
    requires
        dated_up_to(ledger.trades, clock),
    ensures
        dated_up_to(
            unwound(stocks, ledger, index, clock, last).0.trades,
            unwound(stocks, ledger, index, clock, last).1,
        ),
    decreases ledger.investments.len() - index,
{
    if !(index < 0 || index >= ledger.investments.len()) {
        let symbol = ledger.investments[index].symbol@;
        let found = stock_of(stocks, symbol);
        lemma_stock_of(stocks, symbol);
        lemma_position_of(ledger.investments, symbol);
        if found < 0 {
            lemma_unwinding_keeps_dates(stocks, ledger, index + 1, clock, last);
        } else {
            let day = next_window_day(stocks[found].history@, clock, last);
            lemma_next_window_day(stocks[found].history@, clock, last);
            lemma_dated_later(ledger.trades, clock, day);
            match unwind_price(stocks[found].history@, day, last) {
                None => {
                    lemma_unwinding_keeps_dates(stocks, ledger, index + 1, day, last);
                },
                Some(price) => {
                    match ledger_after_close(ledger, symbol, price, day, false) {
                        Ok(after) => {
                            lemma_closing_keeps_dates(ledger, symbol, day, after);
                            lemma_unwinding_keeps_dates(stocks, after, index, day, last);
                        },
                        Err(_) => {
                            lemma_unwinding_keeps_dates(stocks, ledger, index + 1, day, last);
                        },
                    }
                },
            }
        }
    }
}

/// Valuing what is open changes no trade.
pub proof fn lemma_settling_keeps_trades(stocks: Seq<Stock>, ledger: Ledger, index: int)
    ensures
        settled(stocks, ledger, index).trades == ledger.trades,
        settled(stocks, ledger, index).investments == ledger.investments,
    decreases ledger.investments.len() - index,
{
    if !(index < 0 || index >= ledger.investments.len()) {
        let symbol = ledger.investments[index].symbol@;
        let found = stock_of(stocks, symbol);
        lemma_stock_of(stocks, symbol);
        if found < 0 || stocks[found].history@.len() == 0 {
            lemma_settling_keeps_trades(stocks, ledger, index + 1);
        } else {
            match ledger_after_valuation(ledger, symbol, stocks[found].history@.last().close) {
                Ok(after) => {
                    lemma_settling_keeps_trades(stocks, after, index + 1);
                },
                Err(_) => {
                    lemma_settling_keeps_trades(stocks, ledger, index + 1);
                },
            }
        }
    }
}

/// The trades of every simulation stand in the order of their buy dates,
/// and none is sold before the day it was bought.
pub proof fn lemma_simulated_trades_in_order(stocks: Seq<Stock>, config: Config, today: Date)
    ensures
        trades_in_order(simulated(stocks, config, today).trades),
{
    let bounds = stock_bounds(stocks, config.strategy);
    let start = opening_ledger(config);
    assert(dated_up_to(start.trades, config.start_date));
    lemma_days_keep_dates(stocks, bounds, config.start_date, config.end_date, start, config);
    let traded = ledger_after_days(
        stocks,
        bounds,
        config.start_date,
        config.end_date,
        start,
        config,
    );
    let clock = clock_after_days(config.start_date, config.end_date);
    match config.end_policy {
        EndPolicy::Unwind => {
            lemma_unwinding_keeps_dates(stocks, traded, 0, clock, today);
        },
        EndPolicy::KeepSelling => {
            lemma_selling_days_keep_dates(stocks, bounds, clock, today, traded, config);
            lemma_settling_keeps_trades(
                stocks,
                ledger_after_selling_days(stocks, bounds, clock, today, traded, config),
                0,
            );
        },
    }
}

/// Between two trades of one symbol lies the cooldown: the earlier is
/// sold, and the later was bought at least `COOLDOWN_DAYS` after that sale.
pub open spec fn trades_cooled(trades: Seq<Trade>) -> bool {
    forall|i: int, j: int|
        0 <= i < j < trades.len() && (#[trigger] trades[i]).symbol@ == (
        #[trigger] trades[j]).symbol@ ==> match trades[i].sell_date {
            Some(sold) => sold.days + COOLDOWN_DAYS <= trades[j].buy_date.days,
            None => false,
        }
}

/// Completing the last trade of a symbol keeps the cooldown between the
/// trades: no trade of the symbol follows the one that is completed.
proof fn lemma_closing_keeps_cooldown(
    ledger: Ledger,
    symbol: Seq<char>,
    date: Date,
    after: Ledger,
)
    requires
        trades_cooled(ledger.trades),
        exists|price: i64, at_cost: bool|
            ledger_after_close(ledger, symbol, price, date, at_cost) == Ok::<
                Ledger,
                crate::portfolio::LedgerError,
            >(after),
    ensures
        trades_cooled(after.trades),
{
    let (price, at_cost) = choose|price: i64, at_cost: bool|
        ledger_after_close(ledger, symbol, price, date, at_cost) == Ok::<
            Ledger,
            crate::portfolio::LedgerError,
        >(after);
    let index = last_trade_of(ledger.trades, symbol);
    lemma_last_trade_of(ledger.trades, symbol);
    if index >= 0 {
        assert(after.trades == ledger.trades.update(
            index,
            closed_trade(ledger.trades[index], price, date),
        ));
        assert forall|i: int, j: int|
            0 <= i < j < after.trades.len() && (#[trigger] after.trades[i]).symbol@ == (
            #[trigger] after.trades[j]).symbol@ implies match after.trades[i].sell_date {
            Some(sold) => sold.days + COOLDOWN_DAYS <= after.trades[j].buy_date.days,
            None => false,
        } by {
            assert(after.trades[i].symbol@ == ledger.trades[i].symbol@);
            assert(after.trades[j].symbol@ == ledger.trades[j].symbol@);
            assert(after.trades[j].buy_date == ledger.trades[j].buy_date);
            if i == index {
                assert(ledger.trades[j].symbol@ != symbol);
            } else {
                assert(after.trades[i] == ledger.trades[i]);
            }
        }
    }
}

/// An instrument's turn keeps the cooldown between the trades of the
/// trend-following strategy, which does not buy a symbol again before the
/// cooldown after its last sale is over.
pub proof fn lemma_stock_keeps_cooldown(
    stock: Stock,
    bound: Option<Bound>,
    date: Date,
    ledger: Ledger,
    config: Config,
    buying: bool,
)
    requires
        config.strategy is TrendFollowing,
        dated_up_to(ledger.trades, date),
        trades_cooled(ledger.trades),
    ensures
        trades_cooled(ledger_after_stock(stock, bound, date, ledger, config, buying).trades),
{
    let after = ledger_after_stock(stock, bound, date, ledger, config, buying);
    if after != ledger {
        if position_of(ledger.investments, stock.symbol@) >= 0 {
            lemma_closing_keeps_cooldown(ledger, stock.symbol@, date, after);
        } else {
            let n = ledger.trades.len() as int;
            let last = last_trade_of(ledger.trades, stock.symbol@);
            lemma_last_trade_of(ledger.trades, stock.symbol@);
            assert(after.trades.len() == n + 1);
            assert(after.trades[n].buy_date == date);
            assert(after.trades[n].symbol@ == stock.symbol@);
            assert(!sold_recently(ledger.trades, stock.symbol@, date));
            assert forall|i: int, j: int|
                0 <= i < j < after.trades.len() && (#[trigger] after.trades[i]).symbol@ == (
                #[trigger] after.trades[j]).symbol@ implies match after.trades[i].sell_date {
                Some(sold) => sold.days + COOLDOWN_DAYS <= after.trades[j].buy_date.days,
                None => false,
            } by {
                assert(after.trades[i] == ledger.trades[i]);
                if j < n {
                    assert(after.trades[j] == ledger.trades[j]);
                } else {
                    assert(ledger.trades[i].symbol@ == stock.symbol@);
                    assert(i <= last);
                    if i < last {
                        assert(ledger.trades[last].buy_date.days <= date.days);
                    }
                }
            }
        }
    }
}

/// A day keeps the cooldown between the trades.
pub proof fn lemma_day_keeps_cooldown(
    stocks: Seq<Stock>,
    bounds: Seq<Option<Bound>>,
    count: int,
    date: Date,
    ledger: Ledger,
    config: Config,
    buying: bool,
)
    requires
        config.strategy is TrendFollowing,
        dated_up_to(ledger.trades, date),
        trades_cooled(ledger.trades),
    ensures
        trades_cooled(
            ledger_after_day(stocks, bounds, count, date, ledger, config, buying).trades,
        ),
    decreases count,
{
    if count > 0 {
        let before = ledger_after_day(stocks, bounds, count - 1, date, ledger, config, buying);
        lemma_day_keeps_cooldown(stocks, bounds, count - 1, date, ledger, config, buying);
        lemma_day_keeps_dates(stocks, bounds, count - 1, date, ledger, config, buying);
        lemma_stock_keeps_cooldown(
            stocks[count - 1],
            bound_at(bounds, count - 1),
            date,
            before,
            config,
            buying,
        );
    }
}

/// The days of the date range keep the cooldown between the trades.
pub proof fn lemma_days_keep_cooldown(
    stocks: Seq<Stock>,
    bounds: Seq<Option<Bound>>,
    date: Date,
    last: Date,
    ledger: Ledger,
    config: Config,
)
    requires
        config.strategy is TrendFollowing,
        dated_up_to(ledger.trades, date),
        trades_cooled(ledger.trades),
    ensures
        trades_cooled(ledger_after_days(stocks, bounds, date, last, ledger, config).trades),
    decreases last.days + 2 - date.days,
{
    if !(past_date(date, last) || date.days >= MAX_DAY + 2) {
        let count = stocks.len() as int;
        let next = ledger_after_day(stocks, bounds, count, date, ledger, config, true);
        lemma_day_keeps_dates(stocks, bounds, stocks.len() as int, date, ledger, config, true);
        lemma_day_keeps_cooldown(stocks, bounds, stocks.len() as int, date, ledger, config, true);
        lemma_dated_later(next.trades, date, day_after(date));
        lemma_days_keep_cooldown(stocks, bounds, day_after(date), last, next, config);
    }
}

/// The days on which the run only sells keep the cooldown between the trades.
pub proof fn lemma_selling_days_keep_cooldown(
    stocks: Seq<Stock>,
    bounds: Seq<Option<Bound>>,
    date: Date,
    last: Date,
    ledger: Ledger,
    config: Config,
)
    requires
        config.strategy is TrendFollowing,
        dated_up_to(ledger.trades, date),
        trades_cooled(ledger.trades),
    ensures
        trades_cooled(
            ledger_after_selling_days(stocks, bounds, date, last, ledger, config).trades,
        ),
    decreases last.days + 2 - date.days,
{
    if !(past_date(date, last) || date.days >= MAX_DAY + 2 || ledger.investments.len() == 0) {
        let next = ledger_after_day(
            stocks,
            bounds,
            stocks.len() as int,
            date,
            ledger,
            config,
            false,
        );
        lemma_day_keeps_dates(stocks, bounds, stocks.len() as int, date, ledger, config, false);
        lemma_day_keeps_cooldown(
            stocks,
            bounds,
            stocks.len() as int,
            date,
            ledger,
            config,
            false,
        );
        lemma_dated_later(next.trades, date, day_after(date));
        lemma_selling_days_keep_cooldown(stocks, bounds, day_after(date), last, next, config);
    }
}

/// Unwinding keeps the cooldown between the trades.
pub proof fn lemma_unwinding_keeps_cooldown(
    stocks: Seq<Stock>,
    ledger: Ledger,
    index: int,
    clock: Date,
    last: Date,
)
    requires
        trades_cooled(ledger.trades),
    ensures
        trades_cooled(unwound(stocks, ledger, index, clock, last).0.trades),
    decreases ledger.investments.len() - index,
{
    if !(index < 0 || index >= ledger.investments.len()) {
        let symbol = ledger.investments[index].symbol@;
        let found = stock_of(stocks, symbol);
        lemma_stock_of(stocks, symbol);
        lemma_position_of(ledger.investments, symbol);
        if found < 0 {
            lemma_unwinding_keeps_cooldown(stocks, ledger, index + 1, clock, last);
        } else {
            let day = next_window_day(stocks[found].history@, clock, last);
            match unwind_price(stocks[found].history@, day, last) {
                None => {
                    lemma_unwinding_keeps_cooldown(stocks, ledger, index + 1, day, last);
                },
                Some(price) => {
                    match ledger_after_close(ledger, symbol, price, day, false) {
                        Ok(after) => {
                            lemma_closing_keeps_cooldown(ledger, symbol, day, after);
                            lemma_unwinding_keeps_cooldown(stocks, after, index, day, last);
                        },
                        Err(_) => {
                            lemma_unwinding_keeps_cooldown(stocks, ledger, index + 1, day, last);
                        },
                    }
                },
            }
        }
    }
}

/// In every simulation of the trend-following strategy the cooldown lies
/// between the trades of one symbol: the earlier trade is sold, and the
/// later was bought at least `COOLDOWN_DAYS` after that sale.
pub proof fn lemma_simulated_trades_cooled(stocks: Seq<Stock>, config: Config, today: Date)
    requires
        config.strategy is TrendFollowing,
    ensures
        trades_cooled(simulated(stocks, config, today).trades),
{
    let bounds = stock_bounds(stocks, config.strategy);
    let start = opening_ledger(config);
    assert(dated_up_to(start.trades, config.start_date));
    assert(trades_cooled(start.trades));
    lemma_days_keep_dates(stocks, bounds, config.start_date, config.end_date, start, config);
    lemma_days_keep_cooldown(stocks, bounds, config.start_date, config.end_date, start, config);
    let traded = ledger_after_days(
        stocks,
        bounds,
        config.start_date,
        config.end_date,
        start,
        config,
    );
    let clock = clock_after_days(config.start_date, config.end_date);
    match config.end_policy {
        EndPolicy::Unwind => {
            lemma_unwinding_keeps_cooldown(stocks, traded, 0, clock, today);
        },
        EndPolicy::KeepSelling => {
            lemma_selling_days_keep_cooldown(stocks, bounds, clock, today, traded, config);
            lemma_settling_keeps_trades(
                stocks,
                ledger_after_selling_days(stocks, bounds, clock, today, traded, config),
                0,
            );
        },
    }
}

} // verus!
