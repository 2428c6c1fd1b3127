//! What holds of whole runs: days that change nothing can be left out, and
//! a single instrument is bought on the first day of its signal and sold on
//! the first day on which its stop loss is reached.

use vstd::prelude::*;
use crate::dates::{Date, MAX_DAY, past_date, day_after};
use crate::fixed::fits_i64;
use crate::portfolio::{
    Investment, Ledger, Trade, position_of, last_trade_of, sale_proceeds, ledger_after_buy,
    ledger_after_sell, ledger_after_liquidation, closed_trade,
};
use crate::simulator::{
    Config, COOLDOWN_DAYS, sold_recently, buy_decision, selling_outcome, ledger_after_stock,
    bound_at, ledger_after_day, ledger_after_days, ledger_after_selling_days, clock_after_days,
    stock_bounds, opening_ledger, simulated,
};
use crate::stats::{StatsError, narrow, percent_change};
use crate::trading::{
    buy_signal, sell_signal, buy_verdict, sell_verdict, sized_buy_amount, buy_quantity,
    stock_bound, window_days,
};
use crate::types::{Bound, Stock};
use crate::unwind::{unwound, settled, stock_of, next_window_day, unwind_price};
use crate::window::{listed, recent_closes};

verus! {

/// The strategy gives its buy signal for the instrument on `date`: the
/// instrument is listed, has its window of closes, and the signal is there.
pub open spec fn buys_on(stock: Stock, date: Date, config: Config) -> bool {
    listed(stock, date) && match recent_closes(
        stock.history@,
        date,
        window_days(config.strategy, config.days_to_go_back),
    ) {
        Some(closes) => buy_signal(
            config.strategy,
            stock_bound(stock.history@, config.strategy),
            closes,
            date,
        ),
        None => false,
    }
}

/// The strategy gives its sell signal on `date` for a position in the
/// instrument that was entered at `buy_price`.
pub open spec fn sells_on(stock: Stock, date: Date, config: Config, buy_price: i64) -> bool {
    listed(stock, date) && match recent_closes(
        stock.history@,
        date,
        window_days(config.strategy, config.days_to_go_back),
    ) {
        Some(closes) => closes.len() > 0 && sell_signal(
            config.strategy,
            stock_bound(stock.history@, config.strategy),
            closes,
            date,
            buy_price,
            config.sell_loss_percent,
            config.sell_gain_percent,
        ),
        None => false,
    }
}

/// The window of closes that the strategy reads for the instrument on `date`.
pub open spec fn window_on(stock: Stock, date: Date, config: Config) -> Option<Seq<i64>> {
    recent_closes(
        stock.history@,
        date,
        window_days(config.strategy, config.days_to_go_back),
    )
}

/// Days that leave the ledger as it is can be left out of a run: where no
/// day from `date` up to, and without, `until` changes the ledger, the run
/// from `date` ends as the run from `until` does.
pub proof fn lemma_quiet_until(
    stocks: Seq<Stock>,
    bounds: Seq<Option<Bound>>,
    date: Date,
    until: Date,
    last: Date,
    ledger: Ledger,
    config: Config,
)
    requires
        date.days <= until.days,
        until.days <= last.days + 2,
        until.days <= MAX_DAY + 2,
        forall|d: Date|
            date.days <= d.days < until.days ==> #[trigger] ledger_after_day(
                stocks,
                bounds,
                stocks.len() as int,
                d,
                ledger,
                config,
                true,
            ) == ledger,
    ensures
        ledger_after_days(stocks, bounds, date, last, ledger, config) == ledger_after_days(
            stocks,
            bounds,
            until,
            last,
            ledger,
            config,
        ),
    decreases until.days - date.days,
{
    if date.days < until.days {
        assert(ledger_after_day(stocks, bounds, stocks.len() as int, date, ledger, config, true)
            == ledger);
        lemma_quiet_until(stocks, bounds, day_after(date), until, last, ledger, config);
    } else {
        assert(date == until);
    }
}

/// With one instrument a day is that instrument's turn.
pub proof fn lemma_day_of_one_instrument(
    stock: Stock,
    date: Date,
    ledger: Ledger,
    config: Config,
    buying: bool,
)
    ensures
        ledger_after_day(
            seq![stock],
            stock_bounds(seq![stock], config.strategy),
            1,
            date,
            ledger,
            config,
            buying,
        ) == ledger_after_stock(
            stock,
            stock_bound(stock.history@, config.strategy),
            date,
            ledger,
            config,
            buying,
        ),
{
    let stocks = seq![stock];
    let bounds = stock_bounds(stocks, config.strategy);
    assert(ledger_after_day(stocks, bounds, 0, date, ledger, config, buying) == ledger);
    assert(stocks[0] == stock);
    assert(bound_at(bounds, 0) == stock_bound(stock.history@, config.strategy));
}

/// An instrument without a position is left alone on a day without its
/// buy signal.
pub proof fn lemma_no_signal_no_buy(stock: Stock, date: Date, ledger: Ledger, config: Config)
    requires
        position_of(ledger.investments, stock.symbol@) < 0,
        !buys_on(stock, date, config),
    ensures
        ledger_after_stock(
            stock,
            stock_bound(stock.history@, config.strategy),
            date,
            ledger,
            config,
            true,
        ) == ledger,
{
}

/// A position is held on a day without the sell signal.
pub proof fn lemma_no_signal_no_sell(stock: Stock, date: Date, ledger: Ledger, config: Config)
    requires
        position_of(ledger.investments, stock.symbol@) >= 0,
        !sells_on(
            stock,
            date,
            config,
            ledger.investments[position_of(ledger.investments, stock.symbol@)].price,
        ),
    ensures
        ledger_after_stock(
            stock,
            stock_bound(stock.history@, config.strategy),
            date,
            ledger,
            config,
            true,
        ) == ledger,
{
}

/// The trade that a buy of `quantity` units at `price` on `date` records.
pub open spec fn bought_trade(stock: Stock, price: i64, quantity: i64, date: Date) -> Trade {
    Trade {
        symbol: stock.symbol,
        buy_price: price,
        buy_date: date,
        sell_price: 0,
        sell_date: None,
        quantity,
    }
}

/// The ledger of a run that has bought the instrument once and holds it.
pub open spec fn ledger_holding(
    stock: Stock,
    config: Config,
    price: i64,
    quantity: i64,
    amount: i64,
    bought: Date,
) -> Ledger {
    Ledger {
        balance: (config.balance - amount) as i64,
        investments: seq![Investment { symbol: stock.symbol, price, quantity }],
        trades: seq![bought_trade(stock, price, quantity, bought)],
    }
}

/// The ledger of a run that has bought the instrument once and sold it.
pub open spec fn ledger_sold(
    stock: Stock,
    config: Config,
    price: i64,
    quantity: i64,
    amount: i64,
    bought: Date,
    sell_price: i64,
    sold: Date,
) -> Ledger {
    Ledger {
        balance: (config.balance - amount + sale_proceeds(sell_price, quantity)) as i64,
        investments: Seq::empty(),
        trades: seq![
            closed_trade(bought_trade(stock, price, quantity, bought), sell_price, sold),
        ],
    }
}

/// What a run of the trend-following strategy on one instrument needs for
/// a single buy on the day `bought`: no buy signal on any day before it,
/// and on that day a signal, an amount that the balance covers, and a
/// quantity of more than nothing.
pub open spec fn buys_first_on(
    stock: Stock,
    config: Config,
    bought: Date,
    amount: i64,
    quantity: i64,
) -> bool {
    &&& config.strategy is TrendFollowing
    &&& config.start_date.days <= bought.days
    &&& !past_date(bought, config.end_date)
    &&& config.end_date.in_range()
    &&& forall|d: Date|
        config.start_date.days <= d.days < bought.days ==> !#[trigger] buys_on(stock, d, config)
    &&& listed(stock, bought)
    &&& window_on(stock, bought, config).is_some()
    &&& buy_verdict(window_on(stock, bought, config).unwrap()) == Ok::<bool, StatsError>(true)
    &&& sized_buy_amount(
        config.sizing,
        config.buy_amount,
        window_on(stock, bought, config).unwrap(),
    ) == Ok::<i64, StatsError>(amount)
    &&& 0 < amount <= config.balance
    &&& narrow(buy_quantity(amount, window_on(stock, bought, config).unwrap().last())) == Ok::<
        i64,
        StatsError,
    >(quantity)
    &&& quantity > 0
}

proof fn lemma_position_of_one(investment: Investment, symbol: Seq<char>)
    ensures
        position_of(seq![investment], symbol) == (if investment.symbol@ == symbol {
            0int
        } else {
            -1int
        }),
        position_of(Seq::<Investment>::empty(), symbol) == -1,
{
    let one = seq![investment];
    let none = Seq::<Investment>::empty();
    assert(one.drop_last() =~= none);
    assert(one.last() == investment);
    assert(one.len() == 1);
    assert(position_of(none, symbol) == -1);
    assert(position_of(one.drop_last(), symbol) == -1);
}

proof fn lemma_last_trade_of_one(trade: Trade, symbol: Seq<char>)
    ensures
        last_trade_of(seq![trade], symbol) == (if trade.symbol@ == symbol {
            0int
        } else {
            -1int
        }),
        last_trade_of(Seq::<Trade>::empty(), symbol) == -1,
{
    let one = seq![trade];
    let none = Seq::<Trade>::empty();
    assert(one.drop_last() =~= none);
    assert(one.last() == trade);
    assert(one.len() == 1);
    assert(last_trade_of(none, symbol) == -1);
    assert(last_trade_of(one.drop_last(), symbol) == -1);
}

/// Up to and with the day of its first buy signal, a run on one instrument
/// does nothing but that buy: it records one trade, dated that day, at the
/// close of that day.
pub proof fn lemma_first_buy(
    stock: Stock,
    config: Config,
    bought: Date,
    amount: i64,
    quantity: i64,
)
    requires
        buys_first_on(stock, config, bought, amount, quantity),
    ensures
        ledger_after_days(
            seq![stock],
            stock_bounds(seq![stock], config.strategy),
            config.start_date,
            config.end_date,
            opening_ledger(config),
            config,
        ) == ledger_after_days(
            seq![stock],
            stock_bounds(seq![stock], config.strategy),
            day_after(bought),
            config.end_date,
            ledger_holding(
                stock,
                config,
                window_on(stock, bought, config).unwrap().last(),
                quantity,
                amount,
                bought,
            ),
            config,
        ),
{
    let stocks = seq![stock];
    let bounds = stock_bounds(stocks, config.strategy);
    let start = opening_ledger(config);
    let closes = window_on(stock, bought, config).unwrap();
    let price = closes.last();
    let bound = stock_bound(stock.history@, config.strategy);
    lemma_position_of_one(Investment { symbol: stock.symbol, price, quantity }, stock.symbol@);
    lemma_last_trade_of_one(bought_trade(stock, price, quantity, bought), stock.symbol@);
    assert forall|d: Date| config.start_date.days <= d.days < bought.days implies
        #[trigger] ledger_after_day(stocks, bounds, stocks.len() as int, d, start, config, true)
        == start by {
        lemma_day_of_one_instrument(stock, d, start, config, true);
        assert(!buys_on(stock, d, config));
        lemma_no_signal_no_buy(stock, d, start, config);
    }
    lemma_quiet_until(stocks, bounds, config.start_date, bought, config.end_date, start, config);
    lemma_day_of_one_instrument(stock, bought, start, config, true);
    let held = ledger_holding(stock, config, price, quantity, amount, bought);
    assert(!sold_recently(start.trades, stock.symbol@, bought));
    assert(buy_decision(stock, bound, closes, bought, start, config));
    let after = ledger_after_buy(start, stock.symbol, price, quantity, bought, amount);
    assert(after.investments =~= held.investments);
    assert(after.trades =~= held.trades);
    assert(ledger_after_stock(stock, bound, bought, start, config, true) == held);
}

proof fn lemma_stock_of_one(stock: Stock, symbol: Seq<char>)
    ensures
        stock_of(seq![stock], symbol) == (if stock.symbol@ == symbol {
            0int
        } else {
            -1int
        }),
{
    let one = seq![stock];
    let none = Seq::<Stock>::empty();
    assert(one.drop_last() =~= none);
    assert(one.last() == stock);
    assert(one.len() == 1);
    assert(stock_of(none, symbol) == -1);
    assert(stock_of(one.drop_last(), symbol) == -1);
}

/// A run of the trend-following strategy on one instrument that meets its
/// buy thresholds first on the day `bought`, and after that no sell signal
/// up to the end of the date range, ends the range with exactly one trade:
/// bought on that day at that day's close, and still open. Unwinding what
/// is open leaves it the only trade, with its buy side as it was.
pub proof fn lemma_single_buy(
    stock: Stock,
    config: Config,
    bought: Date,
    amount: i64,
    quantity: i64,
    today: Date,
)
    requires
        buys_first_on(stock, config, bought, amount, quantity),
        forall|d: Date|
            bought.days < d.days <= config.end_date.days + 1 ==> !#[trigger] sells_on(
                stock,
                d,
                config,
                window_on(stock, bought, config).unwrap().last(),
            ),
    ensures
        ledger_after_days(
            seq![stock],
            stock_bounds(seq![stock], config.strategy),
            config.start_date,
            config.end_date,
            opening_ledger(config),
            config,
        ) == ledger_holding(
            stock,
            config,
            window_on(stock, bought, config).unwrap().last(),
            quantity,
            amount,
            bought,
        ),
        config.end_policy is Unwind ==> ({
            let result = simulated(seq![stock], config, today);
            &&& result.trades.len() == 1
            &&& result.trades[0].symbol == stock.symbol
            &&& result.trades[0].buy_date == bought
            &&& result.trades[0].buy_price == window_on(stock, bought, config).unwrap().last()
            &&& result.trades[0].quantity == quantity
        }),
{
    let stocks = seq![stock];
    let bounds = stock_bounds(stocks, config.strategy);
    let price = window_on(stock, bought, config).unwrap().last();
    let held = ledger_holding(stock, config, price, quantity, amount, bought);
    let end = Date { days: (config.end_date.days + 2) as i32 };
    lemma_first_buy(stock, config, bought, amount, quantity);
    lemma_position_of_one(Investment { symbol: stock.symbol, price, quantity }, stock.symbol@);
    assert forall|d: Date| day_after(bought).days <= d.days < end.days implies
        #[trigger] ledger_after_day(stocks, bounds, stocks.len() as int, d, held, config, true)
        == held by {
        lemma_day_of_one_instrument(stock, d, held, config, true);
        assert(!sells_on(stock, d, config, price));
        lemma_no_signal_no_sell(stock, d, held, config);
    }
    lemma_quiet_until(stocks, bounds, day_after(bought), end, config.end_date, held, config);
    assert(past_date(end, config.end_date));
    if config.end_policy is Unwind {
        let clock = clock_after_days(config.start_date, config.end_date);
        let trade = bought_trade(stock, price, quantity, bought);
        lemma_stock_of_one(stock, stock.symbol@);
        lemma_last_trade_of_one(trade, stock.symbol@);
        let day = next_window_day(stock.history@, clock, today);
        assert(unwound(stocks, held, 1, clock, today) == (held, clock));
        assert(unwound(stocks, held, 1, day, today) == (held, day));
        match unwind_price(stock.history@, day, today) {
            None => {},
            Some(at) => {
                match ledger_after_liquidation(held, stock.symbol@, at, day) {
                    Ok(after) => {
                        assert(after.investments =~= Seq::<Investment>::empty());
                        assert(after.trades =~= seq![closed_trade(trade, at, day)]);
                        assert(unwound(stocks, after, 0, day, today) == (after, day));
                    },
                    Err(_) => {},
                }
            },
        }
    }
}

/// A run of the trend-following strategy on one instrument buys on the
/// first day on which the buy thresholds are met, `bought`, and sells on
/// the first day after it on which the strategy says sell, `sold`, which is
/// the day on which the stop loss is reached where no sell signal came
/// before. Where no buy signal outlasts the cooldown after that, the run
/// ends its date range with exactly one trade: bought on `bought` at that
/// day's close, sold on `sold` at that day's close. The same is then the
/// result of the whole simulation, whatever the end policy.
pub proof fn lemma_buy_then_stop_loss(
    stock: Stock,
    config: Config,
    bought: Date,
    sold: Date,
    amount: i64,
    quantity: i64,
    today: Date,
)
    requires
        buys_first_on(stock, config, bought, amount, quantity),
        bought.days < sold.days,
        !past_date(sold, config.end_date),
        forall|d: Date|
            bought.days < d.days < sold.days ==> !#[trigger] sells_on(
                stock,
                d,
                config,
                window_on(stock, bought, config).unwrap().last(),
            ),
        listed(stock, sold),
        window_on(stock, sold, config).is_some(),
        window_on(stock, sold, config).unwrap().len() > 0,
        percent_change(
            window_on(stock, sold, config).unwrap().last() as int,
            window_on(stock, bought, config).unwrap().last() as int,
        ) <= -config.sell_loss_percent,
        fits_i64(
            config.balance - amount + sale_proceeds(
                window_on(stock, sold, config).unwrap().last(),
                quantity,
            ),
        ),
        forall|d: Date|
            sold.days < d.days <= config.end_date.days + 1 ==> !#[trigger] buys_on(
                stock,
                d,
                config,
            ) || d.days - sold.days < COOLDOWN_DAYS,
    ensures
        ledger_after_days(
            seq![stock],
            stock_bounds(seq![stock], config.strategy),
            config.start_date,
            config.end_date,
            opening_ledger(config),
            config,
        ) == ledger_sold(
            stock,
            config,
            window_on(stock, bought, config).unwrap().last(),
            quantity,
            amount,
            bought,
            window_on(stock, sold, config).unwrap().last(),
            sold,
        ),
        simulated(seq![stock], config, today) == ledger_sold(
            stock,
            config,
            window_on(stock, bought, config).unwrap().last(),
            quantity,
            amount,
            bought,
            window_on(stock, sold, config).unwrap().last(),
            sold,
        ),
{
    let stocks = seq![stock];
    let bounds = stock_bounds(stocks, config.strategy);
    let bound = stock_bound(stock.history@, config.strategy);
    let price = window_on(stock, bought, config).unwrap().last();
    let closes = window_on(stock, sold, config).unwrap();
    let sell_price = closes.last();
    let held = ledger_holding(stock, config, price, quantity, amount, bought);
    let done = ledger_sold(stock, config, price, quantity, amount, bought, sell_price, sold);
    let end = Date { days: (config.end_date.days + 2) as i32 };
    let position = Investment { symbol: stock.symbol, price, quantity };
    let trade = bought_trade(stock, price, quantity, bought);
    lemma_first_buy(stock, config, bought, amount, quantity);
    lemma_position_of_one(position, stock.symbol@);
    lemma_last_trade_of_one(trade, stock.symbol@);
    lemma_last_trade_of_one(closed_trade(trade, sell_price, sold), stock.symbol@);
    // Held until the day of the sale.
    assert forall|d: Date| day_after(bought).days <= d.days < sold.days implies
        #[trigger] ledger_after_day(stocks, bounds, stocks.len() as int, d, held, config, true)
        == held by {
        lemma_day_of_one_instrument(stock, d, held, config, true);
        assert(!sells_on(stock, d, config, price));
        lemma_no_signal_no_sell(stock, d, held, config);
    }
    lemma_quiet_until(stocks, bounds, day_after(bought), sold, config.end_date, held, config);
    // Sold on that day.
    lemma_day_of_one_instrument(stock, sold, held, config, true);
    assert(sell_verdict(closes, price, config.sell_loss_percent, config.sell_gain_percent)
        == Ok::<bool, StatsError>(true));
    let after = ledger_after_sell(held, stock.symbol@, sell_price, sold).unwrap();
    assert(held.investments.remove(0) =~= Seq::<Investment>::empty());
    assert(held.trades.update(0, closed_trade(trade, sell_price, sold)) =~= done.trades);
    assert(after.investments =~= done.investments);
    assert(after.trades =~= done.trades);
    assert(selling_outcome(stock, bound, closes, sold, held, config) == Ok::<
        Ledger,
        crate::portfolio::LedgerError,
    >(done));
    assert(ledger_after_stock(stock, bound, sold, held, config, true) == done);
    // Nothing after it.
    assert forall|d: Date| day_after(sold).days <= d.days < end.days implies
        #[trigger] ledger_after_day(stocks, bounds, stocks.len() as int, d, done, config, true)
        == done by {
        lemma_day_of_one_instrument(stock, d, done, config, true);
        assert(!buys_on(stock, d, config) || d.days - sold.days < COOLDOWN_DAYS);
        if buys_on(stock, d, config) {
            assert(sold_recently(done.trades, stock.symbol@, d));
        }
    }
    lemma_quiet_until(stocks, bounds, day_after(sold), end, config.end_date, done, config);
    assert(past_date(end, config.end_date));
    // Nothing is open at the end, so the end policy finds nothing to do.
    let clock = clock_after_days(config.start_date, config.end_date);
    assert(unwound(stocks, done, 0, clock, today) == (done, clock));
    assert(ledger_after_selling_days(stocks, bounds, clock, today, done, config) == done);
    assert(settled(stocks, done, 0) == done);
}

} // verus!
