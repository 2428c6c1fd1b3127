//! The simulation driver: it steps a clock one day at a time over the date
//! range, lets the strategy decide on every instrument, applies the verdicts
//! to the portfolio and closes what is still open at the end.

use vstd::prelude::*;
use crate::dates::{Date, MAX_DAY, past_date, day_after, is_past_date, next_day, get_today};
use crate::portfolio::{
    Portfolio, Ledger, LedgerError, Trade, position_of, last_trade_of, ledger_after_buy,
    ledger_after_sell,
};
use crate::stats::narrow;
use crate::trading::{
    Strategy, Sizing, buy_signal, sell_signal, sized_buy_amount, buy_quantity, get_buy_quantity,
    stock_bound, window_days, TREND_DAYS, RECENT_DAYS,
};
use crate::types::{Bound, Stock};
use crate::unwind::{unwound, cleanup_portfolio, settled, settle_portfolio};
use crate::window::{
    recent_closes, get_recent_closes, listed, has_been_listed_yet, closes_not_negative,
    all_closes_not_negative, lemma_window_not_negative,
};

verus! {

/// What is done with the positions that are still open when the date range
/// is exhausted.
#[derive(Clone, Copy, Debug)]
pub enum EndPolicy {
    /// Each position is liquidated at the next close that can be had,
    /// looking forward from the end of the range up to the final date. Its
    /// full value is credited: no cost of trading is taken.
    Unwind,
    /// The clock runs on to the final date, selling and never buying; what
    /// is still open then is valued at its last known close and the value
    /// credited, the position left open and its trade without a sell side.
    KeepSelling,
}

/// The parameters of one simulation run.
#[derive(Clone, Copy, Debug)]
pub struct Config {
    /// The cash at the start.
    pub balance: i64,
    /// The most that one buy may cost.
    pub buy_amount: i64,
    /// The loss in percent at which a position is sold.
    pub sell_loss_percent: i64,
    /// The gain in percent above which a position may be sold.
    pub sell_gain_percent: i64,
    /// The number of closes in the window of the trend-following strategy.
    pub days_to_go_back: i64,
    pub start_date: Date,
    pub end_date: Date,
    pub strategy: Strategy,
    pub sizing: Sizing,
    pub end_policy: EndPolicy,
}

/// Why a simulation was not run.
#[derive(Clone, Copy, PartialEq, Eq, Structural, Debug)]
pub enum SimulationError {
    /// The start date, the end date or the final date is outside the range
    /// of the clock.
    DateOutOfRange,
    /// The window of the trend-following strategy is shorter than its
    /// signals need.
    WindowOutOfRange,
}

/// A buy is not repeated within this many days of the last sell.
pub const COOLDOWN_DAYS: i64 = 35;

/// The symbol was last sold less than `COOLDOWN_DAYS` before `today`, or
/// its last trade is still open.
pub open spec fn sold_recently(trades: Seq<Trade>, symbol: Seq<char>, today: Date) -> bool {
    let index = last_trade_of(trades, symbol);
    index >= 0 && match trades[index].sell_date {
        Some(sold) => today.days - sold.days < COOLDOWN_DAYS,
        None => true,
    }
}

/// Whether the cooldown after the last sell of the symbol is still running.
pub fn has_sold_recently(symbol: &String, today: Date, portfolio: &Portfolio) -> (r: bool)
    ensures
        r == sold_recently(portfolio.trades@, symbol@, today),
{
    match portfolio.get_last_trade(symbol) {
        Some(i) => match portfolio.trades[i].sell_date {
            Some(sold) => (today.days as i64) - (sold.days as i64) < COOLDOWN_DAYS,
            None => true,
        },
        None => false,
    }
}

/// The strategy's buy signal, with the cooldown that trend following adds.
pub open spec fn buy_decision(
    stock: Stock,
    bound: Option<Bound>,
    closes: Seq<i64>,
    date: Date,
    ledger: Ledger,
    config: Config,
) -> bool {
    buy_signal(config.strategy, bound, closes, date) && match config.strategy {
        Strategy::TrendFollowing => !sold_recently(ledger.trades, stock.symbol@, date),
        Strategy::MeanReversion { step_size, bound_width, min_margin } => true,
    }
}

/// The ledger after the instrument's turn on a day on which it has no
/// position: where the strategy says buy, the amount is sized, the quantity
/// is what the amount buys at the day's close, and the buy is applied. An
/// amount that buys no unit at all buys nothing.
pub open spec fn ledger_after_buying(
    stock: Stock,
    bound: Option<Bound>,
    closes: Seq<i64>,
    date: Date,
    ledger: Ledger,
    config: Config,
) -> Ledger {
    if !buy_decision(stock, bound, closes, date, ledger, config) {
        ledger
    } else {
        match sized_buy_amount(config.sizing, config.buy_amount, closes) {
            Err(_) => ledger,
            Ok(amount) => match narrow(buy_quantity(amount, closes.last())) {
                Err(_) => ledger,
                Ok(quantity) => if quantity <= 0 {
                    ledger
                } else {
                    ledger_after_buy(ledger, stock.symbol, closes.last(), quantity, date, amount)
                },
            },
        }
    }
}

/// What comes of looking at an instrument for selling. Without a position
/// in its symbol there is nothing to sell, which is an error. With one,
/// the ledger stays as it is where the strategy does not say sell; where it
/// does, the position is sold at the day's close, or the ledger's reason
/// for refusing the sell is handed on.
pub open spec fn selling_outcome(
    stock: Stock,
    bound: Option<Bound>,
    closes: Seq<i64>,
    date: Date,
    ledger: Ledger,
    config: Config,
) -> Result<Ledger, LedgerError> {
    let held = position_of(ledger.investments, stock.symbol@);
    if held < 0 {
        Err(LedgerError::NoOpenPosition)
    } else if closes.len() == 0 || !sell_signal(
        config.strategy,
        bound,
        closes,
        date,
        ledger.investments[held].price,
        config.sell_loss_percent,
        config.sell_gain_percent,
    ) {
        Ok(ledger)
    } else {
        ledger_after_sell(ledger, stock.symbol@, closes.last(), date)
    }
}

/// The ledger after the instrument's turn on a day on which it has a
/// position: where the strategy says sell, the position is sold at the
/// day's close. A sell that the ledger refuses changes nothing.
pub open spec fn ledger_after_selling(
    stock: Stock,
    bound: Option<Bound>,
    closes: Seq<i64>,
    date: Date,
    ledger: Ledger,
    config: Config,
) -> Ledger {
    match selling_outcome(stock, bound, closes, date, ledger, config) {
        Ok(after) => after,
        Err(_) => ledger,
    }
}

/// The ledger after the instrument's turn on `date`, `bound` being the
/// envelope that the strategy reads for it. An instrument that is not
/// listed yet, or has no window of closes ending on the date, is skipped.
/// One with a position is looked at for selling, one without for buying, if
/// `buying` allows it.
pub open spec fn ledger_after_stock(
    stock: Stock,
    bound: Option<Bound>,
    date: Date,
    ledger: Ledger,
    config: Config,
    buying: bool,
) -> Ledger {
    if !listed(stock, date) {
        ledger
    } else {
        match recent_closes(
            stock.history@,
            date,
            window_days(config.strategy, config.days_to_go_back),
        ) {
            None => ledger,
            Some(closes) => if position_of(ledger.investments, stock.symbol@) >= 0 {
                ledger_after_selling(stock, bound, closes, date, ledger, config)
            } else if buying {
                ledger_after_buying(stock, bound, closes, date, ledger, config)
            } else {
                ledger
            },
        }
    }
}

/// The envelope of instrument `index`; none where the list has no entry for it.
pub open spec fn bound_at(bounds: Seq<Option<Bound>>, index: int) -> Option<Bound> {
    if 0 <= index < bounds.len() {
        bounds[index]
    } else {
        None
    }
}

/// The ledger after the first `count` instruments have had their turn on
/// `date`, `bounds` holding the envelope of each.
pub open spec fn ledger_after_day(
    stocks: Seq<Stock>,
    bounds: Seq<Option<Bound>>,
    count: int,
    date: Date,
    ledger: Ledger,
    config: Config,
    buying: bool,
) -> Ledger
    decreases count,
{
    if count <= 0 {
        ledger
    } else {
        ledger_after_stock(
            stocks[count - 1],
            bound_at(bounds, count - 1),
            date,
            ledger_after_day(stocks, bounds, count - 1, date, ledger, config, buying),
            config,
            buying,
        )
    }
}

/// The ledger after the clock has stepped from `date` until it is past
/// `last`, every instrument having its turn on every day. The clock stops
/// at the end of its range at the latest.
pub open spec fn ledger_after_days(
    stocks: Seq<Stock>,
    bounds: Seq<Option<Bound>>,
    date: Date,
    last: Date,
    ledger: Ledger,
    config: Config,
) -> Ledger
    decreases last.days + 2 - date.days,
{
    if past_date(date, last) || date.days >= MAX_DAY + 2 {
        ledger
    } else {
        ledger_after_days(
            stocks,
            bounds,
            day_after(date),
            last,
            ledger_after_day(stocks, bounds, stocks.len() as int, date, ledger, config, true),
            config,
        )
    }
}

/// Where the clock stands once it has stepped from `date` until it is
/// past `last`.
pub open spec fn clock_after_days(date: Date, last: Date) -> Date
    decreases last.days + 2 - date.days,
{
    if past_date(date, last) || date.days >= MAX_DAY + 2 {
        date
    } else {
        clock_after_days(day_after(date), last)
    }
}

/// A clock that starts within its range, and not past `last`, stops two
/// days after `last`.
pub proof fn lemma_clock_after_days(date: Date, last: Date)
    requires
        last.in_range(),
        !past_date(date, last),
    ensures
        clock_after_days(date, last).days == last.days + 2,
    decreases last.days + 2 - date.days,
{
    if !past_date(day_after(date), last) {
        lemma_clock_after_days(day_after(date), last);
    } else {
        assert(clock_after_days(day_after(date), last) == day_after(date));
    }
}

/// Looks at an instrument without a position for buying.
pub fn analyze_buying(
    stock: &Stock,
    bound: &Option<Bound>,
    recent_closes: &Vec<i64>,
    current_date: Date,
    portfolio: &mut Portfolio,
    config: &Config,
)
    ensures
        final(portfolio)@ == ledger_after_buying(
            *stock,
            *bound,
            recent_closes@,
            current_date,
            old(portfolio)@,
            *config,
        ),
        old(portfolio)@.wf() && position_of(old(portfolio)@.investments, stock.symbol@) < 0
            ==> final(portfolio)@.wf(),
{
    if !config.strategy.should_buy(bound, recent_closes, current_date) {
        return ;
    }
    match config.strategy {
        Strategy::TrendFollowing => {
            if has_sold_recently(&stock.symbol, current_date, portfolio) {
                return ;
            }
        },
        Strategy::MeanReversion { step_size, bound_width, min_margin } => {},
    }
    let buy_amount = match config.sizing.amount(config.buy_amount, recent_closes) {
        Ok(amount) => amount,
        Err(_) => {
            return ;
        },
    };
    assert(recent_closes.len() > 0);
    let last_close_price = recent_closes[recent_closes.len() - 1];
    let quantity = match get_buy_quantity(buy_amount, last_close_price) {
        Ok(quantity) => quantity,
        Err(_) => {
            return ;
        },
    };
    if quantity <= 0 {
        return ;
    }
    assert(last_close_price >= 0);
    portfolio.apply_buy(
        stock.symbol.clone(),
        last_close_price,
        quantity,
        current_date,
        buy_amount,
    );
}

/// Looks at an instrument with a position for selling. To look at one
/// without a position is an error, `NoOpenPosition`, and a sell that the
/// ledger refuses is handed on as its error; either way the portfolio
/// stays as it is.
pub fn analyze_selling(
    stock: &Stock,
    bound: &Option<Bound>,
    recent_closes: &Vec<i64>,
    current_date: Date,
    portfolio: &mut Portfolio,
    config: &Config,
) -> (r: Result<(), LedgerError>)
    ensures
        match selling_outcome(
            *stock,
            *bound,
            recent_closes@,
            current_date,
            old(portfolio)@,
            *config,
        ) {
            Ok(ledger) => r.is_ok() && final(portfolio)@ == ledger,
            Err(e) => r == Err::<(), LedgerError>(e) && final(portfolio)@ == old(portfolio)@,
        },
        old(portfolio)@.wf() && (recent_closes.len() > 0 ==> recent_closes@.last() >= 0)
            ==> final(portfolio)@.wf(),
{
    let held = match portfolio.find_position(&stock.symbol) {
        Some(i) => i,
        None => {
            return Err(LedgerError::NoOpenPosition);
        },
    };
    if recent_closes.len() == 0 {
        return Ok(());
    }
    let latest_close = recent_closes[recent_closes.len() - 1];
    if config.strategy.should_sell(
        bound,
        recent_closes,
        current_date,
        portfolio.investments[held].price,
        config.sell_loss_percent,
        config.sell_gain_percent,
    ) {
        return portfolio.apply_sell(&stock.symbol, latest_close, current_date);
    }
    Ok(())
}

/// Gives one instrument its turn on `current_date`.
pub fn check_stock(
    stock: &Stock,
    bound: &Option<Bound>,
    current_date: Date,
    portfolio: &mut Portfolio,
    config: &Config,
    buying: bool,
)
    ensures
        final(portfolio)@ == ledger_after_stock(
            *stock,
            *bound,
            current_date,
            old(portfolio)@,
            *config,
            buying,
        ),
        old(portfolio)@.wf() && closes_not_negative(*stock) ==> final(portfolio)@.wf(),
{
    if !has_been_listed_yet(stock, current_date) {
        return ;
    }
    let days = config.strategy.window(config.days_to_go_back);
    let recent_closes = match get_recent_closes(stock, current_date, days) {
        Some(closes) => closes,
        None => {
            return ;
        },
    };
    proof {
        if closes_not_negative(*stock) {
            lemma_window_not_negative(*stock, current_date, days);
        }
    }
    if portfolio.has_position(&stock.symbol) {
        let _ = analyze_selling(stock, bound, &recent_closes, current_date, portfolio, config);
    } else if buying {
        analyze_buying(stock, bound, &recent_closes, current_date, portfolio, config);
    }
}

/// The envelope of each instrument, as the strategy reads it.
pub open spec fn stock_bounds(stocks: Seq<Stock>, strategy: Strategy) -> Seq<Option<Bound>> {
    Seq::new(stocks.len(), |i: int| stock_bound(stocks[i].history@, strategy))
}

/// Computes the envelope of each instrument once, before the clock starts.
pub fn compute_bounds(stocks: &Vec<Stock>, strategy: &Strategy) -> (r: Vec<Option<Bound>>)
    ensures
        r@ == stock_bounds(stocks@, *strategy),
{
    let mut bounds: Vec<Option<Bound>> = Vec::new();
    let mut i: usize = 0;
    while i < stocks.len()
        invariant
            i <= stocks.len(),
            bounds.len() == i,
            forall|j: int|
                0 <= j < i ==> #[trigger] bounds@[j] == stock_bound(stocks@[j].history@, *strategy),
        decreases stocks.len() - i,
    {
        bounds.push(strategy.bound_for(&stocks[i].history));
        i += 1;
    }
    assert(bounds@ =~= stock_bounds(stocks@, *strategy));
    bounds
}

/// Gives every instrument its turn on `date`, in the order of the list.
/// `bounds` holds the envelope of each instrument, as `compute_bounds`
/// returns them.
pub fn simulate_day(
    stocks: &Vec<Stock>,
    bounds: &Vec<Option<Bound>>,
    date: Date,
    portfolio: &mut Portfolio,
    config: &Config,
    buying: bool,
)
    ensures
        final(portfolio)@ == ledger_after_day(
            stocks@,
            bounds@,
            stocks.len() as int,
            date,
            old(portfolio)@,
            *config,
            buying,
        ),
        old(portfolio)@.wf() && all_closes_not_negative(stocks@) ==> final(portfolio)@.wf(),
{
    let mut i: usize = 0;
    while i < stocks.len()
        invariant
            i <= stocks.len(),
            portfolio@ == ledger_after_day(
                stocks@,
                bounds@,
                i as int,
                date,
                old(portfolio)@,
                *config,
                buying,
            ),
            old(portfolio)@.wf() && all_closes_not_negative(stocks@) ==> portfolio@.wf(),
        decreases stocks.len() - i,
    {
        let bound = if i < bounds.len() {
            bounds[i]
        } else {
            None
        };
        check_stock(&stocks[i], &bound, date, portfolio, config, buying);
        i += 1;
    }
}

/// Steps the clock from `start` until it is past `last`, giving every
/// instrument its turn on every day, and tells the observer of each day
/// once it is done. Returns the day at which the clock stops.
pub fn simulate_days<F: Fn(Date)>(
    stocks: &Vec<Stock>,
    bounds: &Vec<Option<Bound>>,
    start: Date,
    last: Date,
    portfolio: &mut Portfolio,
    config: &Config,
    observer: &F,
) -> (clock: Date)
    requires
        forall|day: Date| call_requires(observer, (day,)),
    ensures
        final(portfolio)@ == ledger_after_days(
            stocks@,
            bounds@,
            start,
            last,
            old(portfolio)@,
            *config,
        ),
        clock == clock_after_days(start, last),
        old(portfolio)@.wf() && all_closes_not_negative(stocks@) ==> final(portfolio)@.wf(),
{
    let mut date = start;
    while !is_past_date(date, last) && date.days <= MAX_DAY + 1
        invariant
            forall|day: Date| call_requires(observer, (day,)),
            clock_after_days(date, last) == clock_after_days(start, last),
            ledger_after_days(stocks@, bounds@, date, last, portfolio@, *config)
                == ledger_after_days(stocks@, bounds@, start, last, old(portfolio)@, *config),
            old(portfolio)@.wf() && all_closes_not_negative(stocks@) ==> portfolio@.wf(),
        decreases last.days + 2 - date.days,
    {
        simulate_day(stocks, bounds, date, portfolio, config, true);
        observer(date);
        date = next_day(date);
    }
    date
}

/// The ledger after the clock has stepped from `date` until it is past
/// `last` or no position is left, every instrument that has a position
/// being looked at for selling on every day, and none for buying. The clock
/// stops at the end of its range at the latest.
pub open spec fn ledger_after_selling_days(
    stocks: Seq<Stock>,
    bounds: Seq<Option<Bound>>,
    date: Date,
    last: Date,
    ledger: Ledger,
    config: Config,
) -> Ledger
    decreases last.days + 2 - date.days,
{
    if past_date(date, last) || date.days >= MAX_DAY + 2 || ledger.investments.len() == 0 {
        ledger
    } else {
        ledger_after_selling_days(
            stocks,
            bounds,
            day_after(date),
            last,
            ledger_after_day(stocks, bounds, stocks.len() as int, date, ledger, config, false),
            config,
        )
    }
}

/// Steps the clock from `start` until it is past `last` or no position
/// is left, selling and never buying, and tells the observer of each day
/// once it is done.
pub fn keep_selling<F: Fn(Date)>(
    stocks: &Vec<Stock>,
    bounds: &Vec<Option<Bound>>,
    start: Date,
    last: Date,
    portfolio: &mut Portfolio,
    config: &Config,
    observer: &F,
)
    requires
        forall|day: Date| call_requires(observer, (day,)),
    ensures
        final(portfolio)@ == ledger_after_selling_days(
            stocks@,
            bounds@,
            start,
            last,
            old(portfolio)@,
            *config,
        ),
        old(portfolio)@.wf() && all_closes_not_negative(stocks@) ==> final(portfolio)@.wf(),
{
    let mut date = start;
    while !is_past_date(date, last) && date.days <= MAX_DAY + 1 && portfolio.investments.len() > 0
        invariant
            forall|day: Date| call_requires(observer, (day,)),
            ledger_after_selling_days(stocks@, bounds@, date, last, portfolio@, *config)
                == ledger_after_selling_days(
                stocks@,
                bounds@,
                start,
                last,
                old(portfolio)@,
                *config,
            ),
            old(portfolio)@.wf() && all_closes_not_negative(stocks@) ==> portfolio@.wf(),
        decreases last.days + 2 - date.days,
    {
        simulate_day(stocks, bounds, date, portfolio, config, false);
        observer(date);
        date = next_day(date);
    }
}

/// The ledger that a simulation starts from.
pub open spec fn opening_ledger(config: Config) -> Ledger {
    Ledger { balance: config.balance, investments: Seq::empty(), trades: Seq::empty() }
}

/// The ledger that a simulation ends with: the clock steps through the
/// date range, and what is then still open is dealt with as the end policy
/// says, `today` being the final date.
pub open spec fn simulated(stocks: Seq<Stock>, config: Config, today: Date) -> Ledger {
    let bounds = stock_bounds(stocks, config.strategy);
    let traded = ledger_after_days(
        stocks,
        bounds,
        config.start_date,
        config.end_date,
        opening_ledger(config),
        config,
    );
    let clock = clock_after_days(config.start_date, config.end_date);
    match config.end_policy {
        EndPolicy::Unwind => unwound(stocks, traded, 0, clock, today).0,
        EndPolicy::KeepSelling => settled(
            stocks,
            ledger_after_selling_days(stocks, bounds, clock, today, traded, config),
            0,
        ),
    }
}

/// The dates of a run lie within the range of the clock.
pub open spec fn dates_in_range(config: Config, today: Date) -> bool {
    config.start_date.in_range() && config.end_date.in_range() && today.in_range()
}

/// The window is one that the strategy can read: for trend following at
/// least `TREND_DAYS + RECENT_DAYS` closes.
pub open spec fn window_in_range(config: Config) -> bool {
    match config.strategy {
        Strategy::TrendFollowing => TREND_DAYS + RECENT_DAYS <= config.days_to_go_back,
        Strategy::MeanReversion { step_size, bound_width, min_margin } => true,
    }
}

/// Whether the window is one that the strategy can read.
pub fn check_window(config: &Config) -> (r: bool)
    ensures
        r == window_in_range(*config),
{
    match config.strategy {
        Strategy::TrendFollowing => (TREND_DAYS + RECENT_DAYS) as i64 <= config.days_to_go_back,
        Strategy::MeanReversion { step_size, bound_width, min_margin } => true,
    }
}

/// Runs the simulation with `today` as the final date. The observer is
/// called once for each simulated day, after the day is done. A run whose
/// dates lie outside the clock's range, or whose window the strategy cannot
/// read, is refused.
pub fn run_simulation<F: Fn(Date)>(
    stocks: &Vec<Stock>,
    config: &Config,
    today: Date,
    observer: &F,
) -> (r: Result<Portfolio, SimulationError>)
    requires
        forall|day: Date| call_requires(observer, (day,)),
    ensures
        !dates_in_range(*config, today) ==> r == Err::<Portfolio, SimulationError>(
            SimulationError::DateOutOfRange,
        ),
        dates_in_range(*config, today) && !window_in_range(*config) ==> r == Err::<
            Portfolio,
            SimulationError,
        >(SimulationError::WindowOutOfRange),
        dates_in_range(*config, today) && window_in_range(*config) ==> r.is_ok()
            && r.unwrap()@ == simulated(stocks@, *config, today),
        r.is_ok() && config.balance >= 0 && all_closes_not_negative(stocks@) ==> r.unwrap()@.wf(),
{
    if !config.start_date.is_in_range() || !config.end_date.is_in_range() || !today.is_in_range() {
        return Err(SimulationError::DateOutOfRange);
    }
    if !check_window(config) {
        return Err(SimulationError::WindowOutOfRange);
    }
    let bounds = compute_bounds(stocks, &config.strategy);
    let mut portfolio = Portfolio::new(config.balance);
    let clock = simulate_days(
        stocks,
        &bounds,
        config.start_date,
        config.end_date,
        &mut portfolio,
        config,
        observer,
    );
    match config.end_policy {
        EndPolicy::Unwind => {
            cleanup_portfolio(stocks, &mut portfolio, clock, today);
        },
        EndPolicy::KeepSelling => {
            keep_selling(stocks, &bounds, clock, today, &mut portfolio, config, observer);
            settle_portfolio(stocks, &mut portfolio);
        },
    }
    Ok(portfolio)
}

/// Runs the simulation with the present day as the final date. A run
/// whose start or end date lies outside the clock's range, or whose window
/// the strategy cannot read, is refused; every other run is made. The
/// present day is read from the machine's clock, as `get_today` does;
/// `run_simulation` takes the final date as an argument and reads no clock.
pub fn perform_simulation(stocks: Vec<Stock>, config: &Config) -> (r: Result<
    Portfolio,
    SimulationError,
>)
    ensures
        !(config.start_date.in_range() && config.end_date.in_range()) ==> r == Err::<
            Portfolio,
            SimulationError,
        >(SimulationError::DateOutOfRange),
        config.start_date.in_range() && config.end_date.in_range() && !window_in_range(*config)
            ==> r == Err::<Portfolio, SimulationError>(SimulationError::WindowOutOfRange),
        config.start_date.in_range() && config.end_date.in_range() && window_in_range(*config)
            ==> r.is_ok(),
        r.is_ok() ==> window_in_range(*config) && exists|today: Date|
            today.in_range() && r.unwrap()@ == #[trigger] simulated(stocks@, *config, today),
        r.is_ok() && config.balance >= 0 && all_closes_not_negative(stocks@) ==> r.unwrap()@.wf(),
{
    let today = get_today();
    let observer = |day: Date| {};
    run_simulation(&stocks, config, today, &observer)
}

/// Two runs on the same instruments, with the same configuration and the
/// same final date, end with the same balance, the same positions and the
/// same trades.
pub proof fn lemma_simulation_is_deterministic(
    stocks: Seq<Stock>,
    config: Config,
    today: Date,
    first: Ledger,
    second: Ledger,
)
    requires
        first == simulated(stocks, config, today),
        second == simulated(stocks, config, today),
    ensures
        first.balance == second.balance,
        first.investments == second.investments,
        first.trades == second.trades,
{
}

} // verus!
