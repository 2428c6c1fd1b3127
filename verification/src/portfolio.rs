//! The ledger: cash, open positions and the record of trades.
//!
//! Two operations trade: `apply_buy` and `apply_sell`. Two more serve the
//! end of a run: `liquidate` closes a position at its full value, and
//! `force_value` credits what a position is worth without closing it.
//! Positions are kept in the order in which they were opened and trades in
//! the order in which they were bought.

use vstd::prelude::*;
use crate::dates::Date;
use crate::fixed::{SCALE, trunc_div, div_trunc, fits_i64, lemma_product_bound};
use crate::portfolio_lemmas::{lemma_buy_keeps_wf, lemma_close_keeps_wf, lemma_valuation_keeps_wf};

verus! {

/// An open position in one instrument.
#[derive(Clone, PartialEq, Eq, Debug)]
pub struct Investment {
    pub symbol: String,
    /// The price at which the position was entered.
    pub price: i64,
    pub quantity: i64,
}

/// A buy and, once the position is closed, its sell. While the position
/// is open `sell_date` is `None` and `sell_price` is zero.
#[derive(Clone, PartialEq, Eq, Debug)]
pub struct Trade {
    pub symbol: String,
    pub buy_price: i64,
    pub buy_date: Date,
    pub sell_price: i64,
    pub sell_date: Option<Date>,
    pub quantity: i64,
}

/// Cash, open positions and trades.
#[derive(Clone, PartialEq, Eq, Debug)]
pub struct Portfolio {
    pub balance: i64,
    pub investments: Vec<Investment>,
    pub trades: Vec<Trade>,
}

/// The state of a portfolio as a mathematical value.
pub struct Ledger {
    pub balance: i64,
    pub investments: Seq<Investment>,
    pub trades: Seq<Trade>,
}

/// Why a sell or a valuation was refused.
#[derive(Clone, Copy, PartialEq, Eq, Structural, Debug)]
pub enum LedgerError {
    /// No position is open for the symbol.
    NoOpenPosition,
    /// The balance with the credit would not fit the fixed-point range.
    Overflow,
}

/// The share of a sale that is credited: the rest is the cost of trading.
pub const SELL_FACTOR: i64 = 995_000;

impl View for Portfolio {
    type V = Ledger;

    open spec fn view(&self) -> Ledger {
        Ledger { balance: self.balance, investments: self.investments@, trades: self.trades@ }
    }
}

impl Trade {
    /// The trade has not been sold yet.
    pub open spec fn is_open(self) -> bool {
        self.sell_date.is_none()
    }
}

/// The index of the first position held in `symbol`; `-1` where there is none.
pub open spec fn position_of(investments: Seq<Investment>, symbol: Seq<char>) -> int
    decreases investments.len(),
{
    if investments.len() == 0 {
        -1
    } else {
        let before = position_of(investments.drop_last(), symbol);
        if before >= 0 {
            before
        } else if investments.last().symbol@ == symbol {
            investments.len() - 1
        } else {
            -1
        }
    }
}

/// The index of the last trade made in `symbol`; `-1` where there is none.
pub open spec fn last_trade_of(trades: Seq<Trade>, symbol: Seq<char>) -> int
    decreases trades.len(),
{
    if trades.len() == 0 {
        -1
    } else if trades.last().symbol@ == symbol {
        trades.len() - 1
    } else {
        last_trade_of(trades.drop_last(), symbol)
    }
}

/// The number of trades that have not been sold yet.
pub open spec fn open_trades(trades: Seq<Trade>) -> nat
    decreases trades.len(),
{
    if trades.len() == 0 {
        0
    } else {
        open_trades(trades.drop_last()) + if trades.last().is_open() {
            1nat
        } else {
            0nat
        }
    }
}

/// `position_of` finds the first position in the symbol, or none at all.
pub proof fn lemma_position_of(investments: Seq<Investment>, symbol: Seq<char>)
    ensures
        -1 <= position_of(investments, symbol) < investments.len(),
        position_of(investments, symbol) >= 0 ==> investments[position_of(
            investments,
            symbol,
        )].symbol@ == symbol,
        forall|j: int|
            0 <= j < investments.len() && (j < position_of(investments, symbol) || position_of(
                investments,
                symbol,
            ) < 0) ==> (#[trigger] investments[j]).symbol@ != symbol,
    decreases investments.len(),
{
    if investments.len() > 0 {
        lemma_position_of(investments.drop_last(), symbol);
        assert forall|j: int|
            0 <= j < investments.len() && (j < position_of(investments, symbol) || position_of(
                investments,
                symbol,
            ) < 0) implies (#[trigger] investments[j]).symbol@ != symbol by {
            if j < investments.len() - 1 {
                assert(investments.drop_last()[j] == investments[j]);
            }
        }
    }
}

/// `last_trade_of` finds the last trade in the symbol, or none at all.
pub proof fn lemma_last_trade_of(trades: Seq<Trade>, symbol: Seq<char>)
    ensures
        -1 <= last_trade_of(trades, symbol) < trades.len(),
        last_trade_of(trades, symbol) >= 0 ==> trades[last_trade_of(trades, symbol)].symbol@
            == symbol,
        forall|j: int|
            last_trade_of(trades, symbol) < j < trades.len() ==> (#[trigger] trades[j]).symbol@
                != symbol,
    decreases trades.len(),
{
    if trades.len() > 0 && trades.last().symbol@ != symbol {
        lemma_last_trade_of(trades.drop_last(), symbol);
        assert forall|j: int| last_trade_of(trades, symbol) < j < trades.len() implies (
        #[trigger] trades[j]).symbol@ != symbol by {
            if j < trades.len() - 1 {
                assert(trades.drop_last()[j] == trades[j]);
            }
        }
    }
}

/// What `quantity` units are worth at `price`.
pub open spec fn position_value(price: i64, quantity: i64) -> int {
    trunc_div(price * quantity, SCALE as int)
}

/// The amount credited when `quantity` units are sold at `price`: their
/// value less the cost of trading.
pub open spec fn sale_proceeds(price: i64, quantity: i64) -> int {
    trunc_div(position_value(price, quantity) * SELL_FACTOR, SCALE as int)
}

/// The trade as it stands once it is sold at `price` on `date`.
pub open spec fn closed_trade(trade: Trade, price: i64, date: Date) -> Trade {
    Trade {
        symbol: trade.symbol,
        buy_price: trade.buy_price,
        buy_date: trade.buy_date,
        sell_price: price,
        sell_date: Some(date),
        quantity: trade.quantity,
    }
}

/// The trades with the last trade in `symbol`, where there is one, sold at
/// `price` on `date`.
pub open spec fn close_last_trade(
    trades: Seq<Trade>,
    symbol: Seq<char>,
    price: i64,
    date: Date,
) -> Seq<Trade> {
    let index = last_trade_of(trades, symbol);
    if index >= 0 {
        trades.update(index, closed_trade(trades[index], price, date))
    } else {
        trades
    }
}

/// The positions with `investment` put in place of the position in its
/// symbol, or added at the end where there is none.
pub open spec fn put_position(investments: Seq<Investment>, investment: Investment) -> Seq<
    Investment,
> {
    let index = position_of(investments, investment.symbol@);
    if index >= 0 {
        investments.update(index, investment)
    } else {
        investments.push(investment)
    }
}

/// A buy is applied where its cost is positive and covered by the balance.
pub open spec fn buy_applies(ledger: Ledger, cost: i64) -> bool {
    0 < cost <= ledger.balance
}

/// The ledger after a buy: unchanged where the buy does not apply, else
/// with the cost taken from the balance, the position entered and the trade
/// recorded.
pub open spec fn ledger_after_buy(
    ledger: Ledger,
    symbol: String,
    price: i64,
    quantity: i64,
    date: Date,
    cost: i64,
) -> Ledger {
    if buy_applies(ledger, cost) {
        Ledger {
            balance: (ledger.balance - cost) as i64,
            investments: put_position(ledger.investments, Investment { symbol, price, quantity }),
            trades: ledger.trades.push(
                Trade {
                    symbol,
                    buy_price: price,
                    buy_date: date,
                    sell_price: 0,
                    sell_date: None,
                    quantity,
                },
            ),
        }
    } else {
        ledger
    }
}

/// What is credited when a position of `quantity` units is closed at
/// `price`: the proceeds of a sale, less the cost of trading, or the full
/// value where the position is liquidated.
pub open spec fn close_credit(price: i64, quantity: i64, at_cost: bool) -> int {
    if at_cost {
        sale_proceeds(price, quantity)
    } else {
        position_value(price, quantity)
    }
}

/// The ledger after the position in `symbol` is closed at `price` on
/// `date`: the credit is added to the balance, the position is removed and
/// the last trade in the symbol gets price and date as its sell side. Or
/// the reason why that is refused.
pub open spec fn ledger_after_close(
    ledger: Ledger,
    symbol: Seq<char>,
    price: i64,
    date: Date,
    at_cost: bool,
) -> Result<Ledger, LedgerError> {
    let index = position_of(ledger.investments, symbol);
    if index < 0 {
        Err(LedgerError::NoOpenPosition)
    } else {
        let balance = ledger.balance + close_credit(
            price,
            ledger.investments[index].quantity,
            at_cost,
        );
        if !fits_i64(balance) {
            Err(LedgerError::Overflow)
        } else {
            Ok(
                Ledger {
                    balance: balance as i64,
                    investments: ledger.investments.remove(index),
                    trades: close_last_trade(ledger.trades, symbol, price, date),
                },
            )
        }
    }
}

/// The ledger after a sell, which credits the proceeds less the cost of
/// trading, or the reason why the sell is refused.
pub open spec fn ledger_after_sell(
    ledger: Ledger,
    symbol: Seq<char>,
    price: i64,
    date: Date,
) -> Result<Ledger, LedgerError> {
    ledger_after_close(ledger, symbol, price, date, true)
}

/// The ledger after a liquidation, which credits the full value of the
/// position, or the reason why the liquidation is refused.
pub open spec fn ledger_after_liquidation(
    ledger: Ledger,
    symbol: Seq<char>,
    price: i64,
    date: Date,
) -> Result<Ledger, LedgerError> {
    ledger_after_close(ledger, symbol, price, date, false)
}

/// The ledger after the position in `symbol` is valued at `price` and its
/// value credited without a sale: positions and trades stay as they are.
/// Or the reason why that is refused.
pub open spec fn ledger_after_valuation(
    ledger: Ledger,
    symbol: Seq<char>,
    price: i64,
) -> Result<Ledger, LedgerError> {
    let index = position_of(ledger.investments, symbol);
    if index < 0 {
        Err(LedgerError::NoOpenPosition)
    } else {
        let balance = ledger.balance + position_value(price, ledger.investments[index].quantity);
        if !fits_i64(balance) {
            Err(LedgerError::Overflow)
        } else {
            Ok(
                Ledger {
                    balance: balance as i64,
                    investments: ledger.investments,
                    trades: ledger.trades,
                },
            )
        }
    }
}

impl Ledger {
    /// No two positions are held in one symbol.
    pub open spec fn symbols_distinct(self) -> bool {
        forall|i: int, j: int|
            0 <= i < j < self.investments.len() ==> (#[trigger] self.investments[i]).symbol@ != (
            #[trigger] self.investments[j]).symbol@
    }

    /// The last trade in the symbol of each position is still open.
    pub open spec fn positions_have_open_trades(self) -> bool {
        forall|i: int|
            0 <= i < self.investments.len() ==> {
                let index = last_trade_of(self.trades, (#[trigger] self.investments[i]).symbol@);
                index >= 0 && self.trades[index].is_open()
            }
    }

    /// Prices and quantities of the positions are not negative.
    pub open spec fn positions_not_negative(self) -> bool {
        forall|i: int|
            0 <= i < self.investments.len() ==> (#[trigger] self.investments[i]).price >= 0
                && self.investments[i].quantity >= 0
    }

    /// The ledger is consistent: the balance is not negative, every symbol
    /// has at most one position, every position has its open trade, and
    /// there are as many open trades as positions.
    pub open spec fn wf(self) -> bool {
        &&& self.balance >= 0
        &&& self.symbols_distinct()
        &&& self.positions_not_negative()
        &&& self.positions_have_open_trades()
        &&& open_trades(self.trades) == self.investments.len()
    }
}

impl Portfolio {
    /// A portfolio that holds `balance` in cash and nothing else.
    pub fn new(balance: i64) -> (r: Portfolio)
        ensures
            r@ == (Ledger { balance, investments: Seq::empty(), trades: Seq::empty() }),
            balance >= 0 ==> r@.wf(),
    {
        Portfolio { balance, investments: Vec::new(), trades: Vec::new() }
    }

    /// The index of the position held in `symbol`.
    pub fn find_position(&self, symbol: &String) -> (r: Option<usize>)
        ensures
            match r {
                Some(i) => i == position_of(self.investments@, symbol@) && i
                    < self.investments.len(),
                None => position_of(self.investments@, symbol@) == -1,
            },
    {
        let n = self.investments.len();
        let mut i: usize = 0;
        while i < n
            invariant
                n == self.investments.len(),
                i <= n,
                forall|j: int| 0 <= j < i ==> (#[trigger] self.investments@[j]).symbol@ != symbol@,
            decreases n - i,
        {
            if self.investments[i].symbol == *symbol {
                proof {
                    lemma_position_of(self.investments@, symbol@);
                }
                return Some(i);
            }
            i += 1;
        }
        proof {
            lemma_position_of(self.investments@, symbol@);
        }
        None
    }

    /// Whether a position is held in `symbol`.
    pub fn has_position(&self, symbol: &String) -> (r: bool)
        ensures
            r == (position_of(self.investments@, symbol@) >= 0),
    {
        self.find_position(symbol).is_some()
    }

    /// The index of the last trade made in `symbol`.
    pub fn get_last_trade(&self, symbol: &String) -> (r: Option<usize>)
        ensures
            match r {
                Some(i) => i == last_trade_of(self.trades@, symbol@) && i < self.trades.len(),
                None => last_trade_of(self.trades@, symbol@) == -1,
            },
    {
        let mut i: usize = self.trades.len();
        while i > 0
            invariant
                i <= self.trades.len(),
                forall|j: int|
                    i <= j < self.trades.len() ==> (#[trigger] self.trades@[j]).symbol@ != symbol@,
            decreases i,
        {
            i -= 1;
            if self.trades[i].symbol == *symbol {
                proof {
                    lemma_last_trade_of(self.trades@, symbol@);
                }
                return Some(i);
            }
        }
        proof {
            lemma_last_trade_of(self.trades@, symbol@);
        }
        None
    }

    /// Buys `quantity` units of `symbol` at `price` for `cost`. A buy whose
    /// cost is not positive or exceeds the balance is not applied, and the
    /// portfolio stays as it is. Returns whether the buy was applied.
    pub fn apply_buy(
        &mut self,
        symbol: String,
        price: i64,
        quantity: i64,
        date: Date,
        cost: i64,
    ) -> (applied: bool)
        ensures
            applied == buy_applies(old(self)@, cost),
            final(self)@ == ledger_after_buy(old(self)@, symbol, price, quantity, date, cost),
            old(self)@.wf() && position_of(old(self)@.investments, symbol@) < 0 && price >= 0
                && quantity >= 0 ==> final(self)@.wf(),
    {
        proof {
            if self@.wf() && position_of(self@.investments, symbol@) < 0 && price >= 0 && quantity
                >= 0 {
                lemma_buy_keeps_wf(self@, symbol, price, quantity, date, cost);
            }
        }
        if cost <= 0 || cost > self.balance {
            return false;
        }
        let trade = Trade {
            symbol: symbol.clone(),
            buy_price: price,
            buy_date: date,
            sell_price: 0,
            sell_date: None,
            quantity,
        };
        let existing = self.find_position(&symbol);
        let investment = Investment { symbol, price, quantity };
        self.balance = self.balance - cost;
        self.trades.push(trade);
        match existing {
            Some(i) => {
                self.investments.set(i, investment);
            },
            None => {
                self.investments.push(investment);
            },
        }
        true
    }

    /// Closes the position held in `symbol` at `price`: credits the
    /// proceeds less the cost of trading, or the full value, removes the
    /// position and completes the last trade in the symbol.
    fn close_position(&mut self, symbol: &String, price: i64, date: Date, at_cost: bool) -> (r:
        Result<(), LedgerError>)
        ensures
            match ledger_after_close(old(self)@, symbol@, price, date, at_cost) {
                Ok(ledger) => r.is_ok() && final(self)@ == ledger,
                Err(e) => r == Err::<(), LedgerError>(e) && final(self)@ == old(self)@,
            },
            old(self)@.wf() && price >= 0 ==> final(self)@.wf(),
    {
        proof {
            if self@.wf() && price >= 0 && ledger_after_close(
                self@,
                symbol@,
                price,
                date,
                at_cost,
            ).is_ok() {
                lemma_close_keeps_wf(self@, symbol@, price, date, at_cost);
            }
        }
        let index = match self.find_position(symbol) {
            Some(i) => i,
            None => {
                return Err(LedgerError::NoOpenPosition);
            },
        };
        let quantity = self.investments[index].quantity;
        proof {
            lemma_product_bound(
                price as int,
                quantity as int,
                0x8000_0000_0000_0000,
                0x8000_0000_0000_0000,
            );
        }
        let product: i128 = (price as i128) * (quantity as i128);
        let gross: i128 = div_trunc(product, 1_000_000);
        let credit: i128 = if at_cost {
            div_trunc(gross * 995_000, 1_000_000)
        } else {
            gross
        };
        let balance: i128 = self.balance as i128 + credit;
        if balance < -0x8000_0000_0000_0000 || balance > 0x7fff_ffff_ffff_ffff {
            return Err(LedgerError::Overflow);
        }
        let last = self.get_last_trade(symbol);
        self.balance = balance as i64;
        self.investments.remove(index);
        match last {
            Some(i) => {
                let updated = Trade {
                    symbol: self.trades[i].symbol.clone(),
                    buy_price: self.trades[i].buy_price,
                    buy_date: self.trades[i].buy_date,
                    sell_price: price,
                    sell_date: Some(date),
                    quantity: self.trades[i].quantity,
                };
                self.trades.set(i, updated);
            },
            None => {},
        }
        Ok(())
    }

    /// Sells the position held in `symbol` at `price`: credits the proceeds
    /// less the cost of trading, removes the position and completes the
    /// last trade in the symbol. Where no position is open, or the balance
    /// would overflow, nothing changes and the reason is returned.
    pub fn apply_sell(&mut self, symbol: &String, price: i64, date: Date) -> (r: Result<
        (),
        LedgerError,
    >)
        ensures
            match ledger_after_sell(old(self)@, symbol@, price, date) {
                Ok(ledger) => r.is_ok() && final(self)@ == ledger,
                Err(e) => r == Err::<(), LedgerError>(e) && final(self)@ == old(self)@,
            },
            old(self)@.wf() && price >= 0 ==> final(self)@.wf(),
    {
        self.close_position(symbol, price, date, true)
    }

    /// Liquidates the position held in `symbol` at `price`, as is done
    /// with what is still open at the end of a run: credits the full value
    /// of the position, removes it and completes the last trade in the
    /// symbol. Where no position is open, or the balance would overflow,
    /// nothing changes and the reason is returned.
    pub fn liquidate(&mut self, symbol: &String, price: i64, date: Date) -> (r: Result<
        (),
        LedgerError,
    >)
        ensures
            match ledger_after_liquidation(old(self)@, symbol@, price, date) {
                Ok(ledger) => r.is_ok() && final(self)@ == ledger,
                Err(e) => r == Err::<(), LedgerError>(e) && final(self)@ == old(self)@,
            },
            old(self)@.wf() && price >= 0 ==> final(self)@.wf(),
    {
        self.close_position(symbol, price, date, false)
    }

    /// Values the position held in `symbol` at `price` and credits its
    /// value without selling it: the position stays open and its trade
    /// keeps its sell side unset. Where no position is open, or the balance
    /// would overflow, nothing changes and the reason is returned.
    pub fn force_value(&mut self, symbol: &String, price: i64) -> (r: Result<(), LedgerError>)
        ensures
            match ledger_after_valuation(old(self)@, symbol@, price) {
                Ok(ledger) => r.is_ok() && final(self)@ == ledger,
                Err(e) => r == Err::<(), LedgerError>(e) && final(self)@ == old(self)@,
            },
            old(self)@.wf() && price >= 0 ==> final(self)@.wf(),
    {
        proof {
            if self@.wf() && price >= 0 && ledger_after_valuation(self@, symbol@, price).is_ok() {
                lemma_valuation_keeps_wf(self@, symbol@, price);
            }
        }
        let index = match self.find_position(symbol) {
            Some(i) => i,
            None => {
                return Err(LedgerError::NoOpenPosition);
            },
        };
        let quantity = self.investments[index].quantity;
        proof {
            lemma_product_bound(
                price as int,
                quantity as int,
                0x8000_0000_0000_0000,
                0x8000_0000_0000_0000,
            );
        }
        let value: i128 = div_trunc((price as i128) * (quantity as i128), 1_000_000);
        let balance: i128 = self.balance as i128 + value;
        if balance < -0x8000_0000_0000_0000 || balance > 0x7fff_ffff_ffff_ffff {
            return Err(LedgerError::Overflow);
        }
        self.balance = balance as i64;
        Ok(())
    }
}

} // verus!
