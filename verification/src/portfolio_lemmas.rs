//! What holds of the ledger after every buy and sell.

use vstd::prelude::*;
use crate::dates::Date;
use crate::fixed::{SCALE, trunc_div, lemma_trunc_div_bound};
use crate::portfolio::{
    Investment, Trade, Ledger, SELL_FACTOR, position_of, last_trade_of, open_trades,
    lemma_position_of, lemma_last_trade_of, sale_proceeds, closed_trade, buy_applies,
    ledger_after_buy, ledger_after_sell, ledger_after_valuation, ledger_after_close,
    ledger_after_liquidation, close_credit, position_value, close_last_trade,
};

verus! {

/// Trades that agree in their symbols, index by index, have the last trade
/// of every symbol at the same index.
pub proof fn lemma_last_trade_by_symbols(a: Seq<Trade>, b: Seq<Trade>, symbol: Seq<char>)
    requires
        a.len() == b.len(),
        forall|i: int| 0 <= i < a.len() ==> (#[trigger] a[i]).symbol@ == b[i].symbol@,
    ensures
        last_trade_of(a, symbol) == last_trade_of(b, symbol),
    decreases a.len(),
{
    if a.len() > 0 {
        assert(a.last().symbol@ == b.last().symbol@);
        let a_rest = a.drop_last();
        let b_rest = b.drop_last();
        assert forall|i: int| 0 <= i < a_rest.len() implies (#[trigger] a_rest[i]).symbol@
            == b_rest[i].symbol@ by {
            assert(a[i].symbol@ == b[i].symbol@);
        }
        lemma_last_trade_by_symbols(a_rest, b_rest, symbol);
    }
}

/// Replacing one trade changes the number of open trades by what the old
/// and the new trade count.
pub proof fn lemma_open_trades_update(trades: Seq<Trade>, index: int, trade: Trade)
    requires
        0 <= index < trades.len(),
    ensures
        open_trades(trades.update(index, trade)) + (if trades[index].is_open() {
            1int
        } else {
            0int
        }) == open_trades(trades) + (if trade.is_open() {
            1int
        } else {
            0int
        }),
    decreases trades.len(),
{
    let updated = trades.update(index, trade);
    if index == trades.len() - 1 {
        assert(updated.drop_last() =~= trades.drop_last());
    } else {
        assert(updated.drop_last() =~= trades.drop_last().update(index, trade));
        assert(updated.last() == trades.last());
        lemma_open_trades_update(trades.drop_last(), index, trade);
    }
}

/// The proceeds of a sale are not negative where price and quantity are not.
pub proof fn lemma_sale_proceeds_not_negative(price: i64, quantity: i64)
    requires
        price >= 0,
        quantity >= 0,
    ensures
        position_value(price, quantity) >= 0,
        sale_proceeds(price, quantity) >= 0,
{
    assert(price * quantity >= 0) by (nonlinear_arith)
        requires
            price >= 0,
            quantity >= 0,
    ;
    lemma_trunc_div_bound(price * quantity, SCALE as int);
    let gross = trunc_div(price * quantity, SCALE as int);
    assert(gross * SELL_FACTOR >= 0) by (nonlinear_arith)
        requires
            gross >= 0,
            SELL_FACTOR == 995_000,
    ;
    lemma_trunc_div_bound(gross * SELL_FACTOR, SCALE as int);
}

/// A buy keeps a consistent ledger consistent, where it opens a position in
/// a symbol that has none and neither price nor quantity is negative: the
/// balance stays at or above zero, and the open trades stay as many as the
/// positions.
pub proof fn lemma_buy_keeps_wf(
    ledger: Ledger,
    symbol: String,
    price: i64,
    quantity: i64,
    date: Date,
    cost: i64,
)
    requires
        ledger.wf(),
        position_of(ledger.investments, symbol@) < 0,
        price >= 0,
        quantity >= 0,
    ensures
        ledger_after_buy(ledger, symbol, price, quantity, date, cost).wf(),
{
    if buy_applies(ledger, cost) {
        let after = ledger_after_buy(ledger, symbol, price, quantity, date, cost);
        let count = ledger.investments.len() as int;
        lemma_position_of(ledger.investments, symbol@);
        assert(after.trades.drop_last() =~= ledger.trades);
        assert(after.investments =~= ledger.investments.push(
            Investment { symbol, price, quantity },
        ));
        assert(after.symbols_distinct()) by {
            assert forall|i: int, j: int| 0 <= i < j < after.investments.len() implies (
            #[trigger] after.investments[i]).symbol@ != (
            #[trigger] after.investments[j]).symbol@ by {
                if j < count {
                    assert(ledger.investments[i].symbol@ != ledger.investments[j].symbol@);
                } else {
                    assert(ledger.investments[i].symbol@ != symbol@);
                }
            }
        }
        assert(after.positions_not_negative()) by {
            assert forall|i: int| 0 <= i < after.investments.len() implies (
            #[trigger] after.investments[i]).price >= 0 && after.investments[i].quantity >= 0 by {
                if i < count {
                    assert(ledger.investments[i].price >= 0);
                }
            }
        }
        assert(after.positions_have_open_trades()) by {
            assert forall|i: int| 0 <= i < after.investments.len() implies {
                let index = last_trade_of(after.trades, (#[trigger] after.investments[i]).symbol@);
                index >= 0 && after.trades[index].is_open()
            } by {
                if i < count {
                    assert(ledger.investments[i].symbol@ != symbol@);
                    let index = last_trade_of(ledger.trades, ledger.investments[i].symbol@);
                    assert(index >= 0 && ledger.trades[index].is_open());
                    lemma_last_trade_of(ledger.trades, ledger.investments[i].symbol@);
                    assert(after.trades[index] == ledger.trades[index]);
                }
            }
        }
    }
}

/// Closing a position at a price that is not negative, by a sell or by a
/// liquidation, keeps a consistent ledger consistent: the balance stays at
/// or above zero, and the open trades stay as many as the positions.
pub proof fn lemma_close_keeps_wf(
    ledger: Ledger,
    symbol: Seq<char>,
    price: i64,
    date: Date,
    at_cost: bool,
)
    requires
        ledger.wf(),
        price >= 0,
        ledger_after_close(ledger, symbol, price, date, at_cost).is_ok(),
    ensures
        ledger_after_close(ledger, symbol, price, date, at_cost).unwrap().wf(),
{
    let after = ledger_after_close(ledger, symbol, price, date, at_cost).unwrap();
    let held = position_of(ledger.investments, symbol);
    lemma_position_of(ledger.investments, symbol);
    assert(ledger.investments[held].price >= 0);
    lemma_sale_proceeds_not_negative(price, ledger.investments[held].quantity);
    assert(close_credit(price, ledger.investments[held].quantity, at_cost) >= 0);
    let sold = last_trade_of(ledger.trades, ledger.investments[held].symbol@);
    assert(sold >= 0 && ledger.trades[sold].is_open());
    lemma_last_trade_of(ledger.trades, symbol);
    let closed = closed_trade(ledger.trades[sold], price, date);
    assert(after.trades == ledger.trades.update(sold, closed));
    lemma_open_trades_update(ledger.trades, sold, closed);
    assert(after.symbols_distinct()) by {
        assert forall|i: int, j: int| 0 <= i < j < after.investments.len() implies (
        #[trigger] after.investments[i]).symbol@ != (#[trigger] after.investments[j]).symbol@ by {
            let i0 = if i < held {
                i
            } else {
                i + 1
            };
            let j0 = if j < held {
                j
            } else {
                j + 1
            };
            assert(ledger.investments[i0].symbol@ != ledger.investments[j0].symbol@);
        }
    }
    assert(after.positions_not_negative()) by {
        assert forall|i: int| 0 <= i < after.investments.len() implies (
        #[trigger] after.investments[i]).price >= 0 && after.investments[i].quantity >= 0 by {
            let i0 = if i < held {
                i
            } else {
                i + 1
            };
            assert(ledger.investments[i0].price >= 0);
        }
    }
    assert(after.positions_have_open_trades()) by {
        assert forall|i: int| 0 <= i < after.investments.len() implies {
            let index = last_trade_of(after.trades, (#[trigger] after.investments[i]).symbol@);
            index >= 0 && after.trades[index].is_open()
        } by {
            let i0 = if i < held {
                i
            } else {
                i + 1
            };
            let other = ledger.investments[i0].symbol@;
            if i0 < held {
                assert(ledger.investments[i0].symbol@ != ledger.investments[held].symbol@);
            } else {
                assert(ledger.investments[held].symbol@ != ledger.investments[i0].symbol@);
            }
            let index = last_trade_of(ledger.trades, other);
            assert(index >= 0 && ledger.trades[index].is_open());
            lemma_last_trade_of(ledger.trades, other);
            lemma_last_trade_by_symbols(after.trades, ledger.trades, other);
            assert(index != sold);
        }
    }
}

/// A sell at a price that is not negative keeps a consistent ledger
/// consistent.
pub proof fn lemma_sell_keeps_wf(ledger: Ledger, symbol: Seq<char>, price: i64, date: Date)
    requires
        ledger.wf(),
        price >= 0,
        ledger_after_sell(ledger, symbol, price, date).is_ok(),
    ensures
        ledger_after_sell(ledger, symbol, price, date).unwrap().wf(),
{
    lemma_close_keeps_wf(ledger, symbol, price, date, true);
}

/// A liquidation at a price that is not negative keeps a consistent ledger
/// consistent.
pub proof fn lemma_liquidation_keeps_wf(ledger: Ledger, symbol: Seq<char>, price: i64, date: Date)
    requires
        ledger.wf(),
        price >= 0,
        ledger_after_liquidation(ledger, symbol, price, date).is_ok(),
    ensures
        ledger_after_liquidation(ledger, symbol, price, date).unwrap().wf(),
{
    lemma_close_keeps_wf(ledger, symbol, price, date, false);
}

/// A liquidation credits exactly what the position is worth at the price,
/// removes the position and fills in the sell side of the last trade in
/// the symbol.
pub proof fn lemma_liquidation_credits_value(
    ledger: Ledger,
    symbol: Seq<char>,
    price: i64,
    date: Date,
)
    requires
        ledger_after_liquidation(ledger, symbol, price, date).is_ok(),
    ensures
        ({
            let after = ledger_after_liquidation(ledger, symbol, price, date).unwrap();
            let held = position_of(ledger.investments, symbol);
            &&& after.balance == ledger.balance + position_value(
                price,
                ledger.investments[held].quantity,
            )
            &&& after.investments == ledger.investments.remove(held)
            &&& after.trades == close_last_trade(ledger.trades, symbol, price, date)
        }),
{
}

/// Crediting the value of a position at a price that is not negative
/// keeps a consistent ledger consistent.
pub proof fn lemma_valuation_keeps_wf(ledger: Ledger, symbol: Seq<char>, price: i64)
    requires
        ledger.wf(),
        price >= 0,
        ledger_after_valuation(ledger, symbol, price).is_ok(),
    ensures
        ledger_after_valuation(ledger, symbol, price).unwrap().wf(),
{
    let held = position_of(ledger.investments, symbol);
    lemma_position_of(ledger.investments, symbol);
    let quantity = ledger.investments[held].quantity;
    assert(quantity >= 0);
    assert(price * quantity >= 0) by (nonlinear_arith)
        requires
            price >= 0,
            quantity >= 0,
    ;
    lemma_trunc_div_bound(price * quantity, SCALE as int);
}

/// A buy adds one trade at the end and leaves every trade before it as it
/// is. A sell on a consistent ledger adds none and removes none: it fills in
/// the sell side of one open trade of the symbol and leaves every other
/// trade, and every trade that is already sold, as it is.
pub proof fn lemma_trades_are_append_only(
    ledger: Ledger,
    symbol: String,
    price: i64,
    quantity: i64,
    date: Date,
    cost: i64,
)
    requires
        ledger.wf(),
    ensures
        ({
            let bought = ledger_after_buy(ledger, symbol, price, quantity, date, cost);
            &&& bought.trades.len() >= ledger.trades.len()
            &&& forall|i: int|
                0 <= i < ledger.trades.len() ==> #[trigger] bought.trades[i] == ledger.trades[i]
        }),
        ledger_after_sell(ledger, symbol@, price, date).is_ok() ==> ({
            let sold = ledger_after_sell(ledger, symbol@, price, date).unwrap();
            let index = last_trade_of(ledger.trades, symbol@);
            &&& sold.trades.len() == ledger.trades.len()
            &&& 0 <= index < ledger.trades.len()
            &&& ledger.trades[index].is_open()
            &&& sold.trades[index] == closed_trade(ledger.trades[index], price, date)
            &&& forall|i: int|
                0 <= i < ledger.trades.len() && i != index ==> #[trigger] sold.trades[i]
                    == ledger.trades[i]
        }),
{
    if ledger_after_sell(ledger, symbol@, price, date).is_ok() {
        let held = position_of(ledger.investments, symbol@);
        lemma_position_of(ledger.investments, symbol@);
        let index = last_trade_of(ledger.trades, ledger.investments[held].symbol@);
        assert(index >= 0 && ledger.trades[index].is_open());
        lemma_last_trade_of(ledger.trades, symbol@);
    }
}

/// In a consistent ledger the balance is not negative and the trades whose
/// sell side is unset are as many as the open positions.
pub proof fn lemma_wf_counts(ledger: Ledger)
    requires
        ledger.wf(),
    ensures
        ledger.balance >= 0,
        open_trades(ledger.trades) == ledger.investments.len(),
{
}

} // verus!
