use backtest::dates::Date;
use backtest::portfolio::{Investment, LedgerError, Portfolio, Trade, SELL_FACTOR};

fn day(n: i32) -> Date {
    Date { days: 736_024 + n }
}

fn open_trades(portfolio: &Portfolio) -> usize {
    portfolio.trades.iter().filter(|t| t.sell_date.is_none()).count()
}

#[test]
fn new_portfolio_holds_cash_only() {
    let portfolio = Portfolio::new(10_000_000_000);
    assert_eq!(portfolio.balance, 10_000_000_000);
    assert!(portfolio.investments.is_empty());
    assert!(portfolio.trades.is_empty());
}

#[test]
fn buy_debits_cash_opens_a_position_and_records_a_trade() {
    let mut portfolio = Portfolio::new(10_000_000_000);
    let applied =
        portfolio.apply_buy("ACME".to_string(), 10_000_000, 248_750_000, day(0), 2_500_000_000);
    assert!(applied);
    assert_eq!(portfolio.balance, 7_500_000_000);
    assert_eq!(
        portfolio.investments,
        vec![Investment { symbol: "ACME".to_string(), price: 10_000_000, quantity: 248_750_000 }]
    );
    assert_eq!(
        portfolio.trades,
        vec![Trade {
            symbol: "ACME".to_string(),
            buy_price: 10_000_000,
            buy_date: day(0),
            sell_price: 0,
            sell_date: None,
            quantity: 248_750_000,
        }]
    );
}

#[test]
fn buy_without_the_cash_changes_nothing() {
    let mut portfolio = Portfolio::new(2_499_999_999);
    let before = portfolio.clone();
    assert!(!portfolio.apply_buy("ACME".to_string(), 10_000_000, 248_750_000, day(0), 2_500_000_000));
    assert_eq!(portfolio, before);
}

#[test]
fn buy_for_the_whole_balance_is_applied() {
    let mut portfolio = Portfolio::new(2_500_000_000);
    assert!(portfolio.apply_buy("ACME".to_string(), 10_000_000, 248_750_000, day(0), 2_500_000_000));
    assert_eq!(portfolio.balance, 0);
}

#[test]
fn buy_at_no_or_negative_cost_changes_nothing() {
    let mut portfolio = Portfolio::new(10_000_000_000);
    let before = portfolio.clone();
    assert!(!portfolio.apply_buy("ACME".to_string(), 10_000_000, 1_000_000, day(0), 0));
    assert!(!portfolio.apply_buy("ACME".to_string(), 10_000_000, 1_000_000, day(0), -1));
    assert_eq!(portfolio, before);
}

#[test]
fn buy_into_an_open_position_overwrites_it_and_adds_a_trade() {
    let mut portfolio = Portfolio::new(10_000_000_000);
    portfolio.apply_buy("ACME".to_string(), 10_000_000, 100_000_000, day(0), 1_000_000_000);
    portfolio.apply_buy("BOLT".to_string(), 20_000_000, 50_000_000, day(1), 1_000_000_000);
    portfolio.apply_buy("ACME".to_string(), 11_000_000, 90_000_000, day(2), 1_000_000_000);
    assert_eq!(portfolio.balance, 7_000_000_000);
    assert_eq!(
        portfolio.investments,
        vec![
            Investment { symbol: "ACME".to_string(), price: 11_000_000, quantity: 90_000_000 },
            Investment { symbol: "BOLT".to_string(), price: 20_000_000, quantity: 50_000_000 },
        ]
    );
    assert_eq!(portfolio.trades.len(), 3);
}

#[test]
fn sell_credits_the_proceeds_less_the_cost_of_trading() {
    let mut portfolio = Portfolio::new(10_000_000_000);
    portfolio.apply_buy("ACME".to_string(), 10_000_000, 248_750_000, day(0), 2_500_000_000);
    assert_eq!(portfolio.apply_sell(&"ACME".to_string(), 11_000_000, day(5)), Ok(()));
    // 248.75 units at 11.0 are worth 2736.25, of which 99.5 % are credited.
    assert_eq!(portfolio.balance, 7_500_000_000 + 2_722_568_750);
    assert!(portfolio.investments.is_empty());
    assert_eq!(
        portfolio.trades,
        vec![Trade {
            symbol: "ACME".to_string(),
            buy_price: 10_000_000,
            buy_date: day(0),
            sell_price: 11_000_000,
            sell_date: Some(day(5)),
            quantity: 248_750_000,
        }]
    );
    assert_eq!(SELL_FACTOR, 995_000);
}

#[test]
fn sell_completes_the_last_trade_of_the_symbol() {
    let mut portfolio = Portfolio::new(10_000_000_000);
    portfolio.apply_buy("ACME".to_string(), 10_000_000, 100_000_000, day(0), 1_000_000_000);
    portfolio.apply_sell(&"ACME".to_string(), 10_500_000, day(3)).unwrap();
    portfolio.apply_buy("BOLT".to_string(), 20_000_000, 50_000_000, day(4), 1_000_000_000);
    portfolio.apply_buy("ACME".to_string(), 11_000_000, 90_000_000, day(50), 1_000_000_000);
    portfolio.apply_sell(&"ACME".to_string(), 12_000_000, day(60)).unwrap();
    assert_eq!(portfolio.trades[0].sell_date, Some(day(3)));
    assert_eq!(portfolio.trades[0].sell_price, 10_500_000);
    assert_eq!(portfolio.trades[1].sell_date, None);
    assert_eq!(portfolio.trades[2].sell_date, Some(day(60)));
    assert_eq!(portfolio.trades[2].sell_price, 12_000_000);
    assert_eq!(portfolio.investments.len(), 1);
    assert_eq!(portfolio.investments[0].symbol, "BOLT");
}

#[test]
fn sell_without_a_position_is_refused() {
    let mut portfolio = Portfolio::new(10_000_000_000);
    assert_eq!(
        portfolio.apply_sell(&"ACME".to_string(), 10_000_000, day(0)),
        Err(LedgerError::NoOpenPosition)
    );
    portfolio.apply_buy("ACME".to_string(), 10_000_000, 100_000_000, day(0), 1_000_000_000);
    let before = portfolio.clone();
    assert_eq!(
        portfolio.apply_sell(&"BOLT".to_string(), 10_000_000, day(1)),
        Err(LedgerError::NoOpenPosition)
    );
    assert_eq!(portfolio, before);
    portfolio.apply_sell(&"ACME".to_string(), 10_000_000, day(1)).unwrap();
    assert_eq!(
        portfolio.apply_sell(&"ACME".to_string(), 10_000_000, day(2)),
        Err(LedgerError::NoOpenPosition)
    );
}

#[test]
fn sell_that_would_overflow_the_balance_is_refused() {
    let mut portfolio = Portfolio::new(i64::MAX);
    portfolio.apply_buy("ACME".to_string(), 10_000_000, 100_000_000, day(0), 1_000_000_000);
    portfolio.balance = i64::MAX;
    let before = portfolio.clone();
    assert_eq!(
        portfolio.apply_sell(&"ACME".to_string(), 10_000_000, day(1)),
        Err(LedgerError::Overflow)
    );
    assert_eq!(portfolio, before);
}

#[test]
fn liquidation_credits_the_full_value_and_closes_position_and_trade() {
    let mut portfolio = Portfolio::new(10_000_000_000);
    portfolio.apply_buy("ACME".to_string(), 10_000_000, 248_750_000, day(0), 2_500_000_000);
    assert_eq!(portfolio.liquidate(&"ACME".to_string(), 11_000_000, day(5)), Ok(()));
    // 248.75 units at 11.0 are worth 2736.25, credited in full.
    assert_eq!(portfolio.balance, 7_500_000_000 + 2_736_250_000);
    assert!(portfolio.investments.is_empty());
    assert_eq!(
        portfolio.trades,
        vec![Trade {
            symbol: "ACME".to_string(),
            buy_price: 10_000_000,
            buy_date: day(0),
            sell_price: 11_000_000,
            sell_date: Some(day(5)),
            quantity: 248_750_000,
        }]
    );
}

#[test]
fn liquidation_without_a_position_or_with_an_overflow_is_refused() {
    let mut portfolio = Portfolio::new(10_000_000_000);
    assert_eq!(
        portfolio.liquidate(&"ACME".to_string(), 10_000_000, day(0)),
        Err(LedgerError::NoOpenPosition)
    );
    portfolio.apply_buy("ACME".to_string(), 10_000_000, 100_000_000, day(0), 1_000_000_000);
    portfolio.balance = i64::MAX;
    let before = portfolio.clone();
    assert_eq!(
        portfolio.liquidate(&"ACME".to_string(), 10_000_000, day(1)),
        Err(LedgerError::Overflow)
    );
    assert_eq!(portfolio, before);
}

#[test]
fn valuation_credits_the_value_and_leaves_position_and_trade_open() {
    let mut portfolio = Portfolio::new(10_000_000_000);
    portfolio.apply_buy("ACME".to_string(), 10_000_000, 248_750_000, day(0), 2_500_000_000);
    let positions = portfolio.investments.clone();
    let trades = portfolio.trades.clone();
    assert_eq!(portfolio.force_value(&"ACME".to_string(), 11_000_000), Ok(()));
    // 248.75 units at 11.0 are worth 2736.25, credited in full.
    assert_eq!(portfolio.balance, 7_500_000_000 + 2_736_250_000);
    assert_eq!(portfolio.investments, positions);
    assert_eq!(portfolio.trades, trades);
    assert_eq!(portfolio.trades[0].sell_date, None);
    assert_eq!(
        portfolio.force_value(&"BOLT".to_string(), 11_000_000),
        Err(LedgerError::NoOpenPosition)
    );
}

#[test]
fn valuation_that_would_overflow_the_balance_is_refused() {
    let mut portfolio = Portfolio::new(10_000_000_000);
    portfolio.apply_buy("ACME".to_string(), 10_000_000, 100_000_000, day(0), 1_000_000_000);
    portfolio.balance = i64::MAX;
    let before = portfolio.clone();
    assert_eq!(portfolio.force_value(&"ACME".to_string(), 10_000_000), Err(LedgerError::Overflow));
    assert_eq!(portfolio, before);
}

#[test]
fn lookups_find_positions_and_trades() {
    let mut portfolio = Portfolio::new(10_000_000_000);
    portfolio.apply_buy("ACME".to_string(), 10_000_000, 100_000_000, day(0), 1_000_000_000);
    portfolio.apply_buy("BOLT".to_string(), 20_000_000, 50_000_000, day(1), 1_000_000_000);
    portfolio.apply_sell(&"ACME".to_string(), 10_500_000, day(3)).unwrap();
    portfolio.apply_buy("ACME".to_string(), 11_000_000, 90_000_000, day(50), 1_000_000_000);
    assert_eq!(portfolio.find_position(&"BOLT".to_string()), Some(0));
    assert_eq!(portfolio.find_position(&"ACME".to_string()), Some(1));
    assert_eq!(portfolio.find_position(&"CASK".to_string()), None);
    assert!(portfolio.has_position(&"ACME".to_string()));
    assert!(!portfolio.has_position(&"CASK".to_string()));
    assert_eq!(portfolio.get_last_trade(&"ACME".to_string()), Some(2));
    assert_eq!(portfolio.get_last_trade(&"BOLT".to_string()), Some(1));
    assert_eq!(portfolio.get_last_trade(&"CASK".to_string()), None);
}

#[test]
fn balance_stays_at_or_above_zero_and_open_trades_match_positions() {
    let mut portfolio = Portfolio::new(3_000_000_000);
    let symbols = ["ACME", "BOLT", "CASK", "DUNE"];
    for round in 0..6usize {
        for (i, symbol) in symbols.iter().enumerate() {
            let symbol = symbol.to_string();
            if portfolio.has_position(&symbol) {
                if (round + i) % 2 == 0 {
                    portfolio
                        .apply_sell(&symbol, 9_000_000 + 500_000 * round as i64, day(round as i32))
                        .unwrap();
                }
            } else {
                portfolio.apply_buy(symbol, 10_000_000, 99_500_000, day(round as i32), 1_000_000_000);
            }
            assert!(portfolio.balance >= 0);
            assert_eq!(open_trades(&portfolio), portfolio.investments.len());
        }
    }
    assert!(portfolio.trades.len() > 4);
}
