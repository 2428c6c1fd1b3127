use backtest::dates::Date;
use backtest::portfolio::{Portfolio, Trade};
use backtest::report::{get_chances, summarize, Summary};
use backtest::simulator::{Config, EndPolicy};
use backtest::stats::StatsError;
use backtest::trading::{Sizing, Strategy};

fn trade(buy_price: i64, sell_price: i64) -> Trade {
    Trade {
        symbol: "ACME".to_string(),
        buy_price,
        buy_date: Date { days: 736_024 },
        sell_price,
        sell_date: if sell_price == 0 { None } else { Some(Date { days: 736_030 }) },
        quantity: 1_000_000,
    }
}

fn config(balance: i64, days: i32) -> Config {
    Config {
        balance,
        buy_amount: 2_500_000_000,
        sell_loss_percent: 7_000_000,
        sell_gain_percent: 5_000_000,
        days_to_go_back: 150,
        start_date: Date { days: 736_024 },
        end_date: Date { days: 736_024 + days },
        strategy: Strategy::TrendFollowing,
        sizing: Sizing::RiskFactored,
        end_policy: EndPolicy::Unwind,
    }
}

fn trades() -> Vec<Trade> {
    vec![
        trade(10_000_000, 11_000_000),
        trade(10_000_000, 9_000_000),
        trade(20_000_000, 23_000_000),
        trade(10_000_000, 10_000_000),
        trade(10_000_000, 0),
    ]
}

#[test]
fn chances_of_the_winners() {
    // Two of five won, by 10 % and by 15 %.
    assert_eq!(get_chances(&trades(), true), Ok((40_000_000, 12_500_000)));
}

#[test]
fn chances_of_the_rest() {
    // Three of five did not win: -10 %, 0 % and, still open, -100 %.
    assert_eq!(get_chances(&trades(), false), Ok((60_000_000, -36_666_666)));
}

#[test]
fn chances_without_trades_are_zero() {
    assert_eq!(get_chances(&vec![], true), Ok((0, 0)));
    assert_eq!(get_chances(&vec![trade(10_000_000, 9_000_000)], true), Ok((0, 0)));
    assert_eq!(get_chances(&vec![trade(10_000_000, 9_000_000)], false), Ok((100_000_000, -10_000_000)));
}

#[test]
fn chances_out_of_range() {
    assert_eq!(get_chances(&vec![trade(1, i64::MAX)], true), Err(StatsError::OutOfRange));
}

#[test]
fn summary_of_a_run() {
    let mut result = Portfolio::new(11_000_000_000);
    result.trades = trades();
    assert_eq!(
        summarize(&result, &config(10_000_000_000, 730)),
        Ok(Summary {
            total_returns: 10_000_000,
            annual_returns: 5_000_000,
            trades: 5,
            win_loss_ratio: 666_666,
            win_percent: 40_000_000,
            average_win: 12_500_000,
            loss_percent: 60_000_000,
            average_loss: -36_666_666,
        })
    );
}

#[test]
fn summary_of_a_run_without_trades_over_no_days() {
    let result = Portfolio::new(9_000_000_000);
    assert_eq!(
        summarize(&result, &config(10_000_000_000, 0)),
        Ok(Summary {
            total_returns: -10_000_000,
            annual_returns: 0,
            trades: 0,
            win_loss_ratio: 0,
            win_percent: 0,
            average_win: 0,
            loss_percent: 0,
            average_loss: 0,
        })
    );
}

#[test]
fn summary_out_of_range() {
    let result = Portfolio::new(i64::MAX);
    assert_eq!(summarize(&result, &config(1, 365)), Err(StatsError::OutOfRange));
    let result = Portfolio::new(20_000_000_000);
    // The total returns fit, the returns per year do not.
    assert_eq!(summarize(&result, &config(10, 1)), Err(StatsError::OutOfRange));
    assert!(summarize(&result, &config(10, 365)).is_ok());
}
