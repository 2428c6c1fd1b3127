use backtest::dates::Date;
use backtest::portfolio::{Investment, LedgerError, Portfolio, Trade};
use backtest::simulator::{
    analyze_buying, analyze_selling, compute_bounds, has_sold_recently, perform_simulation,
    run_simulation, simulate_day, Config, EndPolicy, SimulationError,
};
use backtest::unwind::{cleanup_portfolio, find_stock, find_unwind_day, settle_portfolio};
use backtest::trading::{Sizing, Strategy};
use backtest::types::{Bound, Candle, Stock};
use std::cell::RefCell;

const D: i32 = 736_024;

fn day(n: i32) -> Date {
    Date { days: D + n }
}

fn no_observer(_day: Date) {}

fn stock(symbol: &str, listing: Date, days_and_closes: &[(i32, i64)]) -> Stock {
    Stock {
        symbol: symbol.to_string(),
        listing_date: listing,
        history: days_and_closes
            .iter()
            .map(|&(n, close)| Candle {
                date: day(n),
                open: close,
                high: close,
                low: close,
                close,
                volume: 1_000,
            })
            .collect(),
    }
}

/// Fourteen closes that rise by 0.005 a day from `base`, then four that
/// rise by 0.02 a day.
fn pattern(base: i64) -> Vec<i64> {
    let mut closes: Vec<i64> = (0..14).map(|i| base + 5_000 * i).collect();
    let last = closes[13];
    closes.extend((1..5).map(|i| last + 20_000 * i));
    closes
}

/// Five flat days at 10.0, the pattern, then a fall to 9.7, 9.29 and 9.2.
/// The buy thresholds are first met on day 20 at a close of 10.105.
fn closes() -> Vec<i64> {
    let mut closes = vec![10_000_000; 5];
    closes.extend(pattern(10_000_000));
    closes.extend([9_700_000, 9_290_000, 9_200_000]);
    closes
}

fn daily(closes: &[i64]) -> Vec<(i32, i64)> {
    closes.iter().enumerate().map(|(i, &c)| (i as i32, c)).collect()
}

fn acme() -> Stock {
    stock("ACME", day(-10), &daily(&closes()))
}

fn config() -> Config {
    Config {
        balance: 10_000_000_000,
        buy_amount: 2_500_000_000,
        sell_loss_percent: 7_000_000,
        sell_gain_percent: 5_000_000,
        days_to_go_back: 18,
        start_date: day(0),
        end_date: day(25),
        strategy: Strategy::TrendFollowing,
        sizing: Sizing::RiskFactored,
        end_policy: EndPolicy::Unwind,
    }
}

fn trade(symbol: &str, bought: i32, buy_price: i64, sold: Option<i32>, sell_price: i64, quantity: i64) -> Trade {
    Trade {
        symbol: symbol.to_string(),
        buy_price,
        buy_date: day(bought),
        sell_price,
        sell_date: sold.map(day),
        quantity,
    }
}

#[test]
fn buys_once_when_the_thresholds_are_first_met_and_sells_at_the_stop_loss() {
    let result = run_simulation(&vec![acme()], &config(), day(100), &no_observer).unwrap();
    // Half of 2500 is spent, for the window's volatility counts as high.
    // The close of 9.7 is 4.0 % below the entry, the close of 9.29 is 8.07 %.
    assert_eq!(result.trades, vec![trade("ACME", 20, 10_105_000, Some(24), 9_290_000, 123_082_632)]);
    assert!(result.investments.is_empty());
    assert_eq!(result.balance, 9_887_720_462);
}

#[test]
fn two_runs_end_alike() {
    let stocks = vec![acme(), stock("BOLT", day(-3), &daily(&closes()))];
    let first = run_simulation(&stocks, &config(), day(100), &no_observer).unwrap();
    let second = run_simulation(&stocks, &config(), day(100), &no_observer).unwrap();
    assert_eq!(first, second);
    assert_eq!(first.trades.len(), 2);
}

#[test]
fn observer_sees_each_simulated_day_once() {
    let seen: RefCell<Vec<Date>> = RefCell::new(Vec::new());
    let observer = |date: Date| seen.borrow_mut().push(date);
    run_simulation(&vec![acme()], &config(), day(100), &observer).unwrap();
    // The clock stops once it is more than a day past the end date.
    let expected: Vec<Date> = (0..27).map(day).collect();
    assert_eq!(*seen.borrow(), expected);
}

#[test]
fn an_instrument_is_skipped_until_it_is_listed() {
    // Listed on day 19, the instrument is traded from day 21 on.
    let late = stock("ACME", day(19), &daily(&closes()));
    let result = run_simulation(&vec![late], &config(), day(100), &no_observer).unwrap();
    assert_eq!(result.trades, vec![trade("ACME", 21, 10_125_000, Some(24), 9_290_000, 122_839_506)]);
    assert_eq!(result.balance, 9_885_473_114);
}

#[test]
fn a_buy_that_the_balance_does_not_cover_is_not_made() {
    let mut poor = config();
    poor.balance = 1_249_999_999;
    let result = run_simulation(&vec![acme()], &poor, day(100), &no_observer).unwrap();
    assert!(result.trades.is_empty());
    assert_eq!(result.balance, 1_249_999_999);
    let mut exact = config();
    exact.balance = 1_250_000_000;
    let result = run_simulation(&vec![acme()], &exact, day(100), &no_observer).unwrap();
    assert_eq!(result.trades.len(), 1);
    assert_eq!(result.balance, 1_137_720_462);
}

#[test]
fn a_buy_amount_of_zero_or_less_buys_nothing() {
    for amount in [0, -2_500_000_000] {
        let mut free = config();
        free.buy_amount = amount;
        free.sizing = Sizing::NoOp;
        let result = run_simulation(&vec![acme()], &free, day(100), &no_observer).unwrap();
        assert!(result.trades.is_empty());
        assert_eq!(result.balance, 10_000_000_000);
    }
}

#[test]
fn an_amount_that_buys_no_unit_buys_nothing() {
    // At 10.105 a unit, 0.000010 buys nothing and 0.000100 buys 0.000009 units.
    let mut tiny = config();
    tiny.sizing = Sizing::NoOp;
    tiny.buy_amount = 10;
    let result = run_simulation(&vec![acme()], &tiny, day(100), &no_observer).unwrap();
    assert!(result.trades.is_empty());
    assert_eq!(result.balance, 10_000_000_000);
    tiny.buy_amount = 100;
    let result = run_simulation(&vec![acme()], &tiny, day(100), &no_observer).unwrap();
    assert_eq!(result.trades, vec![trade("ACME", 20, 10_105_000, Some(24), 9_290_000, 9)]);
    assert_eq!(result.balance, 9_999_999_982);

    let mut portfolio = Portfolio::new(1_000);
    let closes: Vec<i64> = closes()[3..21].to_vec();
    tiny.buy_amount = 10;
    analyze_buying(&acme(), &None, &closes, day(20), &mut portfolio, &tiny);
    assert_eq!(portfolio, Portfolio::new(1_000));
}

#[test]
fn selling_without_a_position_is_an_error() {
    let mut portfolio = Portfolio::new(1_000_000_000);
    let closes: Vec<i64> = closes()[7..25].to_vec();
    assert_eq!(
        analyze_selling(&acme(), &None, &closes, day(24), &mut portfolio, &config()),
        Err(LedgerError::NoOpenPosition)
    );
    assert_eq!(portfolio, Portfolio::new(1_000_000_000));
    portfolio.apply_buy("BOLT".to_string(), 10_105_000, 50_000_000, day(20), 500_000_000);
    let before = portfolio.clone();
    assert_eq!(
        analyze_selling(&acme(), &None, &closes, day(24), &mut portfolio, &config()),
        Err(LedgerError::NoOpenPosition)
    );
    assert_eq!(portfolio, before);
}

#[test]
fn selling_with_a_position_sells_or_holds() {
    let mut portfolio = Portfolio::new(1_000_000_000);
    portfolio.apply_buy("ACME".to_string(), 10_105_000, 50_000_000, day(20), 500_000_000);
    let before = portfolio.clone();
    // On day 23 the close of 9.7 is 4 % below the entry: held.
    let held: Vec<i64> = closes()[6..24].to_vec();
    assert_eq!(analyze_selling(&acme(), &None, &held, day(23), &mut portfolio, &config()), Ok(()));
    assert_eq!(portfolio, before);
    // On day 24 the close of 9.29 is 8 % below the entry: sold.
    let sold: Vec<i64> = closes()[7..25].to_vec();
    assert_eq!(analyze_selling(&acme(), &None, &sold, day(24), &mut portfolio, &config()), Ok(()));
    assert!(portfolio.investments.is_empty());
    assert_eq!(portfolio.trades[0].sell_date, Some(day(24)));
    // 50 units at 9.29 are worth 464.5, of which 99.5 % are credited.
    assert_eq!(portfolio.balance, 500_000_000 + 462_177_500);
    // A sell that the balance cannot take is handed on.
    let mut rich = before.clone();
    rich.balance = i64::MAX;
    assert_eq!(
        analyze_selling(&acme(), &None, &sold, day(24), &mut rich, &config()),
        Err(LedgerError::Overflow)
    );
    assert_eq!(rich.investments, before.investments);
}

#[test]
fn no_op_sizing_spends_the_full_amount() {
    let mut full = config();
    full.sizing = Sizing::NoOp;
    let result = run_simulation(&vec![acme()], &full, day(100), &no_observer).unwrap();
    assert_eq!(result.trades, vec![trade("ACME", 20, 10_105_000, Some(24), 9_290_000, 246_165_264)]);
    assert_eq!(result.balance, 9_775_440_925);
}

#[test]
fn instruments_take_their_turn_in_the_order_of_the_list() {
    let stocks = vec![acme(), stock("BOLT", day(-10), &daily(&closes()))];
    let mut tight = config();
    tight.balance = 2_000_000_000;
    let result = run_simulation(&stocks, &tight, day(100), &no_observer).unwrap();
    assert_eq!(result.trades, vec![trade("ACME", 20, 10_105_000, Some(24), 9_290_000, 123_082_632)]);
    assert_eq!(result.balance, 1_887_720_462);
    let stocks = vec![stock("BOLT", day(-10), &daily(&closes())), acme()];
    let result = run_simulation(&stocks, &config(), day(100), &no_observer).unwrap();
    assert_eq!(
        result.trades,
        vec![
            trade("BOLT", 20, 10_105_000, Some(24), 9_290_000, 123_082_632),
            trade("ACME", 20, 10_105_000, Some(24), 9_290_000, 123_082_632),
        ]
    );
    assert_eq!(result.balance, 9_775_440_924);
}

#[test]
fn no_day_is_simulated_where_the_start_is_past_the_end() {
    let mut empty = config();
    empty.start_date = day(30);
    empty.end_date = day(0);
    let seen: RefCell<Vec<Date>> = RefCell::new(Vec::new());
    let observer = |date: Date| seen.borrow_mut().push(date);
    let result = run_simulation(&vec![acme()], &empty, day(100), &observer).unwrap();
    assert!(result.trades.is_empty());
    assert_eq!(result.balance, 10_000_000_000);
    assert!(seen.borrow().is_empty());
}

#[test]
fn the_day_after_the_end_date_is_still_simulated() {
    let mut short = config();
    short.start_date = day(20);
    short.end_date = day(19);
    let seen: RefCell<Vec<Date>> = RefCell::new(Vec::new());
    let observer = |date: Date| seen.borrow_mut().push(date);
    let result = run_simulation(&vec![acme()], &short, day(21), &observer).unwrap();
    assert_eq!(*seen.borrow(), vec![day(20)]);
    // Bought on day 20 and unwound at the close of day 21, at its full value.
    assert_eq!(result.trades, vec![trade("ACME", 20, 10_105_000, Some(21), 10_125_000, 123_082_632)]);
    assert_eq!(result.balance, 9_996_211_649);
}

#[test]
fn a_buy_is_not_repeated_within_the_cooldown() {
    // Sold on day 24. With 16 flat days before the second pattern its
    // thresholds are met on days 56 to 58, less than 35 days later.
    let mut closes: Vec<i64> = closes()[..25].to_vec();
    closes.extend(vec![9_290_000; 16]);
    closes.extend(pattern(9_290_000));
    closes.extend(vec![9_000_000; 3]);
    assert_eq!(closes.len(), 62);
    let mut long = config();
    long.end_date = day(61);
    let stocks = vec![stock("ACME", day(-10), &daily(&closes))];
    let result = run_simulation(&stocks, &long, day(70), &no_observer).unwrap();
    assert_eq!(result.trades, vec![trade("ACME", 20, 10_105_000, Some(24), 9_290_000, 123_082_632)]);
    assert_eq!(result.balance, 9_887_720_462);
}

#[test]
fn a_buy_is_made_again_once_the_cooldown_is_over() {
    // With 17 flat days the thresholds are met on days 57 to 59, and day 59
    // is 35 days after the sell.
    let mut closes: Vec<i64> = closes()[..25].to_vec();
    closes.extend(vec![9_290_000; 17]);
    closes.extend(pattern(9_290_000));
    closes.extend(vec![9_000_000; 3]);
    assert_eq!(closes.len(), 63);
    let mut long = config();
    long.end_date = day(62);
    let stocks = vec![stock("ACME", day(-10), &daily(&closes))];
    let result = run_simulation(&stocks, &long, day(70), &no_observer).unwrap();
    // The second position is still open at the end and no close follows:
    // it is unwound at the last close, dated when the search gave up.
    assert_eq!(
        result.trades,
        vec![
            trade("ACME", 20, 10_105_000, Some(24), 9_290_000, 123_082_632),
            trade("ACME", 59, 9_435_000, Some(72), 9_000_000, 131_822_999),
        ]
    );
    assert!(result.investments.is_empty());
    assert_eq!(result.balance, 9_824_127_453);
}

#[test]
fn trades_stand_in_order_with_the_cooldown_between_them() {
    let mut closes: Vec<i64> = closes()[..25].to_vec();
    closes.extend(vec![9_290_000; 17]);
    closes.extend(pattern(9_290_000));
    closes.extend(vec![9_000_000; 3]);
    let mut long = config();
    long.end_date = day(62);
    let stocks = vec![
        stock("ACME", day(-10), &daily(&closes)),
        stock("BOLT", day(5), &daily(&closes)),
    ];
    let result = run_simulation(&stocks, &long, day(70), &no_observer).unwrap();
    assert_eq!(result.trades.len(), 4);
    for (i, trade) in result.trades.iter().enumerate() {
        let sold = trade.sell_date.unwrap();
        assert!(trade.buy_date.days <= sold.days);
        for later in &result.trades[i + 1..] {
            assert!(trade.buy_date.days <= later.buy_date.days);
            if later.symbol == trade.symbol {
                assert!(sold.days + 35 <= later.buy_date.days);
            }
        }
    }
}

#[test]
fn cooldown_counts_from_the_last_sell() {
    let mut portfolio = Portfolio::new(10_000_000_000);
    let acme = "ACME".to_string();
    assert!(!has_sold_recently(&acme, day(0), &portfolio));
    portfolio.apply_buy(acme.clone(), 10_000_000, 100_000_000, day(0), 1_000_000_000);
    assert!(has_sold_recently(&acme, day(1), &portfolio));
    portfolio.apply_sell(&acme, 10_000_000, day(10)).unwrap();
    assert!(has_sold_recently(&acme, day(10), &portfolio));
    assert!(has_sold_recently(&acme, day(44), &portfolio));
    assert!(!has_sold_recently(&acme, day(45), &portfolio));
    assert!(!has_sold_recently(&"BOLT".to_string(), day(11), &portfolio));
}

#[test]
fn open_positions_are_unwound_at_the_next_close() {
    let mut short = config();
    short.end_date = day(21);
    let result = run_simulation(&vec![acme()], &short, day(100), &no_observer).unwrap();
    // The clock stops at day 23, which has a close of 9.7. The position of
    // 123.082632 units is worth 1193.901530 there, and all of it is credited.
    assert_eq!(result.trades, vec![trade("ACME", 20, 10_105_000, Some(23), 9_700_000, 123_082_632)]);
    assert!(result.investments.is_empty());
    assert_eq!(result.balance, 8_750_000_000 + 1_193_901_530);
}

#[test]
fn open_positions_are_unwound_at_the_last_close_where_the_search_is_over() {
    let mut short = config();
    short.end_date = day(21);
    // The final date is already past when the clock stops at day 23.
    let result = run_simulation(&vec![acme()], &short, day(20), &no_observer).unwrap();
    assert_eq!(result.trades, vec![trade("ACME", 20, 10_105_000, Some(23), 9_200_000, 123_082_632)]);
    assert_eq!(result.balance, 8_750_000_000 + 1_132_360_214);
}

#[test]
fn unwinding_goes_on_from_where_the_position_before_stopped() {
    let mut gapped = daily(&closes()[..23]);
    gapped.extend([(40, 9_500_000), (41, 9_600_000), (42, 9_650_000)]);
    let bolt = stock("BOLT", day(-10), &gapped);
    let mut short = config();
    short.end_date = day(21);
    let result = run_simulation(&vec![bolt.clone(), acme()], &short, day(100), &no_observer).unwrap();
    // BOLT has its next close on day 40; ACME has none after that day.
    assert_eq!(
        result.trades,
        vec![
            trade("BOLT", 20, 10_105_000, Some(40), 9_500_000, 123_082_632),
            trade("ACME", 20, 10_105_000, Some(102), 9_200_000, 123_082_632),
        ]
    );
    assert_eq!(result.balance, 9_801_645_218);
    let result = run_simulation(&vec![acme(), bolt], &short, day(100), &no_observer).unwrap();
    assert_eq!(
        result.trades,
        vec![
            trade("ACME", 20, 10_105_000, Some(23), 9_700_000, 123_082_632),
            trade("BOLT", 20, 10_105_000, Some(40), 9_500_000, 123_082_632),
        ]
    );
    assert_eq!(result.balance, 9_863_186_534);
}

#[test]
fn a_position_without_its_instrument_is_not_unwound() {
    let mut portfolio = Portfolio::new(1_000_000_000);
    portfolio.apply_buy("GONE".to_string(), 10_000_000, 50_000_000, day(0), 500_000_000);
    portfolio.apply_buy("ACME".to_string(), 10_000_000, 50_000_000, day(0), 500_000_000);
    portfolio.apply_buy("VOID".to_string(), 0, 0, day(0), 0);
    let stocks = vec![acme(), stock("VOID", day(-10), &[])];
    let clock = cleanup_portfolio(&stocks, &mut portfolio, day(24), day(100));
    assert_eq!(clock, day(24));
    assert_eq!(
        portfolio.investments,
        vec![Investment { symbol: "GONE".to_string(), price: 10_000_000, quantity: 50_000_000 }]
    );
    assert_eq!(portfolio.trades[0].sell_date, None);
    assert_eq!(portfolio.trades[1].sell_date, Some(day(24)));
    assert_eq!(portfolio.trades[1].sell_price, 9_290_000);
    // 50 units at 9.29 are worth 464.5, credited in full.
    assert_eq!(portfolio.balance, 464_500_000);
}

#[test]
fn the_search_for_a_close_to_unwind_at() {
    let acme = acme();
    assert_eq!(find_unwind_day(&acme, day(24), day(100)), (day(24), Some(9_290_000)));
    // Days 0 and 1 have fewer than three closes up to them.
    assert_eq!(find_unwind_day(&acme, day(0), day(100)), (day(2), Some(10_000_000)));
    assert_eq!(find_unwind_day(&acme, day(-5), day(100)), (day(2), Some(10_000_000)));
    // No close after day 25: the last close, dated past the final date.
    assert_eq!(find_unwind_day(&acme, day(26), day(30)), (day(32), Some(9_200_000)));
    assert_eq!(find_unwind_day(&acme, day(40), day(30)), (day(40), Some(9_200_000)));
    // The day after the final date is still searched.
    assert_eq!(find_unwind_day(&acme, day(24), day(23)), (day(24), Some(9_290_000)));
    assert_eq!(find_unwind_day(&acme, day(24), day(22)), (day(24), Some(9_200_000)));
    let empty = stock("VOID", day(-10), &[]);
    assert_eq!(find_unwind_day(&empty, day(0), day(3)), (day(5), None));
}

#[test]
fn keeps_selling_past_the_end_date() {
    let mut keep = config();
    keep.end_date = day(21);
    keep.end_policy = EndPolicy::KeepSelling;
    let seen: RefCell<Vec<Date>> = RefCell::new(Vec::new());
    let observer = |date: Date| seen.borrow_mut().push(date);
    let result = run_simulation(&vec![acme()], &keep, day(100), &observer).unwrap();
    // The stop loss is reached on day 24, after which no position is left.
    assert_eq!(result.trades, vec![trade("ACME", 20, 10_105_000, Some(24), 9_290_000, 123_082_632)]);
    assert_eq!(result.balance, 9_887_720_462);
    let expected: Vec<Date> = (0..25).map(day).collect();
    assert_eq!(*seen.borrow(), expected);
}

#[test]
fn never_buys_past_the_end_date() {
    let mut keep = config();
    keep.end_date = day(18);
    keep.end_policy = EndPolicy::KeepSelling;
    let result = run_simulation(&vec![acme()], &keep, day(100), &no_observer).unwrap();
    assert!(result.trades.is_empty());
    assert_eq!(result.balance, 10_000_000_000);
}

#[test]
fn values_what_is_still_open_at_the_final_date() {
    let mut keep = config();
    keep.end_date = day(21);
    keep.end_policy = EndPolicy::KeepSelling;
    let result = run_simulation(&vec![acme()], &keep, day(22), &no_observer).unwrap();
    // Day 23 is the last day looked at; its close of 9.7 sells nothing.
    // The position is valued at the last close of 9.2 and credited in full.
    assert_eq!(result.trades, vec![trade("ACME", 20, 10_105_000, None, 0, 123_082_632)]);
    assert_eq!(
        result.investments,
        vec![Investment { symbol: "ACME".to_string(), price: 10_105_000, quantity: 123_082_632 }]
    );
    assert_eq!(result.balance, 9_882_360_214);
}

#[test]
fn settling_leaves_what_has_no_price() {
    let mut portfolio = Portfolio::new(1_000_000_000);
    portfolio.apply_buy("GONE".to_string(), 10_000_000, 50_000_000, day(0), 500_000_000);
    portfolio.apply_buy("ACME".to_string(), 10_000_000, 50_000_000, day(0), 500_000_000);
    let stocks = vec![acme()];
    let positions = portfolio.investments.clone();
    let trades = portfolio.trades.clone();
    settle_portfolio(&stocks, &mut portfolio);
    // 50 units of ACME at its last close of 9.2; nothing for GONE.
    assert_eq!(portfolio.balance, 460_000_000);
    assert_eq!(portfolio.investments, positions);
    assert_eq!(portfolio.trades, trades);
}

#[test]
fn mean_reversion_buys_dips_and_sells_peaks() {
    let moves: [i64; 20] = [1, 1, -1, 2, 0, 1, -3, 2, 1, 4, -1, 0, 1, -4, 1, 1, 5, -2, 1, 0];
    let mut closes: Vec<i64> = vec![20_000_000];
    for m in moves {
        let last = *closes.last().unwrap();
        closes.push(last * (100 + m) / 100);
    }
    let marvin = stock("MRVN", day(-10), &daily(&closes));
    let strategy = Strategy::MeanReversion { step_size: 2, bound_width: 608_000, min_margin: None };
    assert_eq!(
        strategy.bound_for(&marvin.history),
        Some(Bound { upper: 1_152_004, middle: 499_998, lower: -152_008 })
    );
    let mut reversion = config();
    reversion.strategy = strategy;
    reversion.sizing = Sizing::NoOp;
    reversion.end_date = day(20);
    let stocks = vec![marvin];
    let result = run_simulation(&stocks, &reversion, day(30), &no_observer).unwrap();
    assert_eq!(
        result.trades,
        vec![
            trade("MRVN", 3, 20_197_980, Some(4), 20_601_939, 123_155_879),
            trade("MRVN", 7, 20_183_719, Some(8), 20_587_393, 123_242_896),
            trade("MRVN", 11, 21_408_746, Some(17), 22_233_909, 116_190_831),
            trade("MRVN", 18, 21_789_230, Some(32), 22_007_122, 114_161_904),
        ]
    );
    assert_eq!(result.balance, 10_131_961_770);

    // With a least margin of 3 % the first position is held until day 10.
    reversion.strategy =
        Strategy::MeanReversion { step_size: 2, bound_width: 608_000, min_margin: Some(3_000_000) };
    let result = run_simulation(&stocks, &reversion, day(30), &no_observer).unwrap();
    assert_eq!(
        result.trades,
        vec![
            trade("MRVN", 3, 20_197_980, Some(10), 21_624_996, 123_155_879),
            trade("MRVN", 11, 21_408_746, Some(17), 22_233_909, 116_190_831),
            trade("MRVN", 18, 21_789_230, Some(32), 22_007_122, 114_161_904),
        ]
    );
    assert_eq!(result.balance, 10_232_763_593);
}

#[test]
fn mean_reversion_without_bounds_does_not_trade() {
    let marvin = stock("MRVN", day(-10), &daily(&closes()));
    let mut reversion = config();
    reversion.strategy = Strategy::MeanReversion { step_size: 0, bound_width: 608_000, min_margin: None };
    let result = run_simulation(&vec![marvin], &reversion, day(30), &no_observer).unwrap();
    assert!(result.trades.is_empty());
}

#[test]
fn bounds_are_computed_for_each_instrument() {
    let stocks = vec![acme(), stock("VOID", day(-10), &[])];
    assert_eq!(compute_bounds(&stocks, &Strategy::TrendFollowing), vec![None, None]);
    let strategy = Strategy::MeanReversion { step_size: 5, bound_width: 608_000, min_margin: None };
    let bounds = compute_bounds(&stocks, &strategy);
    assert_eq!(bounds.len(), 2);
    assert!(bounds[0].is_some());
    assert_eq!(bounds[1], None);
}

#[test]
fn dates_outside_the_clock_are_refused() {
    let mut early = config();
    early.start_date = Date { days: -100_000_001 };
    assert_eq!(
        run_simulation(&vec![acme()], &early, day(100), &no_observer),
        Err(SimulationError::DateOutOfRange)
    );
    let mut late = config();
    late.end_date = Date { days: 100_000_001 };
    assert_eq!(
        run_simulation(&vec![acme()], &late, day(100), &no_observer),
        Err(SimulationError::DateOutOfRange)
    );
    assert_eq!(
        run_simulation(&vec![acme()], &config(), Date { days: i32::MAX }, &no_observer),
        Err(SimulationError::DateOutOfRange)
    );
    assert_eq!(perform_simulation(vec![acme()], &late), Err(SimulationError::DateOutOfRange));
}

#[test]
fn a_window_that_trend_following_cannot_read_is_refused() {
    for days in [17, 0, -1, i64::MIN] {
        let mut odd = config();
        odd.days_to_go_back = days;
        assert_eq!(
            run_simulation(&vec![acme()], &odd, day(100), &no_observer),
            Err(SimulationError::WindowOutOfRange)
        );
        assert_eq!(perform_simulation(vec![acme()], &odd), Err(SimulationError::WindowOutOfRange));
        odd.strategy = Strategy::MeanReversion { step_size: 5, bound_width: 608_000, min_margin: None };
        assert!(run_simulation(&vec![acme()], &odd, day(100), &no_observer).is_ok());
    }
    for days in [18, 256, 257, 1_000, i64::MAX] {
        let mut fine = config();
        fine.days_to_go_back = days;
        assert!(run_simulation(&vec![acme()], &fine, day(100), &no_observer).is_ok());
    }
    // The dates are looked at first.
    let mut both = config();
    both.days_to_go_back = 17;
    both.end_date = Date { days: 100_000_001 };
    assert_eq!(
        run_simulation(&vec![acme()], &both, day(100), &no_observer),
        Err(SimulationError::DateOutOfRange)
    );
}

#[test]
fn simulation_up_to_the_present_day() {
    let result = perform_simulation(vec![acme()], &config()).unwrap();
    assert_eq!(result.trades, vec![trade("ACME", 20, 10_105_000, Some(24), 9_290_000, 123_082_632)]);
    assert_eq!(result.balance, 9_887_720_462);
}

#[test]
fn one_day_gives_every_instrument_its_turn() {
    let stocks = vec![acme(), stock("BOLT", day(-10), &daily(&closes()))];
    let bounds = compute_bounds(&stocks, &Strategy::TrendFollowing);
    let mut portfolio = Portfolio::new(10_000_000_000);
    simulate_day(&stocks, &bounds, day(19), &mut portfolio, &config(), true);
    assert!(portfolio.trades.is_empty());
    simulate_day(&stocks, &bounds, day(20), &mut portfolio, &config(), false);
    assert!(portfolio.trades.is_empty());
    simulate_day(&stocks, &bounds, day(20), &mut portfolio, &config(), true);
    assert_eq!(portfolio.investments.len(), 2);
    assert_eq!(portfolio.balance, 7_500_000_000);
    simulate_day(&stocks, &bounds, day(24), &mut portfolio, &config(), false);
    assert!(portfolio.investments.is_empty());
}

#[test]
fn balance_and_open_trades_stay_consistent_through_a_run() {
    let stocks = vec![acme(), stock("BOLT", day(-3), &daily(&closes()))];
    let bounds = compute_bounds(&stocks, &Strategy::TrendFollowing);
    let mut portfolio = Portfolio::new(3_000_000_000);
    for n in 0..27 {
        simulate_day(&stocks, &bounds, day(n), &mut portfolio, &config(), true);
        assert!(portfolio.balance >= 0);
        let open = portfolio.trades.iter().filter(|t| t.sell_date.is_none()).count();
        assert_eq!(open, portfolio.investments.len());
    }
    assert_eq!(portfolio.trades.len(), 2);
}

#[test]
fn finds_an_instrument_by_its_symbol() {
    let stocks = vec![acme(), stock("BOLT", day(-10), &[]), stock("ACME", day(0), &[])];
    assert_eq!(find_stock(&stocks, &"ACME".to_string()), Some(0));
    assert_eq!(find_stock(&stocks, &"BOLT".to_string()), Some(1));
    assert_eq!(find_stock(&stocks, &"CASK".to_string()), None);
}
