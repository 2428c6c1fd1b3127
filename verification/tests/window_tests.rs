use backtest::dates::Date;
use backtest::types::{Candle, Close, Stock};
use backtest::window::{
    find_candle, get_day_close, get_recent_closes, has_been_listed_yet, retain_listed,
};

const D: i32 = 736_024;

fn day(n: i32) -> Date {
    Date { days: D + n }
}

fn candle(n: i32, close: i64) -> Candle {
    Candle { date: day(n), open: close - 1, high: close + 2, low: close - 2, close, volume: 500 }
}

fn stock() -> Stock {
    Stock {
        symbol: "ACME".to_string(),
        listing_date: day(0),
        // No candles on days 4 and 5.
        history: vec![
            candle(1, 10),
            candle(2, 20),
            candle(3, 30),
            candle(6, 60),
            candle(7, 70),
        ],
    }
}

#[test]
fn recent_closes_end_on_the_date() {
    assert_eq!(get_recent_closes(&stock(), day(3), 3), Some(vec![10, 20, 30]));
    assert_eq!(get_recent_closes(&stock(), day(7), 2), Some(vec![60, 70]));
    assert_eq!(get_recent_closes(&stock(), day(7), 5), Some(vec![10, 20, 30, 60, 70]));
    assert_eq!(get_recent_closes(&stock(), day(1), 1), Some(vec![10]));
}

#[test]
fn recent_closes_of_a_day_without_a_candle() {
    assert_eq!(get_recent_closes(&stock(), day(4), 1), None);
    assert_eq!(get_recent_closes(&stock(), day(0), 1), None);
    assert_eq!(get_recent_closes(&stock(), day(8), 1), None);
}

#[test]
fn recent_closes_with_too_little_history() {
    assert_eq!(get_recent_closes(&stock(), day(3), 4), None);
    assert_eq!(get_recent_closes(&stock(), day(7), 6), None);
    assert_eq!(get_recent_closes(&stock(), day(1), 2), None);
    assert_eq!(get_recent_closes(&stock(), day(7), i64::MAX), None);
}

#[test]
fn recent_closes_of_no_days() {
    assert_eq!(get_recent_closes(&stock(), day(3), 0), None);
    assert_eq!(get_recent_closes(&stock(), day(3), -1), None);
    assert_eq!(get_recent_closes(&stock(), day(3), i64::MIN), None);
}

#[test]
fn recent_closes_take_the_first_candle_of_a_date() {
    let mut twice = stock();
    twice.history.push(candle(3, 99));
    assert_eq!(get_recent_closes(&twice, day(3), 2), Some(vec![20, 30]));
    assert_eq!(find_candle(&twice.history, day(3)), Some(2));
    assert_eq!(find_candle(&twice.history, day(5)), None);
}

#[test]
fn day_close_carries_the_change_from_the_close_before() {
    assert_eq!(
        get_day_close(&vec![10_000_000, 9_800_000], day(3)),
        Some(Close { value: 9_800_000, percent_change: -2_000_000, date: day(3) })
    );
    assert_eq!(
        get_day_close(&vec![1, 10_000_000, 10_300_000], day(3)),
        Some(Close { value: 10_300_000, percent_change: 3_000_000, date: day(3) })
    );
    assert_eq!(get_day_close(&vec![10_000_000], day(3)), None);
    assert_eq!(get_day_close(&vec![], day(3)), None);
    assert_eq!(get_day_close(&vec![1, i64::MAX], day(3)), None);
}

#[test]
fn listed_only_once_the_date_is_past_the_listing_date() {
    assert!(!has_been_listed_yet(&stock(), day(-1)));
    assert!(!has_been_listed_yet(&stock(), day(0)));
    assert!(!has_been_listed_yet(&stock(), day(1)));
    assert!(has_been_listed_yet(&stock(), day(2)));
}

#[test]
fn history_keeps_the_candles_past_the_listing_date() {
    let history = stock().history;
    assert_eq!(retain_listed(history.clone(), day(0)), history[1..].to_vec());
    assert_eq!(retain_listed(history.clone(), day(-1)), history);
    assert_eq!(retain_listed(history.clone(), day(5)), history[4..].to_vec());
    assert_eq!(retain_listed(history.clone(), day(6)), vec![]);
    assert_eq!(retain_listed(vec![], day(0)), vec![]);
}

#[test]
fn history_is_well_formed_where_its_dates_ascend() {
    assert!(stock().is_well_formed());
    let mut twice = stock();
    twice.history.push(candle(7, 80));
    assert!(!twice.is_well_formed());
    let mut back = stock();
    back.history.push(candle(5, 80));
    assert!(!back.is_well_formed());
    let mut empty = stock();
    empty.history.clear();
    assert!(empty.is_well_formed());
    empty.history.push(candle(1, 1));
    assert!(empty.is_well_formed());
}
