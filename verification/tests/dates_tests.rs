use backtest::dates::{
    days_between, format_date, get_today, is_past_date, next_day, parse_date, Date, MAX_DAY, MIN_DAY,
};

#[test]
fn parses_a_date() {
    assert_eq!(parse_date("2016-03-01".to_string()), Some(Date { days: 736_024 }));
    assert_eq!(parse_date("2020-10-01".to_string()), Some(Date { days: 737_699 }));
    assert_eq!(parse_date("0001-01-01".to_string()), Some(Date { days: 1 }));
    assert_eq!(parse_date("2000-02-29".to_string()), Some(Date { days: 730_179 }));
}

#[test]
fn rejects_what_is_no_date() {
    assert_eq!(parse_date("".to_string()), None);
    assert_eq!(parse_date("2016-13-01".to_string()), None);
    assert_eq!(parse_date("2015-02-29".to_string()), None);
    assert_eq!(parse_date("01/03/2016".to_string()), None);
    assert_eq!(parse_date("2016-03-01T10:00:00".to_string()), None);
}

#[test]
fn formats_a_date() {
    assert_eq!(format_date(Date { days: 736_024 }), Some("2016-03-01".to_string()));
    assert_eq!(format_date(Date { days: 737_699 }), Some("2020-10-01".to_string()));
    assert_eq!(format_date(Date { days: 1 }), Some("0001-01-01".to_string()));
}

#[test]
fn formats_no_date_outside_the_calendar() {
    assert_eq!(format_date(Date { days: i32::MAX }), None);
    assert_eq!(format_date(Date { days: i32::MIN }), None);
}

#[test]
fn formatting_and_parsing_agree() {
    for days in [1, 365, 719_163, 736_024, 737_699, 800_000] {
        let text = format_date(Date { days }).unwrap();
        assert_eq!(text.len(), 10);
        assert_eq!(parse_date(text), Some(Date { days }));
    }
}

#[test]
fn a_date_is_past_another_only_after_more_than_a_day() {
    let day = Date { days: 736_024 };
    assert!(!is_past_date(Date { days: 736_023 }, day));
    assert!(!is_past_date(day, day));
    assert!(!is_past_date(Date { days: 736_025 }, day));
    assert!(is_past_date(Date { days: 736_026 }, day));
    assert!(is_past_date(Date { days: i32::MAX }, Date { days: i32::MIN }));
    assert!(!is_past_date(Date { days: i32::MIN }, Date { days: i32::MAX }));
}

#[test]
fn days_between_two_dates() {
    assert_eq!(days_between(Date { days: 737_699 }, Date { days: 736_024 }), 1_675);
    assert_eq!(days_between(Date { days: 736_024 }, Date { days: 737_699 }), -1_675);
    assert_eq!(days_between(Date { days: i32::MAX }, Date { days: i32::MIN }), 4_294_967_295);
}

#[test]
fn the_next_day() {
    assert_eq!(next_day(Date { days: 736_024 }), Date { days: 736_025 });
    assert_eq!(next_day(Date { days: -1 }), Date { days: 0 });
}

#[test]
fn today_lies_within_the_clock() {
    let today = get_today();
    assert!(MIN_DAY <= today.days && today.days <= MAX_DAY);
    // Later than 1 January 2024.
    assert!(today.days > 738_886);
}
