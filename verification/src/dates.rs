//! Calendar dates as day numbers.
//!
//! A `Date` counts days in the proleptic Gregorian calendar, 1 January of
//! the year 1 being day 1. The engine compares and steps dates by that
//! number; reading a date from text and writing it back are left to `chrono`.

use vstd::prelude::*;
use chrono::Datelike;

verus! {

/// A calendar day.
#[derive(Clone, Copy, PartialEq, Eq, Structural, Debug)]
pub struct Date {
    /// Days since 31 December of the year 1 BCE.
    pub days: i32,
}

/// The first day number that the simulation clock may hold.
pub const MIN_DAY: i32 = -100_000_000;

/// The last day number that the simulation clock may hold.
pub const MAX_DAY: i32 = 100_000_000;

impl Date {
    /// The day number lies within the clock's range.
    pub open spec fn in_range(self) -> bool {
        MIN_DAY <= self.days <= MAX_DAY
    }

    /// Whether the day number lies within the clock's range.
    pub fn is_in_range(self) -> (r: bool)
        ensures
            r == self.in_range(),
    {
        MIN_DAY <= self.days && self.days <= MAX_DAY
    }
}

/// The day number that `chrono` reads from `text` under the format
/// `%Y-%m-%d`; `None` where it rejects the text.
pub uninterp spec fn parsed_day(text: Seq<char>) -> Option<i32>;

/// The text that `chrono` writes for a day number under the format
/// `%Y-%m-%d`; `None` where the number is outside its calendar.
pub uninterp spec fn formatted_day(days: i32) -> Option<Seq<char>>;

/// Calls `chrono::NaiveDate::parse_from_str` with the format `%Y-%m-%d` and
/// takes the day number of the date it returns. Nothing is proved of the
/// parser: the result is only given its name.
#[verifier::external_body]
fn parse_day(value: &str) -> (r: Option<i32>)
    ensures
        r == parsed_day(value@),
{
    match chrono::NaiveDate::parse_from_str(value, "%Y-%m-%d") {
        Ok(date) => Some(date.num_days_from_ce()),
        Err(_) => None,
    }
}

/// Calls `chrono::NaiveDate::from_num_days_from_ce_opt` and formats the date
/// with `chrono::NaiveDate::format` under `%Y-%m-%d`. Nothing is proved of
/// the formatter: the result is only given its name.
#[verifier::external_body]
fn format_day(days: i32) -> (r: Option<String>)
    ensures
        match r {
            Some(text) => formatted_day(days) == Some(text@),
            None => formatted_day(days).is_none(),
        },
{
    match chrono::NaiveDate::from_num_days_from_ce_opt(days) {
        Some(date) => Some(date.format("%Y-%m-%d").to_string()),
        None => None,
    }
}

/// Calls `chrono::Local::now` and takes the day number of its local date.
/// Which day that is depends on the clock. What is claimed holds of every
/// date that `chrono` can hold: a `NaiveDate` keeps its year in 19 bits, so
/// the year is below 262,144 in magnitude and the day number, at no more
/// than 366 days a year, lies within the range of the simulation clock.
/// The call takes no input, so nothing can be asked of a caller: on a
/// machine whose clock stands before 1970, or whose time zone cannot be
/// read, `chrono` panics.
#[verifier::external_body]
fn today_day() -> (r: i32)
    ensures
        MIN_DAY <= r <= MAX_DAY,
{
    chrono::Local::now().date_naive().num_days_from_ce()
}

/// What `parse_date` returns for a text.
pub open spec fn parsed_date(text: Seq<char>) -> Option<Date> {
    match parsed_day(text) {
        Some(days) => Some(Date { days }),
        None => None,
    }
}

/// Reads a date written as `YYYY-MM-DD`.
pub fn parse_date(value: String) -> (r: Option<Date>)
    ensures
        r == parsed_date(value@),
{
    match parse_day(value.as_str()) {
        Some(days) => Some(Date { days }),
        None => None,
    }
}

/// Writes a date as `YYYY-MM-DD`.
pub fn format_date(date: Date) -> (r: Option<String>)
    ensures
        match r {
            Some(text) => formatted_day(date.days) == Some(text@),
            None => formatted_day(date.days).is_none(),
        },
{
    format_day(date.days)
}

/// The local calendar day at the moment of the call. Whatever the clock
/// says, the day lies within the range of the simulation clock, so that a
/// simulation can take it as its final date. It rests on the machine's
/// clock and time zone, and fails with them.
pub fn get_today() -> (r: Date)
    ensures
        r.in_range(),
{
    Date { days: today_day() }
}

/// `current` lies more than one day after `compare`.
pub open spec fn past_date(current: Date, compare: Date) -> bool {
    current.days - compare.days > 1
}

/// Whether `current` is past `compare`: strictly more than one day later.
/// The day right after `compare` is not yet past it.
pub fn is_past_date(current: Date, compare: Date) -> (r: bool)
    ensures
        r == past_date(current, compare),
{
    let difference: i64 = current.days as i64 - compare.days as i64;
    difference > 1
}

/// The number of days from `earlier` to `later`.
pub fn days_between(later: Date, earlier: Date) -> (r: i64)
    ensures
        r == later.days - earlier.days,
{
    later.days as i64 - earlier.days as i64
}

/// The day after `date`.
pub open spec fn day_after(date: Date) -> Date {
    Date { days: (date.days + 1) as i32 }
}

/// The day after `date`.
pub fn next_day(date: Date) -> (r: Date)
    requires
        date.days < i32::MAX,
    ensures
        r.days == date.days + 1,
        date.days < MAX_DAY + 2 ==> r == day_after(date),
{
    Date { days: date.days + 1 }
}

} // verus!
