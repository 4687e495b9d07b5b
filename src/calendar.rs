use chrono::Datelike;
use vstd::prelude::*;

use crate::task::TaskError;

verus! {

/// The earliest year that a date can carry.
pub const MIN_YEAR: i32 = -262143;

/// The latest year that a date can carry.
pub const MAX_YEAR: i32 = 262142;

/// A calendar date of the proleptic Gregorian calendar, without time of day.
#[derive(Debug, Clone, Copy, PartialEq, Eq, Structural)]
pub struct CalDate {
    pub year: i32,
    pub month: u32,
    pub day: u32,
}

pub open spec fn is_leap_year(y: int) -> bool {
    y % 4 == 0 && (y % 100 != 0 || y % 400 == 0)
}

pub open spec fn days_in_month(y: int, m: int) -> int {
    if m == 2 {
        if is_leap_year(y) { 29 } else { 28 }
    } else if m == 4 || m == 6 || m == 9 || m == 11 {
        30
    } else {
        31
    }
}

/// Year, month and day name an existing date within the supported years.
pub open spec fn valid_ymd(y: int, m: int, d: int) -> bool {
    MIN_YEAR <= y <= MAX_YEAR && 1 <= m <= 12 && 1 <= d <= days_in_month(y, m)
}

impl CalDate {
    pub open spec fn valid(self) -> bool {
        valid_ymd(self.year as int, self.month as int, self.day as int)
    }
}

/// The date with its year set to `y`, if that date exists.
pub open spec fn set_year(d: CalDate, y: int) -> Option<CalDate> {
    if valid_ymd(y, d.month as int, d.day as int) {
        Some(CalDate { year: y as i32, month: d.month, day: d.day })
    } else {
        None
    }
}

/// The date with its month set to `m`, if that date exists.
pub open spec fn set_month(d: CalDate, m: int) -> Option<CalDate> {
    if valid_ymd(d.year as int, m, d.day as int) {
        Some(CalDate { year: d.year, month: m as u32, day: d.day })
    } else {
        None
    }
}

/// The date with its day set to `day`, if that date exists.
pub open spec fn set_day(d: CalDate, day: int) -> Option<CalDate> {
    if valid_ymd(d.year as int, d.month as int, day) {
        Some(CalDate { year: d.year, month: d.month, day: day as u32 })
    } else {
        None
    }
}

/// Applies an optional override of one field to a date that may already have failed.
pub open spec fn apply_field(d: Option<CalDate>, v: Option<u32>, field: int) -> Option<CalDate> {
    match d {
        None => None,
        Some(date) => match v {
            None => Some(date),
            Some(x) => if field == 0 {
                set_year(date, x as int)
            } else if field == 1 {
                set_month(date, x as int)
            } else {
                set_day(date, x as int)
            },
        },
    }
}

/// The date that `base` becomes when the given year, then month, then day are set.
pub open spec fn resolve_date(
    base: CalDate,
    year: Option<u32>,
    month: Option<u32>,
    day: Option<u32>,
) -> Option<CalDate> {
    apply_field(apply_field(apply_field(Some(base), year, 0), month, 1), day, 2)
}

/// Relies on chrono's `NaiveDate::with_year`: the same month and day in year `y`,
/// or `None` where that date does not exist or lies outside chrono's years.
#[verifier::external_body]
fn chrono_with_year(d: CalDate, y: i32) -> (r: Option<CalDate>)
    requires
        d.valid(),
    ensures
        r == set_year(d, y as int),
{
    chrono::NaiveDate::from_ymd_opt(d.year, d.month, d.day)
        .unwrap()
        .with_year(y)
        .map(|n| CalDate { year: n.year(), month: n.month(), day: n.day() })
}

/// Relies on chrono's `NaiveDate::with_month`: the same year and day in month `m`,
/// or `None` where that date does not exist.
#[verifier::external_body]
fn chrono_with_month(d: CalDate, m: u32) -> (r: Option<CalDate>)
    requires
        d.valid(),
    ensures
        r == set_month(d, m as int),
{
    chrono::NaiveDate::from_ymd_opt(d.year, d.month, d.day)
        .unwrap()
        .with_month(m)
        .map(|n| CalDate { year: n.year(), month: n.month(), day: n.day() })
}

/// Relies on chrono's `NaiveDate::with_day`: the same year and month on day `day`,
/// or `None` where that date does not exist.
#[verifier::external_body]
fn chrono_with_day(d: CalDate, day: u32) -> (r: Option<CalDate>)
    requires
        d.valid(),
    ensures
        r == set_day(d, day as int),
{
    chrono::NaiveDate::from_ymd_opt(d.year, d.month, d.day)
        .unwrap()
        .with_day(day)
        .map(|n| CalDate { year: n.year(), month: n.month(), day: n.day() })
}

/// Resolves a date from `base` and optional year, month and day overrides.
///
/// The fields are set in the order year, month, day, so that the day is checked
/// against the final month: from 15 April, month 3 and day 31 give 31 March.
/// Every step must name an existing date; nothing is clamped or rolled over.
pub fn construct_timestamp(
    base: CalDate,
    year: Option<u32>,
    month: Option<u32>,
    day: Option<u32>,
) -> (r: Result<CalDate, TaskError>)
    requires
        base.valid(),
    ensures
        match resolve_date(base, year, month, day) {
            Some(d) => r == Ok::<CalDate, TaskError>(d),
            None => r == Err::<CalDate, TaskError>(TaskError::InvalidDate),
        },
        r is Ok ==> r->Ok_0.valid(),
{
    let mut date = base;
    if let Some(y) = year {
        if y > MAX_YEAR as u32 {
            return Err(TaskError::InvalidDate);
        }
        match chrono_with_year(date, y as i32) {
            Some(d) => date = d,
            None => return Err(TaskError::InvalidDate),
        }
    }
    assert(apply_field(Some(base), year, 0) == Some(date));
    if let Some(m) = month {
        match chrono_with_month(date, m) {
            Some(d) => date = d,
            None => return Err(TaskError::InvalidDate),
        }
    }
    assert(apply_field(apply_field(Some(base), year, 0), month, 1) == Some(date));
    if let Some(dd) = day {
        match chrono_with_day(date, dd) {
            Some(d) => date = d,
            None => return Err(TaskError::InvalidDate),
        }
    }
    Ok(date)
}

/// No year has a 30 February: month 2 with day 30 never resolves.
pub proof fn lemma_february_thirtieth_rejected(base: CalDate, year: Option<u32>)
    requires
        base.valid(),
    ensures
        resolve_date(base, year, Some(2u32), Some(30u32)) is None,
{
    let after_month = apply_field(apply_field(Some(base), year, 0), Some(2u32), 1);
    if let Some(d) = after_month {
        assert(d.month == 2);
        assert(days_in_month(d.year as int, 2) <= 29);
    }
}

/// The first and the last day of the listing window: from the first of the
/// month up to `today`, with the month of `today` replaced where one is given.
pub open spec fn month_window_of(today: CalDate, month: Option<u32>) -> Option<(CalDate, CalDate)> {
    match apply_field(Some(today), month, 1) {
        None => None,
        Some(end) => Some((CalDate { year: end.year, month: end.month, day: 1 }, end)),
    }
}

/// The window of dates that a month listing covers, or `InvalidDate` where the
/// day of `today` does not exist in the requested month.
pub fn month_window(today: CalDate, month: Option<u32>) -> (r: Result<(CalDate, CalDate), TaskError>)
    requires
        today.valid(),
    ensures
        match month_window_of(today, month) {
            Some(w) => r == Ok::<(CalDate, CalDate), TaskError>(w),
            None => r == Err::<(CalDate, CalDate), TaskError>(TaskError::InvalidDate),
        },
        r is Ok ==> r->Ok_0.0.valid() && r->Ok_0.1.valid(),
{
    let mut end = today;
    if let Some(m) = month {
        match chrono_with_month(end, m) {
            Some(d) => end = d,
            None => return Err(TaskError::InvalidDate),
        }
    }
    match chrono_with_day(end, 1) {
        Some(start) => Ok((start, end)),
        None => Err(TaskError::InvalidDate),
    }
}

pub open spec fn digit(n: int) -> char {
    seq!['0', '1', '2', '3', '4', '5', '6', '7', '8', '9'][n]
}

pub open spec fn two_digits(n: int) -> Seq<char> {
    seq![digit((n / 10) % 10), digit(n % 10)]
}

pub open spec fn four_digits(n: int) -> Seq<char> {
    seq![digit((n / 1000) % 10), digit((n / 100) % 10), digit((n / 10) % 10), digit(n % 10)]
}

/// The `YYYY-MM-DD` text of a date whose year has at most four digits.
pub open spec fn iso_text(d: CalDate) -> Seq<char> {
    four_digits(d.year as int) + seq!['-'] + two_digits(d.month as int) + seq!['-'] + two_digits(
        d.day as int,
    )
}

/// Relies on chrono's `%F` format (`%Y-%m-%d`): a year from 0 to 9999 as four
/// zero-padded digits, month and day as two.
#[verifier::external_body]
fn chrono_iso_text(d: CalDate) -> (r: String)
    requires
        d.valid(),
    ensures
        0 <= d.year <= 9999 ==> r@ == iso_text(d),
{
    let n = chrono::NaiveDate::from_ymd_opt(d.year, d.month, d.day).unwrap();
    format!("{}", n.format("%F"))
}

/// The canonical `YYYY-MM-DD` text of a date, used for storage and comparison.
pub fn iso_format_timestamp(timestamp: &CalDate) -> (r: String)
    requires
        timestamp.valid(),
    ensures
        0 <= timestamp.year <= 9999 ==> r@ == iso_text(*timestamp),
{
    chrono_iso_text(*timestamp)
}

} // verus!
