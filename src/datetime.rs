//! Calendar date-times in UTC, and the calls into chrono that read the
//! clock and format dates.

use vstd::prelude::*;
use chrono::{Datelike, TimeZone, Timelike};

verus! {

/// Smallest and largest year that chrono's calendar represents.
pub const MIN_YEAR: i32 = -262143;
pub const MAX_YEAR: i32 = 262142;

pub open spec fn is_leap_year(y: int) -> bool {
    (y % 4 == 0 && y % 100 != 0) || y % 400 == 0
}

pub open spec fn days_in_month(y: int, m: int) -> int {
    if m == 2 {
        if is_leap_year(y) {
            29
        } else {
            28
        }
    } else if m == 4 || m == 6 || m == 9 || m == 11 {
        30
    } else {
        31
    }
}

/// A calendar date and time of day that exists in the proleptic Gregorian
/// calendar (no leap seconds).
pub open spec fn valid_civil(y: int, mo: int, d: int, h: int, mi: int, s: int) -> bool {
    MIN_YEAR <= y <= MAX_YEAR && 1 <= mo <= 12 && 1 <= d <= days_in_month(y, mo) && 0 <= h < 24
        && 0 <= mi < 60 && 0 <= s < 60
}

/// A UTC date-time, held as its calendar fields.
#[derive(Clone, Copy, Debug, PartialEq, Eq)]
pub struct DateTime {
    pub year: i32,
    pub month: u32,
    pub day: u32,
    pub hour: u32,
    pub minute: u32,
    pub second: u32,
}

impl DateTime {
    pub open spec fn wf(&self) -> bool {
        valid_civil(
            self.year as int,
            self.month as int,
            self.day as int,
            self.hour as int,
            self.minute as int,
            self.second as int,
        )
    }
}

/// The long form of a date, such as `December 25, 2023` (the day is padded
/// to two places with a space).
pub uninterp spec fn long_date_of(year: int, month: int, day: int) -> Seq<char>;

/// A timestamp such as `2023-12-25T15:30:00+0000`.
pub uninterp spec fn stamp_of(year: int, month: int, day: int, hour: int, minute: int, second: int) -> Seq<char>;

/// Relies on chrono's `Utc.with_ymd_and_hms(..).single()`: a UTC date-time
/// exists exactly for a valid calendar date within chrono's year range and
/// a time of day below 24:00:00.
#[verifier::external_body]
pub fn civil_date_time(year: i32, month: u32, day: u32, hour: u32, minute: u32, second: u32) -> (r:
    Option<DateTime>)
    ensures
        r == (if valid_civil(year as int, month as int, day as int, hour as int, minute as int, second as int) {
            Some(DateTime { year, month, day, hour, minute, second })
        } else {
            None
        }),
{
    chrono::Utc.with_ymd_and_hms(year, month, day, hour, minute, second).single().map(
        |t| DateTime {
            year: t.year(),
            month: t.month(),
            day: t.day(),
            hour: t.hour(),
            minute: t.minute(),
            second: t.second(),
        },
    )
}

/// Relies on chrono's `Utc::now`: the clock reads as a valid date-time.
#[verifier::external_body]
pub fn now() -> (r: DateTime)
    ensures
        r.wf(),
{
    let t = chrono::Utc::now();
    DateTime {
        year: t.year(),
        month: t.month(),
        day: t.day(),
        hour: t.hour(),
        minute: t.minute(),
        second: t.second(),
    }
}

/// Relies on chrono's `NaiveDate::format` with `%B %e, %Y`.
#[verifier::external_body]
pub fn long_date(t: &DateTime) -> (r: String)
    requires
        t.wf(),
    ensures
        r@ == long_date_of(t.year as int, t.month as int, t.day as int),
{
    chrono::NaiveDate::from_ymd_opt(t.year, t.month, t.day).unwrap().format("%B %e, %Y").to_string()
}

/// Relies on chrono's `DateTime<Utc>::format` with `%Y-%m-%dT%H:%M:%S%z`.
#[verifier::external_body]
pub fn stamp(t: &DateTime) -> (r: String)
    requires
        t.wf(),
    ensures
        r@ == stamp_of(
            t.year as int,
            t.month as int,
            t.day as int,
            t.hour as int,
            t.minute as int,
            t.second as int,
        ),
{
    chrono::Utc.with_ymd_and_hms(t.year, t.month, t.day, t.hour, t.minute, t.second).unwrap().format(
        "%Y-%m-%dT%H:%M:%S%z",
    ).to_string()
}

} // verus!
