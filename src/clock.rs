//! Calendar facts and the current date, as chrono gives them.

use vstd::prelude::*;

verus! {

/// The earliest year that chrono's dates can hold.
pub const MIN_CALENDAR_YEAR: i32 = -262143;

/// The latest year that chrono's dates can hold.
pub const MAX_CALENDAR_YEAR: i32 = 262142;

pub open spec fn is_leap_year(y: int) -> bool {
    y % 4 == 0 && (y % 100 != 0 || y % 400 == 0)
}

pub open spec fn days_in_month(y: int, m: int) -> int {
    if m == 2 {
        if is_leap_year(y) {
            29
        } else {
            28
        }
    } else if m == 4 || m == 6 || m == 9 || m == 11 {
        30
    } else {
        31
    }
}

/// `day` of `month` in `year` is a day of the proleptic Gregorian calendar
/// within the years that chrono's dates can hold.
pub open spec fn date_exists(year: i32, month: u32, day: u32) -> bool {
    &&& MIN_CALENDAR_YEAR <= year <= MAX_CALENDAR_YEAR
    &&& 1 <= month <= 12
    &&& 1 <= day <= days_in_month(year as int, month as int)
}

/// Relies on `chrono::NaiveDate::from_ymd_opt`, which gives a date exactly for
/// a valid month and day of a year within its range.
#[verifier::external_body]
pub(crate) fn calendar_date_exists(year: i32, month: u32, day: u32) -> (r: bool)
    ensures
        r == date_exists(year, month, day),
{
    chrono::NaiveDate::from_ymd_opt(year, month, day).is_some()
}

/// Relies on `chrono::NaiveTime::from_hms_opt`, which gives a time of day
/// exactly when the hour is below 24 and the minute and second below 60.
#[verifier::external_body]
pub(crate) fn clock_time_exists(hour: u32, minute: u32) -> (r: bool)
    ensures
        r == (hour < 24 && minute < 60),
{
    chrono::NaiveTime::from_hms_opt(hour, minute, 0).is_some()
}

/// Relies on `chrono::Utc::now` with `Datelike::year` and `Datelike::month`:
/// the year and month of the present instant in UTC. Every chrono date has a
/// month from 1 to 12 and a year within chrono's range.
#[verifier::external_body]
pub(crate) fn current_year_month() -> (r: (i32, u32))
    ensures
        MIN_CALENDAR_YEAR <= r.0 <= MAX_CALENDAR_YEAR,
        1 <= r.1 <= 12,
{
    let now = chrono::Utc::now();
    (chrono::Datelike::year(&now), chrono::Datelike::month(&now))
}

} // verus!
