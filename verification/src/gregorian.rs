//! The calendar as `chrono` keeps it: the boundary to the outside crate.
//!
//! Nothing in this file is proved. Two spec functions name what `chrono`
//! computes, and four functions call it. The rest of the crate is verified
//! against what is stated here. Of dates no more is stated than that `chrono`
//! gives the same answer to the same question; of a point in time, that its
//! local day is found where its UTC day is, and lies next to it.

use vstd::prelude::*;
use chrono::{Datelike, Local, NaiveDate, TimeZone};

verus! {

/// What `chrono` gives the civil date `year`-`month`-`day`: its day number,
/// and the number of days from Monday to its day of the week; `None` where
/// it accepts no such date.
pub uninterp spec fn date_numbers(year: int, month: int, day: int) -> Option<(int, int)>;

/// The civil date `(year, month, day)` that `chrono` gives the day number
/// `number`, or `None` where the day is outside the range of dates it holds.
pub uninterp spec fn civil_date(number: int) -> Option<(int, int, int)>;

/// Calls `chrono::NaiveDate::from_ymd_opt` and, on a date,
/// `Datelike::num_days_from_ce`, and `Datelike::weekday` with
/// `Weekday::num_days_from_monday`.
///
/// Trusted: the result is the named `date_numbers` of the arguments, and a
/// date is only ever made of a month in 1..=12 and a day in 1..=31.
#[verifier::external_body]
pub(crate) fn chrono_date_numbers(year: i32, month: u32, day: u32) -> (r: Option<(i32, u32)>)
    ensures
        match r {
            Some(found) => date_numbers(year as int, month as int, day as int) == Some(
                (found.0 as int, found.1 as int),
            ) && 1 <= month <= 12 && 1 <= day <= 31,
            None => date_numbers(year as int, month as int, day as int) is None,
        },
{
    match NaiveDate::from_ymd_opt(year, month, day) {
        Some(date) => Some((date.num_days_from_ce(), date.weekday().num_days_from_monday())),
        None => None,
    }
}

/// Calls `chrono::NaiveDate::from_num_days_from_ce_opt` and, on a date, reads its
/// `year`, `month` and `day`.
///
/// Trusted: the result is the named `civil_date` of the argument.
#[verifier::external_body]
pub(crate) fn chrono_civil_date(number: i32) -> (r: Option<(i32, u32, u32)>)
    ensures
        match r {
            Some(ymd) => civil_date(number as int) == Some((ymd.0 as int, ymd.1 as int, ymd.2 as int)),
            None => civil_date(number as int) is None,
        },
{
    match NaiveDate::from_num_days_from_ce_opt(number) {
        Some(date) => Some((date.year(), date.month(), date.day())),
        None => None,
    }
}

/// The day number of the day that the time `timestamp`, in seconds since
/// the Unix epoch, falls on in UTC: whole days since the epoch, rounded down,
/// counted from the day number of 1970-01-01.
pub open spec fn utc_day_number(timestamp: int) -> int {
    timestamp / 86_400 + 719_163
}

/// Whether `chrono` holds a date for the day that the time `timestamp` falls
/// on in UTC.
pub open spec fn has_utc_day(timestamp: int) -> bool {
    &&& i32::MIN <= utc_day_number(timestamp) <= i32::MAX
    &&& civil_date(utc_day_number(timestamp)) is Some
}

/// Calls `chrono::TimeZone::timestamp_opt` on `chrono::Local`, then
/// `MappedLocalTime::single` and, on a point in time,
/// `Datelike::num_days_from_ce`.
///
/// Trusted: a day is found exactly for the times that `has_utc_day` admits,
/// since `timestamp_opt` gives a single point in time wherever
/// `DateTime::from_timestamp` gives one, and that looks the UTC day up by its
/// day number with `NaiveDate::from_num_days_from_ce_opt`. The local day is
/// the UTC day, the day before it or the day after it, since a `DateTime`
/// reads its local date from its UTC date and time moved by an offset of less
/// than a day. Which of the three it is depends on the time zone of the
/// machine: nothing is claimed of that.
#[verifier::external_body]
pub(crate) fn local_day_number(timestamp: i64) -> (r: Option<i32>)
    ensures
        r is Some <==> has_utc_day(timestamp as int),
        r matches Some(number) ==> utc_day_number(timestamp as int) - 1 <= number
            <= utc_day_number(timestamp as int) + 1,
{
    match Local.timestamp_opt(timestamp, 0).single() {
        Some(time) => Some(time.num_days_from_ce()),
        None => None,
    }
}

/// Calls `chrono::Local::now` and reads the `year`, `month` and `day` of the
/// local date.
///
/// The date depends on the clock and the time zone of the machine: nothing is
/// claimed of it.
#[verifier::external_body]
pub(crate) fn local_today() -> (i32, u32, u32) {
    let now = Local::now();
    (now.year(), now.month(), now.day())
}

} // verus!
