//! Calendar days: a civil date together with its day number.
//!
//! The day number is the count of days in the proleptic Gregorian calendar in
//! which 0001-01-01 is day 1. That day is a Monday, so every day number that
//! is a multiple of seven is a Sunday. All date arithmetic of this crate is
//! integer arithmetic on day numbers; the conversions between civil dates and
//! day numbers are `chrono`'s.
//!
//! A [`CalendarDay`] is only made where `chrono`'s answers agree with each
//! other and with that arithmetic: the day of the week that it gives a date
//! is the one that the day number has, and the civil date that it gives a
//! day number leads back to that number.

use vstd::prelude::*;
use crate::gregorian::{
    chrono_civil_date, chrono_date_numbers, civil_date, date_numbers, local_today,
};

verus! {

/// The mathematical value of a [`CalendarDay`].
pub struct Date {
    pub year: int,
    pub month: int,
    pub day: int,
    pub number: int,
}

impl Date {
    /// The civil date has this day number and, as a day of the week, the
    /// one that the day number has; and the fields fit the machine types
    /// that hold them.
    pub open spec fn is_calendar_day(self) -> bool {
        &&& date_numbers(self.year, self.month, self.day) == Some(
            (self.number, self.days_from_monday()),
        )
        &&& i32::MIN <= self.year <= i32::MAX
        &&& i32::MIN <= self.number <= i32::MAX
        &&& 1 <= self.month <= 12
        &&& 1 <= self.day <= 31
    }

    /// Position in the week, counted from Sunday: 0 for Sunday, 6 for Saturday.
    pub open spec fn weekday_index(self) -> int {
        self.number % 7
    }

    /// Days since the Monday on or before this day: 0 for Monday, 6 for Sunday.
    pub open spec fn days_from_monday(self) -> int {
        (self.number - 1) % 7
    }
}

/// The calendar day with the civil date `year`-`month`-`day`, where there
/// is one, and its day of the week is the one that its day number has.
pub open spec fn date_from_ymd(year: int, month: int, day: int) -> Option<Date> {
    match date_numbers(year, month, day) {
        Some((number, weekday)) => {
            let date = Date { year, month, day, number };
            if weekday == date.days_from_monday() {
                Some(date)
            } else {
                None
            }
        },
        None => None,
    }
}

/// The calendar day with the day number `number`, where there is one whose
/// civil date leads back to that number.
pub open spec fn date_from_number(number: int) -> Option<Date> {
    match civil_date(number) {
        Some((year, month, day)) => match date_from_ymd(year, month, day) {
            Some(date) => if date.number == number {
                Some(date)
            } else {
                None
            },
            None => None,
        },
        None => None,
    }
}

/// A day of the proleptic Gregorian calendar.
#[derive(Clone, Copy, Debug, PartialEq, Eq, Structural)]
pub struct CalendarDay {
    year: i32,
    month: u32,
    day: u32,
    number: i32,
}

impl View for CalendarDay {
    type V = Date;

    closed spec fn view(&self) -> Date {
        Date {
            year: self.year as int,
            month: self.month as int,
            day: self.day as int,
            number: self.number as int,
        }
    }
}

impl CalendarDay {
    #[verifier::type_invariant]
    pub(crate) open spec fn well_formed(self) -> bool {
        self@.is_calendar_day()
    }

    /// The day with the given civil date, or `None` where the calendar has no
    /// such date.
    pub fn from_ymd(year: i32, month: u32, day: u32) -> (r: Option<CalendarDay>)
        ensures
            match r {
                Some(d) => date_from_ymd(year as int, month as int, day as int) == Some(d@)
                    && d@.is_calendar_day(),
                None => date_from_ymd(year as int, month as int, day as int) is None,
            },
    {
        match chrono_date_numbers(year, month, day) {
            Some((number, weekday)) => if weekday == days_from_monday(number) {
                Some(CalendarDay { year, month, day, number })
            } else {
                None
            },
            None => None,
        }
    }

    /// The day with the given day number, or `None` where the calendar does
    /// not reach that far. The civil date found is converted back, and the day
    /// is only returned where that gives the same number again.
    pub fn from_number(number: i32) -> (r: Option<CalendarDay>)
        ensures
            match r {
                Some(d) => date_from_number(number as int) == Some(d@) && d@.is_calendar_day(),
                None => date_from_number(number as int) is None,
            },
    {
        match chrono_civil_date(number) {
            Some((year, month, day)) => match CalendarDay::from_ymd(year, month, day) {
                Some(found) => if found.number == number {
                    Some(found)
                } else {
                    None
                },
                None => None,
            },
            None => None,
        }
    }

    /// The current local day, as the machine's clock and time zone give it.
    pub fn today() -> (r: Option<CalendarDay>)
        ensures
            r matches Some(d) ==> d@.is_calendar_day(),
    {
        let (year, month, day) = local_today();
        CalendarDay::from_ymd(year, month, day)
    }

    /// The year of the civil date.
    pub fn year(&self) -> (r: i32)
        ensures
            r == self@.year,
    {
        self.year
    }

    /// The month of the civil date, from 1 to 12.
    pub fn month(&self) -> (r: u32)
        ensures
            r == self@.month,
            1 <= r <= 12,
    {
        proof {
            use_type_invariant(self);
        }
        self.month
    }

    /// The day of the month, from 1 to 31.
    pub fn day(&self) -> (r: u32)
        ensures
            r == self@.day,
            1 <= r <= 31,
    {
        proof {
            use_type_invariant(self);
        }
        self.day
    }

    /// The day number.
    pub fn number(&self) -> (r: i32)
        ensures
            r == self@.number,
    {
        self.number
    }

    /// Position in the week, counted from Sunday.
    pub fn weekday_index(&self) -> (r: u32)
        ensures
            r == self@.weekday_index(),
            r < 7,
    {
        let since_monday: u32 = days_from_monday(self.number);
        if since_monday == 6 {
            0
        } else {
            since_monday + 1
        }
    }

    /// Days since the Monday on or before this day.
    pub fn days_from_monday(&self) -> (r: u32)
        ensures
            r == self@.days_from_monday(),
            r < 7,
    {
        days_from_monday(self.number)
    }
}

/// Days from the Monday on or before the day `number` to that day.
pub fn days_from_monday(number: i32) -> (r: u32)
    ensures
        r == (number - 1) % 7,
        r < 7,
{
    let remainder: i64 = (number as i64 - 1) % 7;
    if remainder < 0 {
        (remainder + 7) as u32
    } else {
        remainder as u32
    }
}

} // verus!
