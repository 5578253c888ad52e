//! The reporting window: the trailing year, extended back to a week boundary.

use vstd::prelude::*;
use crate::gregorian::date_numbers;
use crate::calendar::{date_from_number, date_from_ymd, days_from_monday, CalendarDay, Date};

verus! {

/// Fewest days a reporting window holds.
pub const MIN_WINDOW_DAYS: usize = 367;

/// Most days a reporting window holds.
pub const MAX_WINDOW_DAYS: usize = 374;

/// The day number of the last Sunday strictly before the day `number`:
/// that day moved back by one more than its distance from Monday.
pub open spec fn week_start_before(number: int) -> int {
    number - ((number - 1) % 7 + 1)
}

/// The mathematical value of a [`ReportWindow`].
pub struct Window {
    pub start: Date,
    pub end: Date,
}

impl Window {
    /// Number of days from `start` to `end`, both counted.
    pub open spec fn len(self) -> int {
        self.end.number - self.start.number + 1
    }

    /// Number of week columns that the window touches.
    pub open spec fn weeks(self) -> int {
        (self.len() + 6) / 7
    }

    /// Whether the day `number` lies in the window.
    pub open spec fn contains(self, number: int) -> bool {
        self.start.number <= number <= self.end.number
    }

    /// Index of the day `number`, counted from the first day of the window.
    pub open spec fn index_of(self, number: int) -> int {
        number - self.start.number
    }

    /// Both ends are calendar days, the first day is a Sunday, and the window
    /// spans a year and the days back to that Sunday.
    pub open spec fn is_report_window(self) -> bool {
        &&& self.start.is_calendar_day()
        &&& self.end.is_calendar_day()
        &&& self.start.weekday_index() == 0
        &&& MIN_WINDOW_DAYS <= self.len() <= MAX_WINDOW_DAYS
    }
}

/// The window from `start` to `end`, where that is a reporting window.
pub open spec fn window_between(start: Date, end: Date) -> Option<Window> {
    let window = Window { start, end };
    if window.is_report_window() {
        Some(window)
    } else {
        None
    }
}

/// The day one year before `now`: the day with the same month and day in
/// the year before, and 28 February for 29 February, which the year before
/// a leap year does not have. There is none where the calendar does not
/// reach back that far.
pub open spec fn year_before_of(now: Date) -> Option<Date> {
    if now.year - 1 < i32::MIN {
        None
    } else if now.month == 2 && now.day == 29 {
        date_from_ymd(now.year - 1, 2, 28)
    } else {
        date_from_ymd(now.year - 1, now.month, now.day)
    }
}

/// The reporting window that ends on `now`.
///
/// It starts on the last Sunday strictly before the day one year before
/// `now`. There is none where the calendar does not reach back to that day
/// or to that Sunday, nor where the days from that Sunday to `now` are not a
/// year and up to a week.
pub open spec fn window_of(now: Date) -> Option<Window> {
    match year_before_of(now) {
        None => None,
        Some(year_ago) => {
            let first = week_start_before(year_ago.number);
            if first < i32::MIN {
                None
            } else {
                match date_from_number(first) {
                    None => None,
                    Some(start) => window_between(start, now),
                }
            }
        },
    }
}

/// A reporting window: a first day, always a Sunday, and a last day.
#[derive(Clone, Copy, Debug, PartialEq, Eq, Structural)]
pub struct ReportWindow {
    start: CalendarDay,
    end: CalendarDay,
}

impl View for ReportWindow {
    type V = Window;

    closed spec fn view(&self) -> Window {
        Window { start: self.start@, end: self.end@ }
    }
}

impl ReportWindow {
    #[verifier::type_invariant]
    pub(crate) open spec fn well_formed(self) -> bool {
        self@.is_report_window()
    }

    /// The window from `start` to `end`, where `start` is a Sunday and the
    /// number of days, both ends counted, is one that a reporting window has.
    pub fn new(start: CalendarDay, end: CalendarDay) -> (r: Option<ReportWindow>)
        ensures
            match r {
                Some(w) => window_between(start@, end@) == Some(w@) && w@.is_report_window(),
                None => window_between(start@, end@) is None,
            },
            r is Some <==> start@.weekday_index() == 0 && MIN_WINDOW_DAYS <= end@.number
                - start@.number + 1 <= MAX_WINDOW_DAYS,
    {
        proof {
            use_type_invariant(&start);
            use_type_invariant(&end);
        }
        let days: i64 = end.number() as i64 - start.number() as i64 + 1;
        if start.weekday_index() == 0 && MIN_WINDOW_DAYS as i64 <= days && days
            <= MAX_WINDOW_DAYS as i64 {
            Some(ReportWindow { start, end })
        } else {
            None
        }
    }

    /// First day of the window.
    pub fn start(&self) -> (r: CalendarDay)
        ensures
            r@ == self@.start,
    {
        self.start
    }

    /// Last day of the window.
    pub fn end(&self) -> (r: CalendarDay)
        ensures
            r@ == self@.end,
    {
        self.end
    }

    /// Number of days in the window.
    pub fn len(&self) -> (r: usize)
        ensures
            r == self@.len(),
            MIN_WINDOW_DAYS <= r <= MAX_WINDOW_DAYS,
    {
        proof {
            use_type_invariant(self);
        }
        let days: i64 = self.end.number() as i64 - self.start.number() as i64 + 1;
        days as usize
    }

    /// Number of week columns that the window touches.
    pub fn weeks(&self) -> (r: usize)
        ensures
            r == self@.weeks(),
            53 <= r <= 54,
    {
        (self.len() + 6) / 7
    }

    /// Index of the day `number` in the window, 0 for the first day; none
    /// for a day outside the window.
    pub fn index_of(&self, number: i32) -> (r: Option<usize>)
        ensures
            r == if self@.contains(number as int) {
                Some(self@.index_of(number as int) as usize)
            } else {
                None
            },
    {
        proof {
            use_type_invariant(self);
        }
        let offset: i64 = number as i64 - self.start.number() as i64;
        if 0 <= offset && offset < self.len() as i64 {
            Some(offset as usize)
        } else {
            None
        }
    }

    /// The day with index `index` in the window; none from the length of the
    /// window on.
    pub fn day_at(&self, index: usize) -> (r: Option<CalendarDay>)
        ensures
            match r {
                Some(day) => index < self@.len() && day@.is_calendar_day() && date_from_number(
                    self@.start.number + index,
                ) == Some(day@),
                None => index >= self@.len() || date_from_number(self@.start.number + index)
                    is None,
            },
            r matches Some(day) ==> day@.number == self@.start.number + index,
    {
        proof {
            use_type_invariant(self);
        }
        if index < self.len() {
            let number: i64 = self.start.number() as i64 + index as i64;
            CalendarDay::from_number(number as i32)
        } else {
            None
        }
    }
}

/// The day number of the last Sunday strictly before the day `number`;
/// none where no day number of 32 bits is that small.
pub fn sunday_before(number: i32) -> (r: Option<i32>)
    ensures
        r == if week_start_before(number as int) >= i32::MIN {
            Some(week_start_before(number as int) as i32)
        } else {
            None
        },
{
    let first: i64 = number as i64 - (days_from_monday(number) as i64 + 1);
    if first < i32::MIN as i64 {
        None
    } else {
        Some(first as i32)
    }
}

/// The day one year before `now`: the day with the same month and day in
/// the year before, and 28 February for 29 February.
pub fn year_before(now: CalendarDay) -> (r: Option<CalendarDay>)
    ensures
        match r {
            Some(day) => year_before_of(now@) == Some(day@) && day@.is_calendar_day(),
            None => year_before_of(now@) is None,
        },
{
    let year: i32 = match now.year().checked_sub(1) {
        Some(year) => year,
        None => {
            return None;
        },
    };
    if now.month() == 2 && now.day() == 29 {
        CalendarDay::from_ymd(year, 2, 28)
    } else {
        CalendarDay::from_ymd(year, now.month(), now.day())
    }
}

/// Computes the reporting window that ends on `now`.
///
/// The first day of every window returned is a Sunday.
pub fn compute_window(now: CalendarDay) -> (r: Option<ReportWindow>)
    ensures
        match r {
            Some(w) => window_of(now@) == Some(w@) && w@.is_report_window(),
            None => window_of(now@) is None,
        },
        r matches Some(w) ==> w@.end == now@ && w@.start.weekday_index() == 0,
{
    let year_ago: CalendarDay = match year_before(now) {
        Some(day) => day,
        None => {
            return None;
        },
    };
    let first: i32 = match sunday_before(year_ago.number()) {
        Some(first) => first,
        None => {
            return None;
        },
    };
    match CalendarDay::from_number(first) {
        Some(start) => ReportWindow::new(start, now),
        None => None,
    }
}

/// The day found by `week_start_before` is a Sunday, and lies one to seven
/// days before the day it was asked for.
pub proof fn lemma_week_start_before(number: int)
    ensures
        week_start_before(number) % 7 == 0,
        number - 7 <= week_start_before(number) < number,
{
}

/// Every reporting window that ends on some day starts on a Sunday, which
/// `chrono` too holds to be six days after Monday; it ends on that day, and
/// starts on the last Sunday strictly before the day one year earlier.
pub proof fn lemma_window_of(now: Date)
    requires
        window_of(now) is Some,
    ensures
        ({
            let window = window_of(now)->Some_0;
            let start = window.start;
            let year_ago = year_before_of(now);
            &&& window.is_report_window()
            &&& window.end == now
            &&& start.weekday_index() == 0
            &&& date_numbers(start.year, start.month, start.day) == Some((start.number, 6int))
            &&& year_ago is Some
            &&& start.number == week_start_before(year_ago->Some_0.number)
            &&& year_ago->Some_0.number - 7 <= start.number < year_ago->Some_0.number
        }),
{
}

} // verus!
