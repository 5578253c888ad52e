//! From commit times to the lines of the calendar.

use vstd::prelude::*;
use crate::bucket::{bucketize_days, counts_of, local_days, local_days_of};
use crate::grid::{lay_out, layout_of};
use crate::intensity::{levels_of, normalize};
use crate::render::{lines_of, render, texts};
use crate::source::{parse_timestamps, timestamps_of};
use crate::window::{ReportWindow, Window};

verus! {

/// The lines of the calendar over `window` for commits on the given days:
/// the days are counted, the counts are set against the largest count, the
/// levels are laid out in week columns and the layout is written as text.
pub open spec fn report_lines(window: Window, days: Seq<i32>) -> Seq<Seq<char>> {
    let layout = layout_of(levels_of(counts_of(days, window)), window);
    lines_of(layout.month_labels, layout.cells)
}

/// Writes the calendar over `window` for commits on the given days, each
/// day given by its day number.
pub fn report_days(window: &ReportWindow, days: &Vec<i32>) -> (lines: Vec<String>)
    ensures
        texts(lines@) == report_lines(window@, days@),
{
    let buckets = bucketize_days(window, days);
    let levels = normalize(&buckets);
    let layout = lay_out(&levels, window);
    render(&layout)
}

/// Writes the calendar over `window` for the commit times that the
/// version-control tool has listed in `log_output`, one on each line.
///
/// The calendar is that of the local days of the times listed: one day for
/// each time whose day the calendar holds, each the day that the time falls
/// on in UTC or a day next to it, as the time zone of the machine has it.
/// [`report_days`] states the lines for given days.
pub fn report_log(window: &ReportWindow, log_output: &[u8]) -> (lines: Vec<String>)
    ensures
        exists|days: Seq<i32>|
            local_days_of(timestamps_of(log_output@), days) && texts(lines@)
                == #[trigger] report_lines(window@, days),
{
    let timestamps = parse_timestamps(log_output);
    let days = local_days(&timestamps);
    report_days(window, &days)
}

} // verus!
