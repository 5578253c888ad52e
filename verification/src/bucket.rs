//! Per-day commit counts over a reporting window.

use vstd::prelude::*;
use crate::gregorian::{has_utc_day, local_day_number, utc_day_number};
use crate::window::{ReportWindow, Window, MAX_WINDOW_DAYS};

verus! {

/// How many entries of `days` are the day `number`.
pub open spec fn occurrences(days: Seq<i32>, number: int) -> nat
    decreases days.len(),
{
    if days.len() == 0 {
        0
    } else {
        occurrences(days.drop_last(), number) + if days.last() == number {
            1nat
        } else {
            0nat
        }
    }
}

/// How many entries of `days` lie in `window`.
pub open spec fn count_within(days: Seq<i32>, window: Window) -> nat
    decreases days.len(),
{
    if days.len() == 0 {
        0
    } else {
        count_within(days.drop_last(), window) + if window.contains(days.last() as int) {
            1nat
        } else {
            0nat
        }
    }
}

/// The counts of the days of `window`, first day first: for each day, how
/// many entries of `days` are that day.
pub open spec fn counts_of(days: Seq<i32>, window: Window) -> Seq<u64> {
    Seq::new(
        window.len() as nat,
        |index: int| occurrences(days, window.start.number + index) as u64,
    )
}

/// Sum of all counts.
pub open spec fn total(buckets: Seq<u64>) -> nat
    decreases buckets.len(),
{
    if buckets.len() == 0 {
        0
    } else {
        total(buckets.drop_last()) + buckets.last() as nat
    }
}

/// Zero-filled buckets sum to zero.
pub proof fn lemma_total_of_zeros(buckets: Seq<u64>)
    requires
        forall|i: int| 0 <= i < buckets.len() ==> buckets[i] == 0,
    ensures
        total(buckets) == 0,
    decreases buckets.len(),
{
    if buckets.len() > 0 {
        lemma_total_of_zeros(buckets.drop_last());
    }
}

/// Writing `count` into one bucket changes the sum by the difference to what
/// the bucket held.
pub proof fn lemma_total_update(buckets: Seq<u64>, index: int, count: u64)
    requires
        0 <= index < buckets.len(),
    ensures
        total(buckets.update(index, count)) == total(buckets) - buckets[index] + count,
    decreases buckets.len(),
{
    let updated = buckets.update(index, count);
    if index == buckets.len() - 1 {
        assert(updated.drop_last() =~= buckets.drop_last());
    } else {
        lemma_total_update(buckets.drop_last(), index, count);
        assert(updated.drop_last() =~= buckets.drop_last().update(index, count));
    }
}

/// A day occurs at most as often as there are entries.
pub proof fn lemma_occurrences_bound(days: Seq<i32>, number: int)
    ensures
        occurrences(days, number) <= days.len(),
    decreases days.len(),
{
    if days.len() > 0 {
        lemma_occurrences_bound(days.drop_last(), number);
    }
}

/// The counts of a window sum to the number of entries that lie in the
/// window: every such entry is counted once, and no other entry is.
pub proof fn lemma_counts_total(days: Seq<i32>, window: Window)
    requires
        window.is_report_window(),
        days.len() <= u64::MAX,
    ensures
        total(counts_of(days, window)) == count_within(days, window),
    decreases days.len(),
{
    let counts = counts_of(days, window);
    if days.len() == 0 {
        lemma_total_of_zeros(counts);
    } else {
        let earlier = counts_of(days.drop_last(), window);
        lemma_counts_total(days.drop_last(), window);
        let last = window.index_of(days.last() as int);
        assert forall|index: int| 0 <= index < counts.len() implies #[trigger] counts[index]
            == if index == last {
            earlier[index] + 1
        } else {
            earlier[index] as int
        } by {
            lemma_occurrences_bound(days.drop_last(), window.start.number + index);
        }
        if window.contains(days.last() as int) {
            lemma_total_update(earlier, last, counts[last]);
            assert(counts =~= earlier.update(last, counts[last]));
        } else {
            assert(counts =~= earlier);
        }
    }
}

/// Counts, for every day of `window`, how often its day number occurs in
/// `days`. Index 0 is the first day of the window. Days outside the window
/// are passed over.
pub fn bucketize_days(window: &ReportWindow, days: &Vec<i32>) -> (buckets: Vec<u64>)
    ensures
        buckets@ == counts_of(days@, window@),
        buckets@.len() == window@.len(),
        forall|i: int|
            0 <= i < buckets@.len() ==> buckets@[i] == occurrences(
                days@,
                window@.start.number + i,
            ),
        total(buckets@) == count_within(days@, window@),
{
    let len: usize = window.len();
    let end: i64 = window.end().number() as i64;
    let mut buckets: Vec<u64> = vec![0u64; len];
    proof {
        lemma_total_of_zeros(buckets@);
    }
    let mut done: usize = 0;
    while done < days.len()
        invariant
            done <= days@.len(),
            len == window@.len(),
            len <= MAX_WINDOW_DAYS,
            end == window@.end.number,
            i32::MIN <= end <= i32::MAX,
            buckets@.len() == len,
            forall|i: int|
                0 <= i < len ==> buckets@[i] == occurrences(
                    days@.take(done as int),
                    window@.start.number + i,
                ),
            total(buckets@) == count_within(days@.take(done as int), window@),
            forall|i: int| 0 <= i < len ==> buckets@[i] <= done,
        decreases days@.len() - done,
    {
        let day: i32 = days[done];
        let back: i64 = end - day as i64;
        if 0 <= back && back < len as i64 {
            let index: usize = (len as i64 - 1 - back) as usize;
            let count: u64 = buckets[index];
            proof {
                lemma_total_update(buckets@, index as int, (count + 1) as u64);
            }
            buckets.set(index, count + 1);
        }
        proof {
            assert(days@.take(done + 1).drop_last() =~= days@.take(done as int));
        }
        done += 1;
    }
    proof {
        assert(days@.take(done as int) =~= days@);
    }
    buckets
}

/// The times among `timestamps` whose day the calendar holds, in order.
pub open spec fn dated(timestamps: Seq<i64>) -> Seq<i64>
    decreases timestamps.len(),
{
    if timestamps.len() == 0 {
        Seq::empty()
    } else if has_utc_day(timestamps.last() as int) {
        dated(timestamps.drop_last()).push(timestamps.last())
    } else {
        dated(timestamps.drop_last())
    }
}

/// Whether `days` may be the local days of `timestamps`: one day for each
/// time whose day the calendar holds, in the same order, and each the day
/// that the time falls on in UTC, the day before it or the day after it.
pub open spec fn local_days_of(timestamps: Seq<i64>, days: Seq<i32>) -> bool {
    &&& days.len() == dated(timestamps).len()
    &&& forall|i: int|
        0 <= i < days.len() ==> utc_day_number(dated(timestamps)[i] as int) - 1 <= #[trigger] days[i]
            <= utc_day_number(dated(timestamps)[i] as int) + 1
}

/// No more times are dated than there are times.
pub proof fn lemma_dated_len(timestamps: Seq<i64>)
    ensures
        dated(timestamps).len() <= timestamps.len(),
    decreases timestamps.len(),
{
    if timestamps.len() > 0 {
        lemma_dated_len(timestamps.drop_last());
    }
}

/// The local calendar days, as day numbers, of the given commit times in
/// seconds since the Unix epoch, in the same order. A time whose day the
/// calendar does not hold is passed over.
///
/// Every other time gives one day: the day that it falls on in UTC or a day
/// next to it, as the time zone of the machine has it.
pub fn local_days(timestamps: &Vec<i64>) -> (days: Vec<i32>)
    ensures
        local_days_of(timestamps@, days@),
        days@.len() <= timestamps@.len(),
{
    let mut days: Vec<i32> = Vec::new();
    let mut done: usize = 0;
    while done < timestamps.len()
        invariant
            done <= timestamps@.len(),
            local_days_of(timestamps@.take(done as int), days@),
        decreases timestamps@.len() - done,
    {
        proof {
            assert(timestamps@.take(done + 1).drop_last() =~= timestamps@.take(done as int));
        }
        match local_day_number(timestamps[done]) {
            Some(number) => {
                days.push(number);
            },
            None => {},
        }
        done += 1;
    }
    proof {
        assert(timestamps@.take(done as int) =~= timestamps@);
        lemma_dated_len(timestamps@);
    }
    days
}

/// At most as many entries lie in a window as there are entries.
pub proof fn lemma_count_within_bound(days: Seq<i32>, window: Window)
    ensures
        count_within(days, window) <= days.len(),
    decreases days.len(),
{
    if days.len() > 0 {
        lemma_count_within_bound(days.drop_last(), window);
    }
}

/// Counts the commits of each day of `window` from commit times in seconds
/// since the Unix epoch, each taken on its local calendar day.
///
/// The counts are those of the local days of the times: one day for each time
/// whose day the calendar holds, each the day that the time falls on in UTC
/// or a day next to it, as the time zone of the machine has it. Their sum is
/// the number of those days that lie in the window.
pub fn bucketize(window: &ReportWindow, timestamps: &Vec<i64>) -> (buckets: Vec<u64>)
    ensures
        exists|days: Seq<i32>|
            local_days_of(timestamps@, days) && buckets@ == #[trigger] counts_of(days, window@)
                && total(buckets@) == count_within(days, window@),
        buckets@.len() == window@.len(),
        total(buckets@) <= timestamps@.len(),
{
    let days: Vec<i32> = local_days(timestamps);
    proof {
        lemma_count_within_bound(days@, window@);
    }
    bucketize_days(window, &days)
}

} // verus!
