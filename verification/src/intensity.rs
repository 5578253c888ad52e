//! Intensity levels: each day's count relative to the busiest day.

use vstd::prelude::*;

verus! {

/// How busy a day was, relative to the busiest day of the window.
/// The levels are ordered as written, from no commits to the most.
#[derive(Clone, Copy, Debug, PartialEq, Eq, PartialOrd, Ord, Hash, Structural)]
pub enum IntensityLevel {
    No,
    Low,
    Mid,
    High,
    VeryHigh,
}

impl IntensityLevel {
    /// Position of the level in the order of levels, from 0 to 4.
    pub open spec fn spec_rank(self) -> u8 {
        match self {
            IntensityLevel::No => 0,
            IntensityLevel::Low => 1,
            IntensityLevel::Mid => 2,
            IntensityLevel::High => 3,
            IntensityLevel::VeryHigh => 4,
        }
    }

    /// Position of the level in the order of levels, from 0 to 4.
    #[verifier::when_used_as_spec(spec_rank)]
    pub fn rank(self) -> (r: u8)
        ensures
            r == self.spec_rank(),
            r <= 4,
    {
        match self {
            IntensityLevel::No => 0,
            IntensityLevel::Low => 1,
            IntensityLevel::Mid => 2,
            IntensityLevel::High => 3,
            IntensityLevel::VeryHigh => 4,
        }
    }
}

/// The level of a day with `count` commits where the busiest day has `max`.
///
/// With `ratio` the exact quotient `count / max`: no level at ratio 0, `Low`
/// below a quarter, `Mid` from a quarter to below a half, `High` from a half
/// to below three quarters, `VeryHigh` from there on. Where `max` is 0 there
/// is no ratio, and every day has no level.
pub open spec fn level_of(count: int, max: int) -> IntensityLevel {
    if max <= 0 || count <= 0 {
        IntensityLevel::No
    } else if 4 * count < max {
        IntensityLevel::Low
    } else if 2 * count < max {
        IntensityLevel::Mid
    } else if 4 * count < 3 * max {
        IntensityLevel::High
    } else {
        IntensityLevel::VeryHigh
    }
}

/// The largest count, and 0 where there is none.
pub open spec fn max_of(buckets: Seq<u64>) -> int
    decreases buckets.len(),
{
    if buckets.len() == 0 {
        0
    } else {
        let rest = max_of(buckets.drop_last());
        if buckets.last() > rest {
            buckets.last() as int
        } else {
            rest
        }
    }
}

/// The levels of all days: each day's count against the largest count.
pub open spec fn levels_of(buckets: Seq<u64>) -> Seq<IntensityLevel> {
    Seq::new(buckets.len(), |index: int| level_of(buckets[index] as int, max_of(buckets)))
}

/// `max_of` is an upper bound of all counts, and is one of them unless there
/// are none.
pub proof fn lemma_max_of(buckets: Seq<u64>)
    ensures
        forall|i: int| 0 <= i < buckets.len() ==> buckets[i] <= max_of(buckets),
        buckets.len() == 0 ==> max_of(buckets) == 0,
        buckets.len() > 0 ==> exists|i: int| 0 <= i < buckets.len() && buckets[i] == max_of(buckets),
    decreases buckets.len(),
{
    if buckets.len() > 0 {
        let rest = buckets.drop_last();
        lemma_max_of(rest);
        assert forall|i: int| 0 <= i < buckets.len() implies buckets[i] <= max_of(buckets) by {
            if i < rest.len() {
                assert(rest[i] == buckets[i]);
            }
        }
        if buckets.last() > max_of(rest) || rest.len() == 0 {
            assert(buckets[buckets.len() - 1] == max_of(buckets));
        } else {
            let i = choose|i: int| 0 <= i < rest.len() && rest[i] == max_of(rest);
            assert(buckets[i] == max_of(buckets));
        }
    }
}

/// A day with more commits never has a lower level.
pub proof fn lemma_level_monotone(fewer: int, more: int, max: int)
    requires
        fewer <= more,
    ensures
        level_of(fewer, max).spec_rank() <= level_of(more, max).spec_rank(),
{
}

/// The busiest day has the highest level, unless it has no commits.
pub proof fn lemma_busiest_is_very_high(max: int)
    requires
        max > 0,
    ensures
        level_of(max, max) == IntensityLevel::VeryHigh,
{
}

/// Where no day has a commit, no day has a level.
pub proof fn lemma_all_zero_no_level(buckets: Seq<u64>)
    requires
        forall|i: int| 0 <= i < buckets.len() ==> buckets[i] == 0,
    ensures
        max_of(buckets) == 0,
        forall|i: int|
            0 <= i < buckets.len() ==> level_of(#[trigger] buckets[i] as int, max_of(buckets))
                == IntensityLevel::No,
{
    lemma_max_of(buckets);
}

/// The level of a day with `count` commits where the busiest day has `max`.
pub fn classify(count: u64, max: u64) -> (level: IntensityLevel)
    ensures
        level == level_of(count as int, max as int),
{
    let count: u128 = count as u128;
    let max: u128 = max as u128;
    if max == 0 || count == 0 {
        IntensityLevel::No
    } else if 4 * count < max {
        IntensityLevel::Low
    } else if 2 * count < max {
        IntensityLevel::Mid
    } else if 4 * count < 3 * max {
        IntensityLevel::High
    } else {
        IntensityLevel::VeryHigh
    }
}

/// The largest count, and 0 where there is none.
pub fn busiest(buckets: &Vec<u64>) -> (max: u64)
    ensures
        max == max_of(buckets@),
{
    let mut max: u64 = 0;
    let mut done: usize = 0;
    while done < buckets.len()
        invariant
            done <= buckets@.len(),
            max == max_of(buckets@.take(done as int)),
        decreases buckets@.len() - done,
    {
        proof {
            assert(buckets@.take(done + 1).drop_last() =~= buckets@.take(done as int));
        }
        if buckets[done] > max {
            max = buckets[done];
        }
        done += 1;
    }
    proof {
        assert(buckets@.take(done as int) =~= buckets@);
    }
    max
}

/// Gives every day its level relative to the busiest day, in the same order.
///
/// Where every count is zero, every level is `No`.
pub fn normalize(buckets: &Vec<u64>) -> (levels: Vec<IntensityLevel>)
    ensures
        levels@ == levels_of(buckets@),
        levels@.len() == buckets@.len(),
        (forall|i: int| 0 <= i < buckets@.len() ==> buckets@[i] == 0) ==> forall|i: int|
            0 <= i < levels@.len() ==> levels@[i] == IntensityLevel::No,
{
    let max: u64 = busiest(buckets);
    let mut levels: Vec<IntensityLevel> = Vec::new();
    let mut done: usize = 0;
    while done < buckets.len()
        invariant
            done <= buckets@.len(),
            max == max_of(buckets@),
            levels@.len() == done,
            forall|i: int|
                0 <= i < done ==> levels@[i] == level_of(buckets@[i] as int, max as int),
        decreases buckets@.len() - done,
    {
        levels.push(classify(buckets[done], max));
        done += 1;
    }
    proof {
        if forall|i: int| 0 <= i < buckets@.len() ==> buckets@[i] == 0 {
            lemma_all_zero_no_level(buckets@);
        }
    }
    levels
}

} // verus!
