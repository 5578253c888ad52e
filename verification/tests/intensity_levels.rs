use git_calendar::intensity::{busiest, classify, normalize, IntensityLevel};

#[test]
fn levels_at_the_quarter_boundaries() {
    // Ratios 0, 0.25, 0.5, 0.75 and 1: each boundary belongs to the level above it.
    let levels = normalize(&vec![0, 1, 2, 3, 4]);
    assert_eq!(
        levels,
        vec![
            IntensityLevel::No,
            IntensityLevel::Mid,
            IntensityLevel::High,
            IntensityLevel::VeryHigh,
            IntensityLevel::VeryHigh,
        ]
    );
}

#[test]
fn levels_on_both_sides_of_each_boundary() {
    assert_eq!(classify(0, 100), IntensityLevel::No);
    assert_eq!(classify(1, 100), IntensityLevel::Low);
    assert_eq!(classify(24, 100), IntensityLevel::Low);
    assert_eq!(classify(25, 100), IntensityLevel::Mid);
    assert_eq!(classify(49, 100), IntensityLevel::Mid);
    assert_eq!(classify(50, 100), IntensityLevel::High);
    assert_eq!(classify(74, 100), IntensityLevel::High);
    assert_eq!(classify(75, 100), IntensityLevel::VeryHigh);
    assert_eq!(classify(100, 100), IntensityLevel::VeryHigh);
}

#[test]
fn levels_where_the_maximum_is_no_multiple_of_four() {
    // 1/3 and 2/3; 1/7 ... 6/7.
    assert_eq!(classify(1, 3), IntensityLevel::Mid);
    assert_eq!(classify(2, 3), IntensityLevel::High);
    assert_eq!(classify(1, 7), IntensityLevel::Low);
    assert_eq!(classify(2, 7), IntensityLevel::Mid);
    assert_eq!(classify(3, 7), IntensityLevel::Mid);
    assert_eq!(classify(4, 7), IntensityLevel::High);
    assert_eq!(classify(5, 7), IntensityLevel::High);
    assert_eq!(classify(6, 7), IntensityLevel::VeryHigh);
    assert_eq!(classify(1, 1), IntensityLevel::VeryHigh);
    assert_eq!(classify(1, 2), IntensityLevel::High);
}

#[test]
fn levels_of_the_largest_counts() {
    assert_eq!(classify(u64::MAX, u64::MAX), IntensityLevel::VeryHigh);
    assert_eq!(classify(u64::MAX / 4, u64::MAX), IntensityLevel::Low);
    assert_eq!(classify(u64::MAX / 4 + 1, u64::MAX), IntensityLevel::Mid);
    assert_eq!(classify(u64::MAX / 2, u64::MAX), IntensityLevel::Mid);
    assert_eq!(classify(u64::MAX / 2 + 1, u64::MAX), IntensityLevel::High);
    assert_eq!(classify(1, u64::MAX), IntensityLevel::Low);
}

#[test]
fn no_level_without_a_maximum() {
    assert_eq!(classify(0, 0), IntensityLevel::No);
    assert_eq!(classify(5, 0), IntensityLevel::No);
}

#[test]
fn all_zero_buckets_have_no_level() {
    let levels = normalize(&vec![0; 371]);
    assert_eq!(levels.len(), 371);
    assert!(levels.iter().all(|&level| level == IntensityLevel::No));
    assert_eq!(normalize(&vec![0]), vec![IntensityLevel::No]);
}

#[test]
fn no_buckets_no_levels() {
    assert_eq!(normalize(&Vec::new()), Vec::<IntensityLevel>::new());
    assert_eq!(busiest(&Vec::new()), 0);
}

#[test]
fn busiest_is_the_largest_count() {
    assert_eq!(busiest(&vec![3, 9, 2, 9, 0]), 9);
    assert_eq!(busiest(&vec![7]), 7);
    assert_eq!(busiest(&vec![0, 0]), 0);
    assert_eq!(busiest(&vec![1, 2, u64::MAX]), u64::MAX);
}

#[test]
fn levels_keep_the_order_of_the_buckets() {
    let levels = normalize(&vec![8, 0, 1, 5, 2, 6, 4]);
    assert_eq!(
        levels,
        vec![
            IntensityLevel::VeryHigh,
            IntensityLevel::No,
            IntensityLevel::Low,
            IntensityLevel::High,
            IntensityLevel::Mid,
            IntensityLevel::VeryHigh,
            IntensityLevel::High,
        ]
    );
}

#[test]
fn levels_are_ordered() {
    assert!(IntensityLevel::No < IntensityLevel::Low);
    assert!(IntensityLevel::Low < IntensityLevel::Mid);
    assert!(IntensityLevel::Mid < IntensityLevel::High);
    assert!(IntensityLevel::High < IntensityLevel::VeryHigh);
    assert_eq!(IntensityLevel::No.rank(), 0);
    assert_eq!(IntensityLevel::Low.rank(), 1);
    assert_eq!(IntensityLevel::Mid.rank(), 2);
    assert_eq!(IntensityLevel::High.rank(), 3);
    assert_eq!(IntensityLevel::VeryHigh.rank(), 4);
}

#[test]
fn more_commits_never_give_a_lower_level() {
    for max in [1u64, 2, 3, 4, 5, 7, 8, 100, 101] {
        let mut last = IntensityLevel::No;
        for count in 0..=max {
            let level = classify(count, max);
            assert!(last <= level);
            last = level;
        }
        assert_eq!(last, IntensityLevel::VeryHigh);
    }
}
