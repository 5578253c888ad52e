use chrono::{Datelike, Local, NaiveDate};
use git_calendar::calendar::CalendarDay;

#[test]
fn from_ymd_gives_the_day_number() {
    let day = CalendarDay::from_ymd(1970, 1, 1).unwrap();
    assert_eq!(day.number(), 719_163);
    assert_eq!(day.year(), 1970);
    assert_eq!(day.month(), 1);
    assert_eq!(day.day(), 1);
    assert_eq!(CalendarDay::from_ymd(1, 1, 1).unwrap().number(), 1);
    assert_eq!(CalendarDay::from_ymd(0, 12, 31).unwrap().number(), 0);
}

#[test]
fn from_ymd_refuses_days_that_do_not_exist() {
    assert!(CalendarDay::from_ymd(2023, 2, 29).is_none());
    assert!(CalendarDay::from_ymd(2024, 2, 29).is_some());
    assert!(CalendarDay::from_ymd(2100, 2, 29).is_none());
    assert!(CalendarDay::from_ymd(2000, 2, 29).is_some());
    assert!(CalendarDay::from_ymd(2023, 4, 31).is_none());
    assert!(CalendarDay::from_ymd(2023, 0, 10).is_none());
    assert!(CalendarDay::from_ymd(2023, 13, 10).is_none());
    assert!(CalendarDay::from_ymd(2023, 5, 0).is_none());
    assert!(CalendarDay::from_ymd(400_000, 1, 1).is_none());
    assert!(CalendarDay::from_ymd(i32::MIN, 1, 1).is_none());
}

#[test]
fn from_number_gives_the_civil_date() {
    let day = CalendarDay::from_number(730_000).unwrap();
    assert_eq!((day.year(), day.month(), day.day()), (1999, 9, 3));
    assert_eq!(day.number(), 730_000);
    let day = CalendarDay::from_number(-1).unwrap();
    assert_eq!((day.year(), day.month(), day.day()), (0, 12, 30));
    assert!(CalendarDay::from_number(100_000_000).is_none());
    assert!(CalendarDay::from_number(-100_000_000).is_none());
    assert!(CalendarDay::from_number(i32::MAX).is_none());
    assert!(CalendarDay::from_number(i32::MIN).is_none());
}

#[test]
fn number_and_civil_date_lead_back_to_each_other() {
    let first = CalendarDay::from_ymd(2019, 1, 1).unwrap().number();
    for number in first..first + 3000 {
        let day = CalendarDay::from_number(number).unwrap();
        let again = CalendarDay::from_ymd(day.year(), day.month(), day.day()).unwrap();
        assert_eq!(again, day);
        assert_eq!(again.number(), number);
    }
}

#[test]
fn weekday_index_counts_from_sunday() {
    // 2023-03-12 was a Sunday.
    let sunday = CalendarDay::from_ymd(2023, 3, 12).unwrap();
    assert_eq!(sunday.weekday_index(), 0);
    assert_eq!(sunday.days_from_monday(), 6);
    let monday = CalendarDay::from_ymd(2023, 3, 13).unwrap();
    assert_eq!(monday.weekday_index(), 1);
    assert_eq!(monday.days_from_monday(), 0);
    let saturday = CalendarDay::from_ymd(2023, 3, 18).unwrap();
    assert_eq!(saturday.weekday_index(), 6);
    assert_eq!(saturday.days_from_monday(), 5);
}

#[test]
fn weekday_index_agrees_with_chrono() {
    for number in (-800_000..800_000).step_by(37) {
        let day = CalendarDay::from_number(number).unwrap();
        let date = NaiveDate::from_num_days_from_ce_opt(number).unwrap();
        assert_eq!(day.weekday_index(), date.weekday().num_days_from_sunday());
        assert_eq!(day.days_from_monday(), date.weekday().num_days_from_monday());
    }
    let first = CalendarDay::from_ymd(2015, 1, 1).unwrap().number();
    for number in first..first + 6000 {
        let day = CalendarDay::from_number(number).unwrap();
        let date = NaiveDate::from_ymd_opt(day.year(), day.month(), day.day()).unwrap();
        assert_eq!(day.weekday_index(), date.weekday().num_days_from_sunday());
    }
}

#[test]
fn weekday_index_of_days_before_the_common_era() {
    // Day 0 is the Sunday before Monday 0001-01-01.
    assert_eq!(CalendarDay::from_number(0).unwrap().weekday_index(), 0);
    assert_eq!(CalendarDay::from_number(-1).unwrap().weekday_index(), 6);
    assert_eq!(CalendarDay::from_number(-7).unwrap().weekday_index(), 0);
    assert_eq!(CalendarDay::from_number(-8).unwrap().days_from_monday(), 5);
}

#[test]
fn today_is_the_local_date() {
    let before = Local::now().date_naive();
    let today = CalendarDay::today().unwrap();
    let after = Local::now().date_naive();
    let number = today.number();
    assert!(before.num_days_from_ce() <= number && number <= after.num_days_from_ce());
    let date = NaiveDate::from_ymd_opt(today.year(), today.month(), today.day()).unwrap();
    assert_eq!(date.num_days_from_ce(), number);
}
