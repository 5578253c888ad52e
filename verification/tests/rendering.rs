use git_calendar::calendar::CalendarDay;
use git_calendar::grid::lay_out;
use git_calendar::intensity::IntensityLevel;
use git_calendar::render::{
    cell_string, color_code, decimal_string, month_line_string, month_name, render, row_string,
    weekday_label,
};
use git_calendar::window::{compute_window, ReportWindow};

fn window_ending(year: i32, month: u32, day: u32) -> ReportWindow {
    compute_window(CalendarDay::from_ymd(year, month, day).unwrap()).unwrap()
}

#[test]
fn colors_of_the_levels() {
    assert_eq!(color_code(IntensityLevel::No), 237);
    assert_eq!(color_code(IntensityLevel::Low), 139);
    assert_eq!(color_code(IntensityLevel::Mid), 40);
    assert_eq!(color_code(IntensityLevel::High), 190);
    assert_eq!(color_code(IntensityLevel::VeryHigh), 1);
}

#[test]
fn numbers_in_base_ten() {
    for number in 0..=255u8 {
        assert_eq!(decimal_string(number), format!("{}", number));
    }
}

#[test]
fn squares_of_the_levels() {
    assert_eq!(cell_string(IntensityLevel::No), "\x1b[38;5;237m\u{25fc} \x1b[0m");
    assert_eq!(cell_string(IntensityLevel::Low), "\x1b[38;5;139m\u{25fc} \x1b[0m");
    assert_eq!(cell_string(IntensityLevel::Mid), "\x1b[38;5;40m\u{25fc} \x1b[0m");
    assert_eq!(cell_string(IntensityLevel::High), "\x1b[38;5;190m\u{25fc} \x1b[0m");
    assert_eq!(cell_string(IntensityLevel::VeryHigh), "\x1b[38;5;1m\u{25fc} \x1b[0m");
}

#[test]
fn labels_of_the_rows() {
    let labels: Vec<&str> = (0..7).map(weekday_label).collect();
    assert_eq!(labels, vec!["    ", "Mon ", "    ", "Wed ", "    ", "Fri ", "    "]);
    assert_eq!(weekday_label(7), "    ");
}

#[test]
fn names_of_the_months() {
    let names: Vec<&str> = (1..=12).map(month_name).collect();
    assert_eq!(
        names,
        vec!["Jan", "Feb", "Mar", "Apr", "May", "Jun", "Jul", "Aug", "Sep", "Oct", "Nov", "Dec"]
    );
}

#[test]
fn row_shows_the_days_it_has() {
    let row = vec![Some(IntensityLevel::No), None, Some(IntensityLevel::VeryHigh)];
    assert_eq!(
        row_string(1, &row),
        "Mon \x1b[38;5;237m\u{25fc} \x1b[0m\x1b[38;5;1m\u{25fc} \x1b[0m"
    );
    assert_eq!(row_string(0, &Vec::new()), "    ");
    assert_eq!(row_string(5, &vec![None, None]), "Fri ");
}

#[test]
fn month_line_of_a_window_that_starts_in_the_second_week() {
    let layout = lay_out(&Vec::new(), &window_ending(2024, 3, 15));
    assert_eq!(
        month_line_string(&layout),
        "      Mar      Apr      May      Jun      Jul      Aug      Sep      Oct      Nov      Dec      Jan      Feb"
    );
}

#[test]
fn month_line_of_a_window_that_starts_in_the_first_week() {
    let window = window_ending(2024, 1, 3);
    assert_eq!((window.start().month(), window.start().day()), (1, 1));
    let layout = lay_out(&Vec::new(), &window);
    assert_eq!(
        month_line_string(&layout),
        "       Jan      Feb      Mar      Apr      May      Jun      Jul      Aug      Sep      Oct      Nov      Dec"
    );
}

#[test]
fn month_line_of_a_window_that_starts_late_in_the_month() {
    let window = window_ending(2024, 1, 1);
    assert_eq!((window.start().month(), window.start().day()), (12, 25));
    let layout = lay_out(&Vec::new(), &window);
    assert_eq!(
        month_line_string(&layout),
        "    Dec      Jan      Feb      Mar      Apr      May      Jun      Jul      Aug      Sep      Oct      Nov"
    );
    let window = window_ending(2024, 2, 1);
    assert_eq!((window.start().month(), window.start().day()), (1, 29));
    let layout = lay_out(&Vec::new(), &window);
    assert_eq!(
        month_line_string(&layout),
        "    Jan      Feb      Mar      Apr      May      Jun      Jul      Aug      Sep      Oct      Nov      Dec"
    );
}

#[test]
fn calendar_has_a_month_line_and_seven_rows() {
    let window = window_ending(2024, 3, 15);
    let mut levels = vec![IntensityLevel::No; window.len()];
    levels[0] = IntensityLevel::Low;
    levels[8] = IntensityLevel::High;
    levels[369] = IntensityLevel::VeryHigh;
    let layout = lay_out(&levels, &window);
    let lines = render(&layout);
    assert_eq!(lines.len(), 8);
    assert_eq!(lines[0], month_line_string(&layout));
    let square = |code: u32| format!("\x1b[38;5;{}m\u{25fc} \x1b[0m", code);
    let labels = ["    ", "Mon ", "    ", "Wed ", "    ", "Fri ", "    "];
    for weekday in 0..7 {
        let mut expected = String::from(labels[weekday]);
        for week in 0..53 {
            let index = weekday + week * 7;
            if index >= 370 {
                continue;
            }
            expected.push_str(&square(match index {
                0 => 139,
                8 => 190,
                369 => 1,
                _ => 237,
            }));
        }
        assert_eq!(lines[weekday + 1], expected);
    }
    assert!(lines[1].starts_with("    \x1b[38;5;139m"));
    assert!(lines[2].starts_with("Mon \x1b[38;5;237m\u{25fc} \x1b[0m\x1b[38;5;190m"));
    assert!(lines[6].ends_with("\x1b[38;5;1m\u{25fc} \x1b[0m"));
}
