use git_calendar::source::{parse_number, parse_timestamps, GitCalendar};

fn by_the_standard_library(text: &str) -> Vec<i64> {
    text.lines().filter_map(|line| line.parse::<i64>().ok()).collect()
}

#[test]
fn one_time_on_each_line() {
    assert_eq!(
        parse_timestamps(b"1700000000\n1700086400\n1699990000\n"),
        vec![1700000000, 1700086400, 1699990000]
    );
    assert_eq!(parse_timestamps(b"1700000000\n1700086400"), vec![1700000000, 1700086400]);
    assert_eq!(parse_timestamps(b"42"), vec![42]);
}

#[test]
fn no_text_no_times() {
    assert_eq!(parse_timestamps(b""), Vec::<i64>::new());
    assert_eq!(parse_timestamps(b"\n"), Vec::<i64>::new());
    assert_eq!(parse_timestamps(b"\n\n\n"), Vec::<i64>::new());
}

#[test]
fn lines_that_hold_no_number_are_passed_over() {
    assert_eq!(parse_timestamps(b"12\nabc\n\n 13\n14 \n1 5\n16\n"), vec![12, 16]);
    assert_eq!(parse_timestamps(b"fatal: not a repository\n"), Vec::<i64>::new());
    assert_eq!(parse_timestamps(b"0x10\n1e3\n1.5\n1_000\n7\n"), vec![7]);
    assert_eq!(parse_timestamps(b"+\n-\n+-1\n--1\n1-\n\n8\n"), vec![8]);
}

#[test]
fn signs_are_read() {
    assert_eq!(parse_timestamps(b"+5\n-5\n-0\n+0\n007\n"), vec![5, -5, 0, 0, 7]);
}

#[test]
fn line_endings_with_carriage_return() {
    assert_eq!(parse_timestamps(b"1\r\n2\r\n3"), vec![1, 2, 3]);
    // A carriage return belongs to the line ending only before a line feed.
    assert_eq!(parse_timestamps(b"1\r\n2\r"), vec![1]);
    assert_eq!(parse_timestamps(b"1\r\r\n2\n"), vec![2]);
    assert_eq!(parse_timestamps(b"\r\n5\n"), vec![5]);
}

#[test]
fn numbers_up_to_the_limits_of_64_bits() {
    assert_eq!(
        parse_timestamps(b"9223372036854775807\n-9223372036854775808\n"),
        vec![i64::MAX, i64::MIN]
    );
    assert_eq!(
        parse_timestamps(b"9223372036854775808\n-9223372036854775809\n1\n"),
        vec![1]
    );
    assert_eq!(
        parse_timestamps(b"99999999999999999999999999999999999999999999999999999999\n2\n"),
        vec![2]
    );
    assert_eq!(
        parse_timestamps(b"0000000000000000000000000000000000000009223372036854775807\n"),
        vec![i64::MAX]
    );
    assert_eq!(parse_timestamps(b"92233720368547758070\n3\n"), vec![3]);
    assert_eq!(parse_timestamps(b"9223372036854775808x\n"), Vec::<i64>::new());
}

#[test]
fn reads_what_the_standard_library_reads() {
    let texts = [
        "",
        "\n",
        "1",
        "1\n",
        "1\n\n2",
        "1\r\n2\r\n",
        "1\r",
        "\r",
        "\r\n",
        "1\n2\r",
        "+1\n-1\n+\n-\n",
        " 1\n1 \n",
        "9223372036854775807\n9223372036854775808\n-9223372036854775808\n-9223372036854775809",
        "18446744073709551616\n184467440737095516160\n",
        "1700000000\n1700000001\nx\n1700000002",
        "12a\na12\n1a2\n",
        "1\n\r\n2\n\r3\n4\r\r\n",
    ];
    for text in texts {
        assert_eq!(parse_timestamps(text.as_bytes()), by_the_standard_library(text), "{:?}", text);
    }
}

#[test]
fn number_between_two_positions() {
    let text = b"ab123cd";
    assert_eq!(parse_number(text, 2, 5), Some(123));
    assert_eq!(parse_number(text, 2, 4), Some(12));
    assert_eq!(parse_number(text, 2, 2), None);
    assert_eq!(parse_number(text, 1, 5), None);
    assert_eq!(parse_number(text, 2, 6), None);
    assert_eq!(parse_number(b"-17", 0, 3), Some(-17));
    assert_eq!(parse_number(b"-", 0, 1), None);
}

#[test]
fn bytes_that_are_no_text_are_no_number() {
    assert_eq!(parse_timestamps(&[0xff, 0xfe, b'\n', b'7', b'\n', 0x80]), vec![7]);
}

#[test]
fn arguments_for_all_authors() {
    let calendar = GitCalendar { author: None };
    assert_eq!(
        calendar.log_arguments(),
        vec!["log", "--no-merges", "--pretty=format:%at", "--since=13 months"]
    );
}

#[test]
fn arguments_for_one_author() {
    let calendar = GitCalendar { author: Some(String::from("Ada Lovelace")) };
    assert_eq!(
        calendar.log_arguments(),
        vec![
            "log",
            "--no-merges",
            "--pretty=format:%at",
            "--since=13 months",
            "--author=Ada Lovelace",
        ]
    );
    let calendar = GitCalendar { author: Some(String::new()) };
    assert_eq!(calendar.log_arguments()[4], "--author=");
}
