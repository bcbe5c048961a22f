use birthdays::date::Date;
use birthdays::pipeline::{process, process_now};
use birthdays::record::Error;

const YELLOW: &str = "\u{1b}[1;33m";
const RED: &str = "\u{1b}[1;31m";
const RESET: &str = "\u{1b}[0m";

fn date(year: i32, month: u32, day: u32) -> Date {
    Date::from_ymd(year, month, day).expect("valid date")
}

fn styled(style: &str, text: &str) -> String {
    format!("{}{}{}", style, text, RESET)
}

#[test]
fn upcoming_birthday_is_yellow_bold() {
    let text = "name;surname;birthdate\nAnn;Lee;02-06-2000\n";
    let today = date(2024, 5, 28);
    let lines = process(text, &today, 7).expect("clean input");
    let expected = format!("Ann Lee {}.{}", styled(YELLOW, "2"), styled(YELLOW, "6"));
    assert_eq!(lines, vec![expected]);
}

#[test]
fn imminent_birthday_is_red_bold() {
    let text = "name;surname;birthdate\nAnn;Lee;02-06-2000\n";
    let today = date(2024, 6, 1);
    let lines = process(text, &today, 7).expect("clean input");
    let expected = format!("Ann Lee {}.{}", styled(RED, "2"), styled(RED, "6"));
    assert_eq!(lines, vec![expected]);
}

#[test]
fn empty_birthdate_is_excluded_without_error() {
    let text = "name;surname;birthdate\nBob;Stone;\n";
    let today = date(2024, 5, 28);
    let lines = process(text, &today, 7).expect("an empty date cell is no error");
    assert!(lines.is_empty());
}

#[test]
fn empty_birthdate_does_not_disturb_other_records() {
    let text = "name;surname;birthdate\nBob;Stone;\nAnn;Lee;02-06-2000\n";
    let today = date(2024, 5, 28);
    let lines = process(text, &today, 7).expect("clean input");
    assert_eq!(lines.len(), 1);
    assert!(lines[0].starts_with("Ann Lee"));
}

#[test]
fn window_boundary_is_inclusive() {
    let text = "name;surname;birthdate\nAnn;Lee;04-06-2000\n";
    let today = date(2024, 5, 28);
    let lines = process(text, &today, 7).expect("clean input");
    assert_eq!(lines.len(), 1, "a birthday exactly days ahead is included");
}

#[test]
fn one_day_past_the_window_is_excluded() {
    let text = "name;surname;birthdate\nAnn;Lee;05-06-2000\n";
    let today = date(2024, 5, 28);
    let lines = process(text, &today, 7).expect("clean input");
    assert!(lines.is_empty(), "a birthday days + 1 ahead is excluded");
}

#[test]
fn birthdays_already_past_are_excluded() {
    let text = "name;surname;birthdate\nAnn;Lee;20-05-2000\n";
    let today = date(2024, 5, 28);
    let lines = process(text, &today, 7).expect("clean input");
    assert!(lines.is_empty(), "the year-normalized date lies before today");
}

#[test]
fn running_twice_gives_identical_output() {
    let text = "name;surname;birthdate\nAnn;Lee;02-06-2000\nBob;Stone;\nCy;Faro;30-05-1990\n";
    let today = date(2024, 5, 28);
    let first = process(text, &today, 7).expect("clean input");
    let second = process(text, &today, 7).expect("clean input");
    assert_eq!(first, second);
}

#[test]
fn output_is_sorted_by_birthdate() {
    let text = "name;surname;birthdate\nAnn;Lee;02-06-2000\nCy;Faro;30-05-1990\nDee;Gold;29-05-1985\n";
    let today = date(2024, 5, 28);
    let lines = process(text, &today, 7).expect("clean input");
    assert_eq!(lines.len(), 3);
    assert!(lines[0].starts_with("Dee Gold"));
    assert!(lines[1].starts_with("Cy Faro"));
    assert!(lines[2].starts_with("Ann Lee"));
}

#[test]
fn equal_birthdates_keep_their_input_order() {
    let text = "name;surname;birthdate\nZoe;Hart;30-05-1970\nAl;Born;30-05-1990\n";
    let today = date(2024, 5, 28);
    let lines = process(text, &today, 7).expect("clean input");
    assert_eq!(lines.len(), 2);
    assert!(lines[0].starts_with("Zoe Hart"));
    assert!(lines[1].starts_with("Al Born"));
}

#[test]
fn reordered_columns_follow_the_header() {
    let text = "birthdate;name;surname\n02-06-2000;Ann;Lee\n";
    let today = date(2024, 5, 28);
    let lines = process(text, &today, 7).expect("clean input");
    assert_eq!(lines.len(), 1);
    assert!(lines[0].starts_with("Ann Lee"));
}

#[test]
fn quoted_fields_are_unquoted() {
    let text = "name;surname;birthdate\n\"Ann B\";Lee;02-06-2000\n";
    let today = date(2024, 5, 28);
    let lines = process(text, &today, 7).expect("clean input");
    assert_eq!(lines.len(), 1);
    assert!(lines[0].starts_with("Ann B Lee"));
}

#[test]
fn malformed_date_is_a_fatal_error_naming_the_row() {
    let text = "name;surname;birthdate\nAnn;Lee;02-06-2000\nBob;Stone;31-02-2000\n";
    let today = date(2024, 5, 28);
    let err = process(text, &today, 7).expect_err("February 31st is no date");
    assert!(matches!(err, Error::BadDate { row: 2 }));
}

#[test]
fn feb_29_has_no_counterpart_in_a_common_year() {
    let text = "name;surname;birthdate\nAnn;Lee;29-02-2020\n";
    let today = date(2023, 2, 20);
    let err = process(text, &today, 7).expect_err("2023 has no February 29th");
    assert!(matches!(err, Error::BadDate { row: 1 }));
}

#[test]
fn feb_29_survives_in_a_leap_year() {
    let text = "name;surname;birthdate\nAnn;Lee;29-02-2020\n";
    let today = date(2024, 2, 25);
    let lines = process(text, &today, 7).expect("2024 has a February 29th");
    assert_eq!(lines.len(), 1);
}

#[test]
fn missing_header_column_is_reported() {
    let text = "name;surname;born\nAnn;Lee;02-06-2000\n";
    let today = date(2024, 5, 28);
    let err = process(text, &today, 7).expect_err("the birthdate column is missing");
    assert!(matches!(err, Error::BadHeader));
}

#[test]
fn uneven_row_is_a_reader_error() {
    let text = "name;surname;birthdate\nAnn;Lee;02-06-2000;extra\n";
    let today = date(2024, 5, 28);
    let err = process(text, &today, 7).expect_err("four fields under a three-column header");
    assert!(matches!(err, Error::Csv(_)));
}

#[test]
fn empty_text_yields_no_lines() {
    let today = date(2024, 5, 28);
    let lines = process("", &today, 7).expect("an empty file is fine");
    assert!(lines.is_empty());
}

#[test]
fn header_only_yields_no_lines() {
    let today = date(2024, 5, 28);
    let lines = process("name;surname;birthdate\n", &today, 7).expect("no data rows is fine");
    assert!(lines.is_empty());
}

#[test]
fn zero_window_keeps_only_today() {
    let text = "name;surname;birthdate\nAnn;Lee;28-05-2000\nBob;Stone;29-05-2000\n";
    let today = date(2024, 5, 28);
    let lines = process(text, &today, 0).expect("clean input");
    assert_eq!(lines.len(), 1);
    assert!(lines[0].starts_with("Ann Lee"));
}

#[test]
fn negative_window_keeps_nothing() {
    let text = "name;surname;birthdate\nAnn;Lee;28-05-2000\n";
    let today = date(2024, 5, 28);
    let lines = process(text, &today, -1).expect("clean input");
    assert!(lines.is_empty());
}

#[test]
fn process_now_runs_against_the_clock() {
    let (today, outcome) = process_now("name;surname;birthdate\n", 7);
    assert!(Date::from_ymd(today.year, today.month, today.day).is_some());
    let lines = outcome.expect("no data rows is fine");
    assert!(lines.is_empty());
}
