use birthdays::date::{is_leap_year, Date};
use birthdays::filter::filter_records;
use birthdays::numeral::numeral;
use birthdays::parse::deserialize;
use birthdays::pipeline::parse_row;
use birthdays::record::{Error, Record};
use birthdays::render::render_record;
use birthdays::sort::sort_records;

fn date(year: i32, month: u32, day: u32) -> Date {
    Date::from_ymd(year, month, day).expect("valid date")
}

fn person(name: &str, surname: &str, birthdate: Option<Date>) -> Record {
    Record { name: name.to_string(), surname: surname.to_string(), birthdate }
}

#[test]
fn leap_years_follow_the_gregorian_rule() {
    assert!(is_leap_year(2024));
    assert!(!is_leap_year(2023));
    assert!(!is_leap_year(1900));
    assert!(is_leap_year(2000));
    assert!(is_leap_year(0));
    assert!(!is_leap_year(-1));
    assert!(is_leap_year(-4));
}

#[test]
fn day_of_year_counts_from_one() {
    assert_eq!(date(2023, 1, 1).day_of_year(), 1);
    assert_eq!(date(2023, 12, 31).day_of_year(), 365);
    assert_eq!(date(2024, 12, 31).day_of_year(), 366);
    assert_eq!(date(2024, 3, 1).day_of_year(), 61);
    assert_eq!(date(2023, 3, 1).day_of_year(), 60);
}

#[test]
fn from_ymd_rejects_imaginary_dates() {
    assert!(Date::from_ymd(2024, 4, 31).is_none());
    assert!(Date::from_ymd(2023, 2, 29).is_none());
    assert!(Date::from_ymd(2024, 2, 29).is_some());
    assert!(Date::from_ymd(2024, 0, 1).is_none());
    assert!(Date::from_ymd(2024, 13, 1).is_none());
    assert!(Date::from_ymd(2024, 1, 0).is_none());
}

#[test]
fn numerals_are_plain_decimal() {
    assert_eq!(numeral(0), "0");
    assert_eq!(numeral(7), "7");
    assert_eq!(numeral(10), "10");
    assert_eq!(numeral(31), "31");
    assert_eq!(numeral(12345), "12345");
}

#[test]
fn empty_cell_means_no_birthdate() {
    assert_eq!(deserialize("", 2024), Ok(None));
}

#[test]
fn a_parsed_cell_is_normalized_to_the_given_year() {
    assert_eq!(deserialize("02-06-2000", 2024), Ok(Some(date(2024, 6, 2))));
    assert_eq!(deserialize("31-12-1999", 2023), Ok(Some(date(2023, 12, 31))));
}

#[test]
fn garbage_cells_are_rejected() {
    assert_eq!(deserialize("not a date", 2024), Err(()));
    assert_eq!(deserialize("31-02-2000", 2024), Err(()));
    assert_eq!(deserialize("2000-06-02", 2024), Err(()));
    assert_eq!(deserialize(" ", 2024), Err(()));
}

#[test]
fn feb_29_normalizes_only_into_leap_years() {
    assert_eq!(deserialize("29-02-2020", 2024), Ok(Some(date(2024, 2, 29))));
    assert_eq!(deserialize("29-02-2020", 2023), Err(()));
}

#[test]
fn short_rows_are_reported_with_their_position() {
    let row = vec!["Ann".to_string(), "Lee".to_string()];
    let err = parse_row(&row, 0, 1, 2, 2024, 3).expect_err("two fields, three columns");
    assert!(matches!(err, Error::RowTooShort { row: 3 }));
    assert_eq!(err.describe(), "row 3 has too few fields");
}

#[test]
fn a_full_row_becomes_a_record() {
    let row = vec!["Ann".to_string(), "Lee".to_string(), "02-06-2000".to_string()];
    let rec = parse_row(&row, 0, 1, 2, 2024, 1).expect("clean row");
    assert_eq!(rec.name, "Ann");
    assert_eq!(rec.surname, "Lee");
    assert_eq!(rec.birthdate, Some(date(2024, 6, 2)));
}

#[test]
fn rendering_without_a_birthdate_is_an_error() {
    let rec = person("Ann", "Lee", None);
    let today = date(2024, 5, 28);
    let err = render_record(&rec, &today).expect_err("no date to render");
    assert!(matches!(err, Error::MissingDate));
}

#[test]
fn rendering_shows_the_parsed_day_and_month() {
    let rec = person("Ann", "Lee", Some(date(2024, 12, 15)));
    let today = date(2024, 12, 13);
    let line = render_record(&rec, &today).expect("dated record");
    assert_eq!(line, "Ann Lee \u{1b}[1;31m15\u{1b}[0m.\u{1b}[1;31m12\u{1b}[0m");
}

#[test]
fn filter_drops_dateless_records_silently() {
    let today = date(2024, 5, 28);
    let recs = vec![
        person("Ann", "Lee", Some(date(2024, 5, 30))),
        person("Bob", "Stone", None),
        person("Cy", "Faro", Some(date(2024, 7, 1))),
    ];
    let kept = filter_records(recs, &today, 7);
    assert_eq!(kept.len(), 1);
    assert_eq!(kept[0].name, "Ann");
}

#[test]
fn sort_is_stable_and_ascending() {
    let recs = vec![
        person("Zoe", "Hart", Some(date(2024, 6, 2))),
        person("Al", "Born", Some(date(2024, 5, 30))),
        person("Max", "Kane", Some(date(2024, 6, 2))),
    ];
    let sorted = sort_records(recs);
    assert_eq!(sorted[0].name, "Al");
    assert_eq!(sorted[1].name, "Zoe");
    assert_eq!(sorted[2].name, "Max");
}

#[test]
fn error_descriptions_name_the_row() {
    assert_eq!(
        Error::BadDate { row: 4 }.describe(),
        "row 4: the birthdate is not a DD-MM-YYYY date with a counterpart this year"
    );
    assert_eq!(
        Error::BadHeader.describe(),
        "the header must name the columns name, surname and birthdate"
    );
}
