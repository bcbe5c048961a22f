//! Parsing of birthdate cells.

use vstd::prelude::*;

use crate::date::{spec_valid_ymd, days_in_month, Date};

verus! {

/// What `DD-MM-YYYY` parsing makes of a string: a day, month, year triple,
/// or nothing when the string is no date in that format. The result depends
/// on the string alone.
pub uninterp spec fn dmy_of(s: Seq<char>) -> Option<(u32, u32, i32)>;

/// Relies on `chrono::NaiveDate::parse_from_str` with the `"%d-%m-%Y"`
/// format: whether a string parses, and to which date, is a function of the
/// string alone, and a parsed `NaiveDate` is a valid calendar date, so its
/// day, month and year form a valid triple.
#[verifier::external_body]
fn parse_dmy(s: &str) -> (r: Option<(u32, u32, i32)>)
    ensures
        r == dmy_of(s@),
        r matches Some(t) ==> spec_valid_ymd(t.2 as int, t.1 as int, t.0 as int),
{
    match chrono::NaiveDate::parse_from_str(s, "%d-%m-%Y") {
        Ok(d) => Some((chrono::Datelike::day(&d), chrono::Datelike::month(&d), chrono::Datelike::year(&d))),
        Err(_) => None,
    }
}

/// What a birthdate cell yields under year normalization:
/// - `Some(None)`: the cell is empty, the record has no birthdate;
/// - `Some(Some(d))`: the cell parsed and `d` is the date with the year
///   replaced by `year`;
/// - `None`: the cell neither is empty nor denotes a date that exists in
///   year `year`.
pub open spec fn spec_deserialize(s: Seq<char>, year: i32) -> Option<Option<Date>> {
    if s.len() == 0 {
        Some(None)
    } else {
        match dmy_of(s) {
            Some(t) => if spec_valid_ymd(year as int, t.1 as int, t.0 as int) {
                Some(Some(Date { year, month: t.1, day: t.0 }))
            } else {
                None
            },
            None => None,
        }
    }
}

/// Parse one birthdate cell. An empty cell means "no birthdate"; any other
/// cell must hold a `DD-MM-YYYY` date. The date's year is discarded and
/// replaced by `year`, the year of the run's "today"; a day and month with
/// no counterpart in that year (February 29th of a non-leap year) is
/// rejected like a malformed cell.
pub fn deserialize(s: &str, year: i32) -> (r: Result<Option<Date>, ()>)
    ensures
        r matches Ok(d) ==> spec_deserialize(s@, year) == Some(d),
        r is Err <==> spec_deserialize(s@, year) is None,
        r matches Ok(Some(d)) ==> d.wf() && d.year == year,
{
    if s.is_empty() {
        Ok(None)
    } else {
        match parse_dmy(s) {
            Some((day, month, _)) => {
                if 1 <= month && month <= 12 && 1 <= day && day <= days_in_month(year, month) {
                    Ok(Some(Date { year, month, day }))
                } else {
                    Err(())
                }
            },
            None => Err(()),
        }
    }
}

} // verus!
