//! Properties of the pipeline, stated once for all inputs and proved.

use vstd::prelude::*;
use vstd::seq_lib::group_to_multiset_ensures;

use crate::date::Date;
use crate::filter::{spec_filter, spec_in_window, spec_keep};
use crate::numeral::spec_numeral;
use crate::parse::{dmy_of, spec_deserialize};
use crate::pipeline::{spec_parse_rows, spec_process, spec_read, spec_render_all};
use crate::record::{ErrorV, RecordV};
use crate::render::{spec_paint, spec_render_line, spec_urgency};
use crate::sort::{lemma_sort_permutes, lemma_sort_sorted, spec_sort, spec_sorted};

verus! {

/// Every record the filter keeps passes the window test, so it carries a
/// birthdate: records with an empty date field never survive the filter.
pub proof fn lemma_filter_keeps_only_windowed(s: Seq<RecordV>, today: Date, days: i64)
    ensures
        forall|i: int|
            0 <= i < spec_filter(s, today, days).len() ==> spec_keep(
                #[trigger] spec_filter(s, today, days)[i],
                today,
                days,
            ),
        forall|i: int|
            0 <= i < spec_filter(s, today, days).len() ==> (#[trigger] spec_filter(
                s,
                today,
                days,
            )[i]).birthdate is Some,
    decreases s.len(),
{
    if s.len() == 0 {
    } else {
        lemma_filter_keeps_only_windowed(s.drop_first(), today, days);
        let rest = spec_filter(s.drop_first(), today, days);
        if spec_keep(s.first(), today, days) {
            assert(forall|i: int|
                1 <= i < spec_filter(s, today, days).len() ==> spec_filter(s, today, days)[i]
                    == rest[i - 1]);
        }
    }
}

/// Sorting a run of records that all carry a birthdate yields records that
/// all carry a birthdate.
proof fn lemma_sort_keeps_dated(s: Seq<RecordV>)
    requires
        forall|i: int| 0 <= i < s.len() ==> (#[trigger] s[i]).birthdate is Some,
    ensures
        forall|i: int|
            0 <= i < spec_sort(s).len() ==> (#[trigger] spec_sort(s)[i]).birthdate is Some,
{
    broadcast use group_to_multiset_ensures;

    lemma_sort_permutes(s);
    assert forall|i: int|
        0 <= i < spec_sort(s).len() implies (#[trigger] spec_sort(s)[i]).birthdate is Some by {
        assert(spec_sort(s).contains(spec_sort(s)[i]));
        assert(spec_sort(s).to_multiset().contains(spec_sort(s)[i]));
        assert(s.to_multiset().contains(spec_sort(s)[i]));
        assert(s.contains(spec_sort(s)[i]));
        let j = choose|j: int| 0 <= j < s.len() && s[j] == spec_sort(s)[i];
        assert(s[j].birthdate is Some);
    }
}

/// Rendering a run of records that all carry a birthdate never fails, and
/// yields one line per record.
proof fn lemma_render_all_total(s: Seq<RecordV>, today: Date)
    requires
        forall|i: int| 0 <= i < s.len() ==> (#[trigger] s[i]).birthdate is Some,
    ensures
        spec_render_all(s, today) is Ok,
        spec_render_all(s, today)->Ok_0.len() == s.len(),
    decreases s.len(),
{
    if s.len() == 0 {
    } else {
        assert(forall|i: int| 0 <= i < s.drop_first().len() ==> s.drop_first()[i] == s[i + 1]);
        lemma_render_all_total(s.drop_first(), today);
    }
}

/// Row parsing reports malformed rows, never a missing date: that error is
/// the renderer's alone.
proof fn lemma_parse_rows_no_missing(
    rows: Seq<Seq<Seq<char>>>,
    j: int,
    c_name: int,
    c_surname: int,
    c_birth: int,
    year: i32,
)
    ensures
        !(spec_parse_rows(rows, j, c_name, c_surname, c_birth, year) == Err::<
            Seq<RecordV>,
            ErrorV,
        >(ErrorV::MissingDate)),
    decreases rows.len() - j,
{
    if j < 0 || j >= rows.len() {
    } else {
        lemma_parse_rows_no_missing(rows, j + 1, c_name, c_surname, c_birth, year);
    }
}

/// A record with no birthdate is never rendered: the whole pipeline cannot
/// end in the renderer's missing-date report, because the filter lets only
/// dated records through to it.
pub proof fn lemma_no_missing_date(text: Seq<char>, today: Date, days: i64)
    ensures
        !(spec_process(text, today, days) == Err::<Seq<Seq<char>>, ErrorV>(ErrorV::MissingDate)),
{
    match spec_read(text, today, days) {
        Err(e) => {
            assert(!(e == ErrorV::MissingDate)) by {
                if e is MissingDate {
                    match crate::input::csv_rows_of(text) {
                        None => {},
                        Some(rows) => {
                            if rows.len() > 0 {
                                let cn = crate::pipeline::spec_find_col(rows[0], "name"@);
                                let cs = crate::pipeline::spec_find_col(rows[0], "surname"@);
                                let cb = crate::pipeline::spec_find_col(rows[0], "birthdate"@);
                                if cn is Some && cs is Some && cb is Some {
                                    lemma_parse_rows_no_missing(
                                        rows,
                                        1,
                                        cn->Some_0,
                                        cs->Some_0,
                                        cb->Some_0,
                                        today.year,
                                    );
                                }
                            }
                        },
                    }
                }
            }
        },
        Ok(recs) => {
            lemma_read_records_windowed(text, today, days);
            lemma_sort_keeps_dated(recs);
            lemma_render_all_total(spec_sort(recs), today);
        },
    }
}

/// Whatever reading yields, every record of it passed the filter: it holds
/// a birthdate inside the look-ahead window.
pub proof fn lemma_read_records_windowed(text: Seq<char>, today: Date, days: i64)
    ensures
        spec_read(text, today, days) matches Ok(recs) ==> forall|i: int|
            0 <= i < recs.len() ==> spec_keep(#[trigger] recs[i], today, days),
{
    if spec_read(text, today, days) is Ok {
        match crate::input::csv_rows_of(text) {
            None => {},
            Some(rows) => {
                if rows.len() > 0 {
                    let cn = crate::pipeline::spec_find_col(rows[0], "name"@);
                    let cs = crate::pipeline::spec_find_col(rows[0], "surname"@);
                    let cb = crate::pipeline::spec_find_col(rows[0], "birthdate"@);
                    if cn is Some && cs is Some && cb is Some {
                        match spec_parse_rows(
                            rows,
                            1,
                            cn->Some_0,
                            cs->Some_0,
                            cb->Some_0,
                            today.year,
                        ) {
                            Ok(parsed) => {
                                lemma_filter_keeps_only_windowed(parsed, today, days);
                            },
                            Err(_) => {},
                        }
                    }
                }
            },
        }
    }
}

/// Two runs over the same text, the same "today" and the same window have
/// the same outcome: the pipeline's result is a function of its inputs
/// alone.
pub proof fn lemma_process_deterministic(
    text: Seq<char>,
    today: Date,
    days: i64,
    r1: Result<Seq<Seq<char>>, ErrorV>,
    r2: Result<Seq<Seq<char>>, ErrorV>,
)
    requires
        r1 == spec_process(text, today, days),
        r2 == spec_process(text, today, days),
    ensures
        r1 == r2,
{
}

/// The records the pipeline renders stand in non-decreasing order of
/// birthdate.
pub proof fn lemma_output_sorted(text: Seq<char>, today: Date, days: i64)
    ensures
        spec_read(text, today, days) matches Ok(recs) ==> spec_sorted(spec_sort(recs)),
{
    match spec_read(text, today, days) {
        Ok(recs) => lemma_sort_sorted(recs),
        Err(_) => {},
    }
}

/// The window boundary is inclusive: a birthdate exactly `days` days from
/// `today` lies in the window, one `days + 1` days away does not.
pub proof fn lemma_window_boundary(d: Date, today: Date, days: i64)
    ensures
        days >= 0 && d.spec_day_of_year() - today.spec_day_of_year() == days
            ==> spec_in_window(d, today, days),
        d.spec_day_of_year() - today.spec_day_of_year() == days + 1 ==> !spec_in_window(
            d,
            today,
            days,
        ),
{
}

/// Round trip of the numeric fields: for a birthdate cell that parses, the
/// day and month shown in the rendered line are exactly the day and month
/// that were parsed, untouched by year normalization.
pub proof fn lemma_render_shows_parsed_day_month(
    cell: Seq<char>,
    year: i32,
    name: Seq<char>,
    surname: Seq<char>,
    today: Date,
    d: Date,
)
    requires
        spec_deserialize(cell, year) == Some(Some(d)),
    ensures
        dmy_of(cell) is Some,
        d.day == dmy_of(cell)->Some_0.0,
        d.month == dmy_of(cell)->Some_0.1,
        spec_render_line(name, surname, d, today) == name + " "@ + surname + " "@ + spec_paint(
            spec_urgency(d, today),
            spec_numeral(dmy_of(cell)->Some_0.0 as int),
        ) + "."@ + spec_paint(spec_urgency(d, today), spec_numeral(dmy_of(cell)->Some_0.1 as int)),
{
}

} // verus!
