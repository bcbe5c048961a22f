//! The full pipeline: raw table text to rendered output lines.

use vstd::prelude::*;

use crate::date::{spec_valid_ymd, Date};
use crate::filter::{filter_records, spec_filter};
use crate::input::{csv_rows, csv_rows_of};
use crate::parse::{deserialize, spec_deserialize};
use crate::record::{Error, ErrorV, Record, RecordV};
use crate::render::{render_record, spec_render_line};
use crate::sort::{sort_records, spec_sort};

verus! {

/// Index of the first header cell equal to `name`, if any.
pub open spec fn spec_find_col(h: Seq<Seq<char>>, name: Seq<char>) -> Option<int>
    decreases h.len(),
{
    if h.len() == 0 {
        None
    } else if h.first() == name {
        Some(0int)
    } else {
        match spec_find_col(h.drop_first(), name) {
            Some(i) => Some(i + 1),
            None => None,
        }
    }
}

/// The first match of a linear scan is the first match.
proof fn lemma_find_col_at(h: Seq<Seq<char>>, name: Seq<char>, i: int)
    requires
        0 <= i <= h.len(),
        forall|k: int| 0 <= k < i ==> h[k] != name,
        i < h.len() ==> h[i] == name,
    ensures
        i == h.len() ==> spec_find_col(h, name) is None,
        i < h.len() ==> spec_find_col(h, name) == Some(i),
    decreases h.len(),
{
    if h.len() == 0 {
    } else if i == 0 {
    } else {
        lemma_find_col_at(h.drop_first(), name, i - 1);
        assert(forall|k: int| 0 <= k < i - 1 ==> h.drop_first()[k] == h[k + 1]);
    }
}

/// Index of the first header cell spelling `name`, if any.
fn find_col(header: &Vec<String>, name: &String) -> (r: Option<usize>)
    ensures
        match r {
            Some(i) => i < header@.len() && spec_find_col(header.deep_view(), name@) == Some(
                i as int,
            ),
            None => spec_find_col(header.deep_view(), name@) is None,
        },
{
    let ghost h: Seq<Seq<char>> = header.deep_view();
    proof {
        assert(h.len() == header@.len());
    }
    let mut i: usize = 0;
    while i < header.len()
        invariant
            0 <= i <= header@.len(),
            h == header.deep_view(),
            h.len() == header@.len(),
            forall|k: int| 0 <= k < i ==> h[k] != name@,
        decreases header@.len() - i,
    {
        proof {
            assert(h[i as int] == header@[i as int]@);
        }
        if header[i].eq(name) {
            proof {
                lemma_find_col_at(h, name@, i as int);
            }
            return Some(i);
        }
        i = i + 1;
    }
    proof {
        lemma_find_col_at(h, name@, i as int);
    }
    None
}

/// What one data row yields: a record, or the first of the row's faults.
/// `rownum` is the row's position in the file, the header being row 0.
pub open spec fn spec_parse_row(
    row: Seq<Seq<char>>,
    c_name: int,
    c_surname: int,
    c_birth: int,
    year: i32,
    rownum: int,
) -> Result<RecordV, ErrorV> {
    if !(c_name < row.len() && c_surname < row.len() && c_birth < row.len()) {
        Err(ErrorV::RowTooShort { row: rownum })
    } else {
        match spec_deserialize(row[c_birth], year) {
            Some(bd) => Ok(
                RecordV { name: row[c_name], surname: row[c_surname], birthdate: bd },
            ),
            None => Err(ErrorV::BadDate { row: rownum }),
        }
    }
}

/// Turn one data row into a record: pick the named columns and parse the
/// birthdate cell against `year`, the year of the run's "today".
pub fn parse_row(
    row: &Vec<String>,
    c_name: usize,
    c_surname: usize,
    c_birth: usize,
    year: i32,
    rownum: usize,
) -> (r: Result<Record, Error>)
    ensures
        match r {
            Ok(rec) => spec_parse_row(
                row.deep_view(),
                c_name as int,
                c_surname as int,
                c_birth as int,
                year,
                rownum as int,
            ) == Ok::<RecordV, ErrorV>(rec@) && rec@.wf(),
            Err(e) => spec_parse_row(
                row.deep_view(),
                c_name as int,
                c_surname as int,
                c_birth as int,
                year,
                rownum as int,
            ) == Err::<RecordV, ErrorV>(e@),
        },
{
    if !(c_name < row.len() && c_surname < row.len() && c_birth < row.len()) {
        return Err(Error::RowTooShort { row: rownum });
    }
    proof {
        assert(row.deep_view()[c_name as int] == row@[c_name as int]@);
        assert(row.deep_view()[c_surname as int] == row@[c_surname as int]@);
        assert(row.deep_view()[c_birth as int] == row@[c_birth as int]@);
    }
    match deserialize(row[c_birth].as_str(), year) {
        Ok(bd) => Ok(
            Record {
                name: row[c_name].clone(),
                surname: row[c_surname].clone(),
                birthdate: bd,
            },
        ),
        Err(()) => Err(Error::BadDate { row: rownum }),
    }
}

/// What the data rows from position `j` on yield: their records in order,
/// or the first faulty row's error.
pub open spec fn spec_parse_rows(
    rows: Seq<Seq<Seq<char>>>,
    j: int,
    c_name: int,
    c_surname: int,
    c_birth: int,
    year: i32,
) -> Result<Seq<RecordV>, ErrorV>
    decreases rows.len() - j,
{
    if j < 0 || j >= rows.len() {
        Ok(Seq::empty())
    } else {
        match spec_parse_row(rows[j], c_name, c_surname, c_birth, year, j) {
            Err(e) => Err(e),
            Ok(rec) => match spec_parse_rows(rows, j + 1, c_name, c_surname, c_birth, year) {
                Err(e) => Err(e),
                Ok(rest) => Ok(seq![rec] + rest),
            },
        }
    }
}

/// What reading the table text yields: the in-window records of all data
/// rows, in file order, or the first error. An empty file yields no
/// records; a non-empty one must start with a header row naming the
/// columns `name`, `surname` and `birthdate`.
pub open spec fn spec_read(text: Seq<char>, today: Date, days: i64) -> Result<
    Seq<RecordV>,
    ErrorV,
> {
    match csv_rows_of(text) {
        None => Err(ErrorV::Csv),
        Some(rows) => {
            if rows.len() == 0 {
                Ok(Seq::empty())
            } else {
                let cn = spec_find_col(rows[0], "name"@);
                let cs = spec_find_col(rows[0], "surname"@);
                let cb = spec_find_col(rows[0], "birthdate"@);
                if cn is Some && cs is Some && cb is Some {
                    match spec_parse_rows(rows, 1, cn->Some_0, cs->Some_0, cb->Some_0, today.year) {
                        Ok(recs) => Ok(spec_filter(recs, today, days)),
                        Err(e) => Err(e),
                    }
                } else {
                    Err(ErrorV::BadHeader)
                }
            }
        },
    }
}

/// Read the table text and keep the records whose birthday falls within
/// `days` days from `today`. Every error is reported in place of output:
/// malformed rows, a missing header column, and birthdate cells that do
/// not parse, each with its position.
pub fn read_records(text: &str, today: &Date, days: i64) -> (r: Result<Vec<Record>, Error>)
    requires
        today.wf(),
    ensures
        match r {
            Ok(v) => spec_read(text@, *today, days) == Ok::<Seq<RecordV>, ErrorV>(v.deep_view())
                && (forall|i: int| 0 <= i < v@.len() ==> (#[trigger] v@[i])@.wf()),
            Err(e) => spec_read(text@, *today, days) == Err::<Seq<RecordV>, ErrorV>(e@),
        },
{
    let rows = match csv_rows(text) {
        Ok(rows) => rows,
        Err(msg) => {
            return Err(Error::Csv(msg));
        },
    };
    let ghost rowsv: Seq<Seq<Seq<char>>> = rows.deep_view();
    if rows.is_empty() {
        let empty: Vec<Record> = Vec::new();
        proof {
            assert(empty.deep_view() =~= Seq::<RecordV>::empty());
        }
        return Ok(empty);
    }
    proof {
        assert(rowsv[0] == rows@[0].deep_view());
    }
    let c_name = find_col(&rows[0], &String::from_str("name"));
    let c_surname = find_col(&rows[0], &String::from_str("surname"));
    let c_birth = find_col(&rows[0], &String::from_str("birthdate"));
    let (cn, cs, cb) = match (c_name, c_surname, c_birth) {
        (Some(cn), Some(cs), Some(cb)) => (cn, cs, cb),
        _ => {
            return Err(Error::BadHeader);
        },
    };
    let mut recs: Vec<Record> = Vec::new();
    let mut j: usize = 1;
    proof {
        assert(recs.deep_view() =~= Seq::<RecordV>::empty());
        assert(Seq::<RecordV>::empty() + spec_parse_rows(
            rowsv,
            1,
            cn as int,
            cs as int,
            cb as int,
            today.year,
        )->Ok_0 =~= spec_parse_rows(rowsv, 1, cn as int, cs as int, cb as int, today.year)->Ok_0);
    }
    while j < rows.len()
        invariant
            1 <= j <= rows@.len(),
            rowsv == rows.deep_view(),
            rowsv.len() == rows@.len(),
            csv_rows_of(text@) == Some(rowsv),
            spec_find_col(rowsv[0], "name"@) == Some(cn as int),
            spec_find_col(rowsv[0], "surname"@) == Some(cs as int),
            spec_find_col(rowsv[0], "birthdate"@) == Some(cb as int),
            today.wf(),
            forall|i: int| 0 <= i < recs@.len() ==> (#[trigger] recs@[i])@.wf(),
            ({
                let whole = spec_parse_rows(rowsv, 1, cn as int, cs as int, cb as int, today.year);
                let rest = spec_parse_rows(
                    rowsv,
                    j as int,
                    cn as int,
                    cs as int,
                    cb as int,
                    today.year,
                );
                match rest {
                    Ok(tail) => whole == Ok::<Seq<RecordV>, ErrorV>(recs.deep_view() + tail),
                    Err(e) => whole == Err::<Seq<RecordV>, ErrorV>(e),
                }
            }),
        decreases rows@.len() - j,
    {
        proof {
            assert(rowsv[j as int] == rows@[j as int].deep_view());
        }
        match parse_row(&rows[j], cn, cs, cb, today.year, j) {
            Ok(rec) => {
                let ghost prev: Seq<RecordV> = recs.deep_view();
                recs.push(rec);
                proof {
                    assert(recs.deep_view() =~= prev.push(rec@));
                    let rest_next = spec_parse_rows(
                        rowsv,
                        j as int + 1,
                        cn as int,
                        cs as int,
                        cb as int,
                        today.year,
                    );
                    if rest_next is Ok {
                        assert(prev + (seq![rec@] + rest_next->Ok_0) =~= prev.push(rec@)
                            + rest_next->Ok_0);
                    }
                }
                j = j + 1;
            },
            Err(e) => {
                proof {
                    assert(spec_parse_rows(
                        rowsv,
                        j as int,
                        cn as int,
                        cs as int,
                        cb as int,
                        today.year,
                    ) == Err::<Seq<RecordV>, ErrorV>(e@));
                }
                return Err(e);
            },
        }
    }
    proof {
        assert(spec_parse_rows(rowsv, j as int, cn as int, cs as int, cb as int, today.year)
            == Ok::<Seq<RecordV>, ErrorV>(Seq::empty()));
        assert(recs.deep_view() + Seq::<RecordV>::empty() =~= recs.deep_view());
    }
    let kept = filter_records(recs, today, days);
    Ok(kept)
}

/// What rendering a run of records yields: one line per record, or a
/// report of the first record with no birthdate.
pub open spec fn spec_render_all(s: Seq<RecordV>, today: Date) -> Result<Seq<Seq<char>>, ErrorV>
    decreases s.len(),
{
    if s.len() == 0 {
        Ok(Seq::empty())
    } else {
        match s.first().birthdate {
            None => Err(ErrorV::MissingDate),
            Some(d) => match spec_render_all(s.drop_first(), today) {
                Ok(rest) => Ok(
                    seq![spec_render_line(s.first().name, s.first().surname, d, today)] + rest,
                ),
                Err(e) => Err(e),
            },
        }
    }
}

/// Render every record as its output line, in the given order; stop at the
/// first record with no birthdate and report it instead.
pub fn render_all(recs: &Vec<Record>, today: &Date) -> (r: Result<Vec<String>, Error>)
    requires
        today.wf(),
        forall|i: int| 0 <= i < recs@.len() ==> (#[trigger] recs@[i])@.wf(),
    ensures
        match r {
            Ok(lines) => spec_render_all(recs.deep_view(), *today) == Ok::<
                Seq<Seq<char>>,
                ErrorV,
            >(lines.deep_view()),
            Err(e) => spec_render_all(recs.deep_view(), *today) == Err::<
                Seq<Seq<char>>,
                ErrorV,
            >(e@),
        },
{
    let ghost rv: Seq<RecordV> = recs.deep_view();
    let mut lines: Vec<String> = Vec::new();
    let mut i: usize = 0;
    proof {
        assert(rv.skip(0) =~= rv);
        assert(lines.deep_view() =~= Seq::<Seq<char>>::empty());
    }
    while i < recs.len()
        invariant
            0 <= i <= recs@.len(),
            rv == recs.deep_view(),
            rv.len() == recs@.len(),
            today.wf(),
            forall|k: int| 0 <= k < recs@.len() ==> (#[trigger] recs@[k])@.wf(),
            ({
                let whole = spec_render_all(rv, *today);
                let rest = spec_render_all(rv.skip(i as int), *today);
                match rest {
                    Ok(tail) => whole == Ok::<Seq<Seq<char>>, ErrorV>(lines.deep_view() + tail),
                    Err(e) => whole == Err::<Seq<Seq<char>>, ErrorV>(e),
                }
            }),
        decreases recs@.len() - i,
    {
        proof {
            assert(rv.skip(i as int).len() == rv.len() - i);
            assert(rv.skip(i as int).first() == rv[i as int]);
            assert(rv[i as int] == recs@[i as int]@);
            assert(rv.skip(i as int).drop_first() =~= rv.skip(i as int + 1));
        }
        match render_record(&recs[i], today) {
            Ok(line) => {
                let ghost prev: Seq<Seq<char>> = lines.deep_view();
                lines.push(line);
                proof {
                    assert(lines.deep_view() =~= prev.push(line@));
                    let rest_next = spec_render_all(rv.skip(i as int + 1), *today);
                    if rest_next is Ok {
                        assert(prev + (seq![line@] + rest_next->Ok_0) =~= prev.push(line@)
                            + rest_next->Ok_0);
                    }
                }
                i = i + 1;
            },
            Err(e) => {
                return Err(e);
            },
        }
    }
    proof {
        assert(rv.skip(i as int).len() == 0);
        assert(spec_render_all(rv.skip(i as int), *today) == Ok::<Seq<Seq<char>>, ErrorV>(
            Seq::empty(),
        ));
        assert(lines.deep_view() + Seq::<Seq<char>>::empty() =~= lines.deep_view());
    }
    Ok(lines)
}

/// What a whole run yields for given text, "today" and window: the kept
/// records' lines, sorted by birthdate, or the run's first error.
pub open spec fn spec_process(text: Seq<char>, today: Date, days: i64) -> Result<
    Seq<Seq<char>>,
    ErrorV,
> {
    match spec_read(text, today, days) {
        Err(e) => Err(e),
        Ok(recs) => spec_render_all(spec_sort(recs), today),
    }
}

/// The whole pipeline: read the table text, keep the records whose
/// birthday falls within `days` days from `today`, sort them by birthdate,
/// and render one line per record.
pub fn process(text: &str, today: &Date, days: i64) -> (r: Result<Vec<String>, Error>)
    requires
        today.wf(),
    ensures
        match r {
            Ok(lines) => spec_process(text@, *today, days) == Ok::<Seq<Seq<char>>, ErrorV>(
                lines.deep_view(),
            ),
            Err(e) => spec_process(text@, *today, days) == Err::<Seq<Seq<char>>, ErrorV>(e@),
        },
{
    let recs = match read_records(text, today, days) {
        Ok(v) => v,
        Err(e) => {
            return Err(e);
        },
    };
    let sorted = sort_records(recs);
    render_all(&sorted, today)
}

/// Relies on `chrono::Utc::now` and the `Datelike` accessors of the
/// resulting `NaiveDate`: whatever moment the clock reports, its date is a
/// valid calendar date, so year, month and day form a valid triple.
#[verifier::external_body]
fn today_utc() -> (r: (i32, u32, u32))
    ensures
        spec_valid_ymd(r.0 as int, r.1 as int, r.2 as int),
{
    let d = chrono::Utc::now().date_naive();
    (chrono::Datelike::year(&d), chrono::Datelike::month(&d), chrono::Datelike::day(&d))
}

/// Run the pipeline against the clock. The date taken as "today" is
/// returned beside the outcome, which is exactly the pipeline's outcome
/// for that date.
pub fn process_now(text: &str, days: i64) -> (r: (Date, Result<Vec<String>, Error>))
    ensures
        r.0.wf(),
        match r.1 {
            Ok(lines) => spec_process(text@, r.0, days) == Ok::<Seq<Seq<char>>, ErrorV>(
                lines.deep_view(),
            ),
            Err(e) => spec_process(text@, r.0, days) == Err::<Seq<Seq<char>>, ErrorV>(e@),
        },
{
    let (y, m, d) = today_utc();
    let today = match Date::from_ymd(y, m, d) {
        Some(t) => t,
        None => vstd::pervasive::unreached(),
    };
    let out = process(text, &today, days);
    (today, out)
}

} // verus!
