//! Reading the raw `;`-delimited table text into rows of fields.

use vstd::prelude::*;

verus! {

/// What the table reader makes of the raw text: every row's fields in
/// order, the header row included, or nothing when some row is malformed
/// (a field count differing from the first row's, a stray quote). The
/// result depends on the text alone.
pub uninterp spec fn csv_rows_of(text: Seq<char>) -> Option<Seq<Seq<Seq<char>>>>;

/// Relies on `csv::ReaderBuilder` (delimiter `;`, no header handling) and
/// `csv::Reader::into_records`: reading rows from in-memory text is a
/// function of the text alone; it yields each row's fields in order, or
/// fails on the first malformed row with that row's error.
#[verifier::external_body]
pub(crate) fn csv_rows(text: &str) -> (r: Result<Vec<Vec<String>>, String>)
    ensures
        r matches Ok(rows) ==> csv_rows_of(text@) == Some(rows.deep_view()),
        r is Err <==> csv_rows_of(text@) is None,
{
    csv::ReaderBuilder::new()
        .delimiter(b';')
        .has_headers(false)
        .from_reader(text.as_bytes())
        .into_records()
        .map(|rec| match rec {
            Ok(row) => Ok(row.iter().map(|f| f.to_string()).collect()),
            Err(e) => Err(e.to_string()),
        })
        .collect()
}

} // verus!
