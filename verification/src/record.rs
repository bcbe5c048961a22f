//! Records and the errors the pipeline can report.

use vstd::prelude::*;

use crate::date::Date;
use crate::numeral::{numeral, spec_numeral};

verus! {

/// One row of the table: a person and an optional birthdate, already
/// normalized to the current year.
#[derive(Debug)]
pub struct Record {
    pub name: String,
    pub surname: String,
    pub birthdate: Option<Date>,
}

/// The mathematical value of a [`Record`].
pub struct RecordV {
    pub name: Seq<char>,
    pub surname: Seq<char>,
    pub birthdate: Option<Date>,
}

impl Record {
    /// A record is well-formed when its birthdate, if any, is an actual
    /// calendar date.
    pub open spec fn wf(self) -> bool {
        self@.wf()
    }
}

impl RecordV {
    /// See [`Record::wf`].
    pub open spec fn wf(self) -> bool {
        match self.birthdate {
            Some(d) => d.wf(),
            None => true,
        }
    }
}

impl View for Record {
    type V = RecordV;

    open spec fn view(&self) -> RecordV {
        RecordV { name: self.name@, surname: self.surname@, birthdate: self.birthdate }
    }
}

impl DeepView for Record {
    type V = RecordV;

    open spec fn deep_view(&self) -> RecordV {
        self@
    }
}

/// Why a run failed. Every error is fatal: the first one reported ends the
/// run with no output.
#[derive(Debug)]
pub enum Error {
    /// The reader rejected the raw table text; the payload is its message.
    Csv(String),
    /// The header row lacks one of the columns `name`, `surname`,
    /// `birthdate`.
    BadHeader,
    /// Data row `row` (1-based, counting the header as row 0) has too few
    /// fields for the header's columns.
    RowTooShort { row: usize },
    /// Data row `row` holds a birthdate cell that is neither empty nor a
    /// `DD-MM-YYYY` date with a counterpart in the current year.
    BadDate { row: usize },
    /// A record without a birthdate reached the renderer; the window filter
    /// makes this unreachable in the full pipeline.
    MissingDate,
}

/// The mathematical value of an [`Error`]: the variant and its position,
/// without the reader's message text.
pub enum ErrorV {
    Csv,
    BadHeader,
    RowTooShort { row: int },
    BadDate { row: int },
    MissingDate,
}

impl View for Error {
    type V = ErrorV;

    open spec fn view(&self) -> ErrorV {
        match self {
            Error::Csv(_) => ErrorV::Csv,
            Error::BadHeader => ErrorV::BadHeader,
            Error::RowTooShort { row } => ErrorV::RowTooShort { row: *row as int },
            Error::BadDate { row } => ErrorV::BadDate { row: *row as int },
            Error::MissingDate => ErrorV::MissingDate,
        }
    }
}

impl Error {
    /// The diagnostic line for the error: its kind in words, with the row
    /// it names or the reader's message.
    pub open spec fn spec_describe(&self) -> Seq<char> {
        match self {
            Error::Csv(msg) => "malformed table: "@ + msg@,
            Error::BadHeader => "the header must name the columns name, surname and birthdate"@,
            Error::RowTooShort { row } => "row "@ + spec_numeral(*row as int)
                + " has too few fields"@,
            Error::BadDate { row } => "row "@ + spec_numeral(*row as int)
                + ": the birthdate is not a DD-MM-YYYY date with a counterpart this year"@,
            Error::MissingDate => "a record without a birthdate was rendered"@,
        }
    }

    /// A short account of the error, fit for a diagnostic line.
    pub fn describe(&self) -> (r: String)
        ensures
            r@ == self.spec_describe(),
    {
        match self {
            Error::Csv(msg) => {
                let mut s = String::from_str("malformed table: ");
                s.append(msg.as_str());
                s
            },
            Error::BadHeader => String::from_str(
                "the header must name the columns name, surname and birthdate",
            ),
            Error::RowTooShort { row } => {
                let mut s = String::from_str("row ");
                s.append(numeral(*row as u64).as_str());
                s.append(" has too few fields");
                s
            },
            Error::BadDate { row } => {
                let mut s = String::from_str("row ");
                s.append(numeral(*row as u64).as_str());
                s.append(": the birthdate is not a DD-MM-YYYY date with a counterpart this year");
                s
            },
            Error::MissingDate => String::from_str("a record without a birthdate was rendered"),
        }
    }
}

} // verus!
