//! Rendering a record as one colour-coded output line.

use vstd::prelude::*;

use crate::date::Date;
use crate::numeral::{numeral, spec_numeral};
use crate::record::{Error, ErrorV, Record};

verus! {

/// How soon a birthday is: an imminent one (two days away or less) is shown
/// in red, an upcoming one in yellow.
#[derive(Clone, Copy, PartialEq, Eq, Structural, Debug)]
pub enum Urgency {
    Imminent,
    Upcoming,
}

/// The tier of a birthdate seen from `today`: imminent when at most two
/// days away, upcoming otherwise. Both dates carry the same year, so the
/// distance in days is the distance of their ordinals.
pub open spec fn spec_urgency(d: Date, today: Date) -> Urgency {
    if d.spec_day_of_year() - today.spec_day_of_year() <= 2 {
        Urgency::Imminent
    } else {
        Urgency::Upcoming
    }
}

/// The ANSI escape that starts bold text in the tier's colour: red for
/// imminent, yellow for upcoming.
pub open spec fn spec_style_prefix(u: Urgency) -> Seq<char> {
    match u {
        Urgency::Imminent => "\u{1b}[1;31m"@,
        Urgency::Upcoming => "\u{1b}[1;33m"@,
    }
}

/// The ANSI escape that resets all styling.
pub open spec fn spec_style_reset() -> Seq<char> {
    "\u{1b}[0m"@
}

/// `s` wrapped in the tier's style: start bold colour, the text, reset.
pub open spec fn spec_paint(u: Urgency, s: Seq<char>) -> Seq<char> {
    spec_style_prefix(u) + s + spec_style_reset()
}

/// Relies on `ansi_term::Colour::{Red, Yellow}`, `Style::bold` and
/// `Style::paint`: the painted text is the bold-plus-colour ANSI prefix
/// (`ESC [1;31m` for red, `ESC [1;33m` for yellow), the text itself, and
/// the reset code `ESC [0m`.
#[verifier::external_body]
fn paint_bold(red: bool, s: &str) -> (r: String)
    ensures
        red ==> r@ == spec_paint(Urgency::Imminent, s@),
        !red ==> r@ == spec_paint(Urgency::Upcoming, s@),
{
    let colour = if red {
        ansi_term::Colour::Red
    } else {
        ansi_term::Colour::Yellow
    };
    colour.bold().paint(s).to_string()
}

/// The output line for a person with birthdate `d`: name and surname
/// unstyled, then the day and month numerals, each styled by how close the
/// birthday is to `today`.
pub open spec fn spec_render_line(name: Seq<char>, surname: Seq<char>, d: Date, today: Date) -> Seq<
    char,
> {
    let u = spec_urgency(d, today);
    name + " "@ + surname + " "@ + spec_paint(u, spec_numeral(d.day as int)) + "."@ + spec_paint(
        u,
        spec_numeral(d.month as int),
    )
}

/// Render one record as its output line. A record without a birthdate
/// cannot be rendered and is reported, not skipped; the window filter keeps
/// such records out of the full pipeline's render stage.
pub fn render_record(rec: &Record, today: &Date) -> (r: Result<String, Error>)
    requires
        rec.wf(),
        today.wf(),
    ensures
        match rec.birthdate {
            Some(d) => r matches Ok(line) && line@ == spec_render_line(
                rec.name@,
                rec.surname@,
                d,
                *today,
            ),
            None => r matches Err(e) && e@ == ErrorV::MissingDate,
        },
{
    let d = match rec.birthdate {
        Some(d) => d,
        None => {
            return Err(Error::MissingDate);
        },
    };
    let red = d.day_of_year() as i64 - today.day_of_year() as i64 <= 2;
    let mut line = String::new();
    line.append(rec.name.as_str());
    line.append(" ");
    line.append(rec.surname.as_str());
    line.append(" ");
    line.append(paint_bold(red, numeral(d.day as u64).as_str()).as_str());
    line.append(".");
    line.append(paint_bold(red, numeral(d.month as u64).as_str()).as_str());
    Ok(line)
}

} // verus!
