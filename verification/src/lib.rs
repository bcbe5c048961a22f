//! Upcoming-birthday listing.
//!
//! The library reads a `;`-delimited table of names and birthdates,
//! normalizes each birthdate to a given "today"'s year, keeps the records
//! whose normalized birthdate falls within a look-ahead window, sorts them
//! chronologically, and renders one colour-coded line per record.

pub mod date;
pub mod filter;
pub mod input;
pub mod laws;
pub mod numeral;
pub mod parse;
pub mod pipeline;
pub mod record;
pub mod render;
pub mod sort;
