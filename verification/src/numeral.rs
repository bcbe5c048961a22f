//! Decimal numerals.

use vstd::prelude::*;

verus! {

/// The decimal digits of `n`, without padding or sign: `0` renders as "0",
/// `31` as "31".
pub open spec fn spec_numeral(n: int) -> Seq<char>
    decreases n,
{
    if n <= 9 {
        spec_digit(n)
    } else {
        spec_numeral(n / 10) + spec_digit(n % 10)
    }
}

/// The character of one decimal digit, as a one-character string.
pub open spec fn spec_digit(d: int) -> Seq<char> {
    if d == 0 {
        "0"@
    } else if d == 1 {
        "1"@
    } else if d == 2 {
        "2"@
    } else if d == 3 {
        "3"@
    } else if d == 4 {
        "4"@
    } else if d == 5 {
        "5"@
    } else if d == 6 {
        "6"@
    } else if d == 7 {
        "7"@
    } else if d == 8 {
        "8"@
    } else {
        "9"@
    }
}

fn digit(d: u64) -> (r: &'static str)
    requires
        d < 10,
    ensures
        r@ == spec_digit(d as int),
{
    match d {
        0 => "0",
        1 => "1",
        2 => "2",
        3 => "3",
        4 => "4",
        5 => "5",
        6 => "6",
        7 => "7",
        8 => "8",
        _ => "9",
    }
}

/// Render `n` as a decimal numeral.
pub fn numeral(n: u64) -> (r: String)
    ensures
        r@ == spec_numeral(n as int),
    decreases n,
{
    if n <= 9 {
        String::from_str(digit(n))
    } else {
        let mut s = numeral(n / 10);
        s.append(digit(n % 10));
        s
    }
}

} // verus!
