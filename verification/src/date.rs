//! Calendar dates in the proleptic Gregorian calendar.

use vstd::prelude::*;

verus! {

/// A calendar date. `wf` says the month/day pair is valid for the year.
#[derive(Clone, Copy, PartialEq, Eq, Structural, Debug)]
pub struct Date {
    pub year: i32,
    pub month: u32,
    pub day: u32,
}

/// Leap years: divisible by 4, except centuries not divisible by 400.
pub open spec fn spec_is_leap_year(y: int) -> bool {
    (y % 4 == 0 && y % 100 != 0) || y % 400 == 0
}

/// Number of days of month `m` (1-based) in year `y`.
pub open spec fn spec_days_in_month(y: int, m: int) -> int {
    if m == 2 {
        if spec_is_leap_year(y) {
            29
        } else {
            28
        }
    } else if m == 4 || m == 6 || m == 9 || m == 11 {
        30
    } else {
        31
    }
}

/// A valid year/month/day triple.
pub open spec fn spec_valid_ymd(y: int, m: int, d: int) -> bool {
    1 <= m <= 12 && 1 <= d <= spec_days_in_month(y, m)
}

/// Days of year `y` that precede the first day of month `m`.
pub open spec fn spec_days_before_month(y: int, m: int) -> int {
    let base: int = if m == 1 {
        0
    } else if m == 2 {
        31
    } else if m == 3 {
        59
    } else if m == 4 {
        90
    } else if m == 5 {
        120
    } else if m == 6 {
        151
    } else if m == 7 {
        181
    } else if m == 8 {
        212
    } else if m == 9 {
        243
    } else if m == 10 {
        273
    } else if m == 11 {
        304
    } else {
        334
    };
    if m > 2 && spec_is_leap_year(y) {
        base + 1
    } else {
        base
    }
}

/// Ordinal of the date within its year: 1 for January 1st, up to 365 or 366.
/// Dates of one year compare chronologically exactly as their ordinals do.
pub open spec fn spec_day_of_year(y: int, m: int, d: int) -> int {
    spec_days_before_month(y, m) + d
}

/// The day-count table and the per-month lengths agree: each month starts
/// where the previous one ended.
pub proof fn lemma_days_before_month_coherent(y: int, m: int)
    requires
        1 <= m <= 11,
    ensures
        spec_days_before_month(y, m + 1) == spec_days_before_month(y, m) + spec_days_in_month(
            y,
            m,
        ),
{
}

impl Date {
    /// Well-formed: the stored triple denotes an actual calendar date.
    pub open spec fn wf(self) -> bool {
        spec_valid_ymd(self.year as int, self.month as int, self.day as int)
    }

    pub open spec fn spec_day_of_year(self) -> int {
        spec_day_of_year(self.year as int, self.month as int, self.day as int)
    }
}

/// Number of days of month `m` in year `y`.
pub fn days_in_month(y: i32, m: u32) -> (r: u32)
    requires
        1 <= m <= 12,
    ensures
        r as int == spec_days_in_month(y as int, m as int),
{
    if m == 2 {
        if is_leap_year(y) {
            29
        } else {
            28
        }
    } else if m == 4 || m == 6 || m == 9 || m == 11 {
        30
    } else {
        31
    }
}

impl Date {
    /// Build a date, or nothing when the triple is no actual date.
    pub fn from_ymd(year: i32, month: u32, day: u32) -> (r: Option<Date>)
        ensures
            r matches Some(d) ==> d == (Date { year, month, day }) && d.wf(),
            r is Some <==> spec_valid_ymd(year as int, month as int, day as int),
    {
        if 1 <= month && month <= 12 && 1 <= day && day <= days_in_month(year, month) {
            Some(Date { year, month, day })
        } else {
            None
        }
    }

    /// Ordinal of the date within its year.
    pub fn day_of_year(&self) -> (r: u32)
        requires
            self.wf(),
        ensures
            r as int == self.spec_day_of_year(),
            1 <= r <= 366,
    {
        let before: u32 = match self.month {
            1 => 0,
            2 => 31,
            3 => 59,
            4 => 90,
            5 => 120,
            6 => 151,
            7 => 181,
            8 => 212,
            9 => 243,
            10 => 273,
            11 => 304,
            _ => 334,
        };
        let leap_day: u32 = if self.month > 2 && is_leap_year(self.year) {
            1
        } else {
            0
        };
        before + leap_day + self.day
    }
}

/// Within one year, ordinals order dates as the calendar does: a date
/// strictly precedes another exactly when its month/day pair does.
pub proof fn lemma_day_of_year_orders_dates(a: Date, b: Date)
    requires
        a.wf(),
        b.wf(),
        a.year == b.year,
    ensures
        (a.spec_day_of_year() < b.spec_day_of_year()) <==> (a.month < b.month || (a.month
            == b.month && a.day < b.day)),
{
    let y = a.year as int;
    if a.month < b.month {
        lemma_days_before_month_coherent(y, a.month as int);
        assert(spec_days_before_month(y, a.month as int + 1) <= spec_days_before_month(
            y,
            b.month as int,
        ));
    }
    if b.month < a.month {
        lemma_days_before_month_coherent(y, b.month as int);
        assert(spec_days_before_month(y, b.month as int + 1) <= spec_days_before_month(
            y,
            a.month as int,
        ));
    }
}

/// Year `y` reduced to `[0, 400)`, the period of the leap-year rule.
fn leap_cycle_index(y: i32) -> (r: u32)
    ensures
        r as int == (y as int) % 400,
{
    let m: i32 = y % 400;
    let r: i32 = if m < 0 {
        m + 400
    } else {
        m
    };
    r as u32
}

/// Whether `y` is a leap year.
pub fn is_leap_year(y: i32) -> (r: bool)
    ensures
        r == spec_is_leap_year(y as int),
{
    let c: u32 = leap_cycle_index(y);
    proof {
        lemma_mod_cycle(y as int, c as int);
    }
    (c % 4 == 0 && c % 100 != 0) || c == 0
}

/// The leap-year rule only depends on the year modulo 400.
proof fn lemma_mod_cycle(y: int, c: int)
    requires
        c == y % 400,
    ensures
        y % 4 == c % 4,
        y % 100 == c % 100,
        (y % 400 == 0) == (c == 0),
{
    assert(y % 4 == (y % 400) % 4) by (nonlinear_arith);
    assert(y % 100 == (y % 400) % 100) by (nonlinear_arith);
}

} // verus!
