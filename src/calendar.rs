//! Dates of the proleptic Gregorian calendar, and moving them by whole days.

use chrono::{Datelike, NaiveDate, TimeDelta};
use vstd::arithmetic::div_mod::{lemma_fundamental_div_mod, lemma_fundamental_div_mod_converse};
use vstd::prelude::*;

verus! {

/// The earliest year that the date arithmetic can represent.
pub const FIRST_YEAR: i32 = -262143;

/// The latest year that the date arithmetic can represent.
pub const LAST_YEAR: i32 = 262142;

pub open spec fn is_leap_year(y: int) -> bool {
    (y % 4 == 0 && y % 100 != 0) || y % 400 == 0
}

pub open spec fn month_length(y: int, m: int) -> int {
    if m == 2 {
        if is_leap_year(y) {
            29
        } else {
            28
        }
    } else if m == 4 || m == 6 || m == 9 || m == 11 {
        30
    } else {
        31
    }
}

/// Days in the months of year `y` before month `m`.
pub open spec fn days_before_month(y: int, m: int) -> int {
    let common: int = if m <= 1 {
        0
    } else if m == 2 {
        31
    } else if m == 3 {
        59
    } else if m == 4 {
        90
    } else if m == 5 {
        120
    } else if m == 6 {
        151
    } else if m == 7 {
        181
    } else if m == 8 {
        212
    } else if m == 9 {
        243
    } else if m == 10 {
        273
    } else if m == 11 {
        304
    } else {
        334
    };
    if m > 2 && is_leap_year(y) {
        common + 1
    } else {
        common
    }
}

/// Days from 0001-01-01 to the given date (negative before it).
pub open spec fn day_number(y: int, m: int, d: int) -> int {
    let p = y - 1;
    365 * p + p / 4 - p / 100 + p / 400 + days_before_month(y, m) + d - 1
}

/// Whether day number `k` lies between the first and the last representable date.
pub open spec fn in_calendar_range(k: int) -> bool {
    day_number(FIRST_YEAR as int, 1, 1) <= k <= day_number(LAST_YEAR as int, 12, 31)
}

/// A calendar date as year, month (1 to 12) and day of the month.
#[derive(Clone, Copy, Debug, PartialEq, Eq)]
pub struct CivilDate {
    pub year: i32,
    pub month: u32,
    pub day: u32,
}

impl CivilDate {
    /// The date exists in the calendar and lies in the representable years.
    pub open spec fn wf(&self) -> bool {
        FIRST_YEAR <= self.year <= LAST_YEAR && 1 <= self.month <= 12 && 1 <= self.day
            <= month_length(self.year as int, self.month as int)
    }

    pub open spec fn number(&self) -> int {
        day_number(self.year as int, self.month as int, self.day as int)
    }

    /// The date with the given year, month and day, if it exists.
    pub fn from_ymd(year: i32, month: u32, day: u32) -> (r: Option<CivilDate>)
        ensures
            r is Some <==> (FIRST_YEAR <= year <= LAST_YEAR && 1 <= month <= 12 && 1 <= day
                <= month_length(year as int, month as int)),
            r is Some ==> r->0 == (CivilDate { year, month, day }),
    {
        if year < FIRST_YEAR || year > LAST_YEAR || month < 1 || month > 12 || day < 1 {
            return None;
        }
        let leap = (year % 4 == 0 && year % 100 != 0) || year % 400 == 0;
        assert(leap == is_leap_year(year as int));
        let length: u32 = if month == 2 {
            if leap {
                29
            } else {
                28
            }
        } else if month == 4 || month == 6 || month == 9 || month == 11 {
            30
        } else {
            31
        };
        if day > length {
            None
        } else {
            Some(CivilDate { year, month, day })
        }
    }
}

/// Relies on chrono's NaiveDate::checked_add_signed: the date a whole number of
/// days away in the proleptic Gregorian calendar, or None past NaiveDate::MIN
/// (-262143-01-01) or NaiveDate::MAX (262142-12-31). The dates pass in and out
/// of chrono through NaiveDate::from_ymd_opt and Datelike's year, month and day,
/// the count through TimeDelta::try_days.
#[verifier::external_body]
fn checked_add_days(d: CivilDate, n: i64) -> (r: Option<CivilDate>)
    requires
        d.wf(),
    ensures
        r is Some <==> in_calendar_range(d.number() + n),
        r is Some ==> r->0.wf() && r->0.number() == d.number() + n,
{
    let start = NaiveDate::from_ymd_opt(d.year, d.month, d.day)?;
    let end = start.checked_add_signed(TimeDelta::try_days(n)?)?;
    Some(CivilDate { year: end.year(), month: end.month(), day: end.day() })
}

pub open spec fn year_length(y: int) -> int {
    if is_leap_year(y) {
        366
    } else {
        365
    }
}

proof fn lemma_div_step(y: int, k: int)
    requires
        k > 0,
    ensures
        y / k - (y - 1) / k == (if y % k == 0 { 1int } else { 0 }),
{
    let q = y / k;
    let r = y % k;
    lemma_fundamental_div_mod(y, k);
    assert(y == q * k + r) by (nonlinear_arith)
        requires
            y == k * q + r,
    ;
    if r == 0 {
        assert(y - 1 == (q - 1) * k + (k - 1)) by (nonlinear_arith)
            requires
                y == q * k,
        ;
        lemma_fundamental_div_mod_converse(y - 1, k, q - 1, k - 1);
    } else {
        lemma_fundamental_div_mod_converse(y - 1, k, q, r - 1);
    }
}

/// A multiple of `a * b` is a multiple of `b`.
proof fn lemma_multiple(y: int, a: int, b: int)
    requires
        a > 0,
        b > 0,
        y % (a * b) == 0,
    ensures
        y % b == 0,
{
    let q = y / (a * b);
    assert(a * b > 0) by (nonlinear_arith)
        requires
            a > 0,
            b > 0,
    ;
    lemma_fundamental_div_mod(y, a * b);
    assert(y == (q * a) * b + 0) by (nonlinear_arith)
        requires
            y == (a * b) * q + y % (a * b),
            y % (a * b) == 0,
    ;
    lemma_fundamental_div_mod_converse(y, b, q * a, 0);
}

proof fn lemma_year_step(y: int)
    ensures
        day_number(y + 1, 1, 1) == day_number(y, 1, 1) + year_length(y),
{
    lemma_div_step(y, 4);
    lemma_div_step(y, 100);
    lemma_div_step(y, 400);
    if y % 400 == 0 {
        lemma_multiple(y, 4, 100);
    }
    if y % 100 == 0 {
        lemma_multiple(y, 25, 4);
    }
    assert(days_before_month(y, 1) == 0);
    assert(days_before_month(y + 1, 1) == 0);
}

proof fn lemma_years_ordered(a: int, b: int)
    requires
        a < b,
    ensures
        day_number(a + 1, 1, 1) <= day_number(b, 1, 1),
    decreases b - a,
{
    if a + 1 < b {
        lemma_years_ordered(a, b - 1);
        lemma_year_step(b - 1);
    }
}

proof fn lemma_within_year(d: CivilDate)
    requires
        d.wf(),
    ensures
        day_number(d.year as int, 1, 1) <= d.number(),
        d.number() < day_number(d.year as int + 1, 1, 1),
{
    lemma_year_step(d.year as int);
}

proof fn lemma_months_ordered(y: int, a: int, b: int)
    requires
        1 <= a < b <= 12,
    ensures
        days_before_month(y, a) + month_length(y, a) <= days_before_month(y, b),
{
}

/// A day number names at most one date.
pub proof fn lemma_number_unique(a: CivilDate, b: CivilDate)
    requires
        a.wf(),
        b.wf(),
        a.number() == b.number(),
    ensures
        a == b,
{
    lemma_within_year(a);
    lemma_within_year(b);
    if a.year < b.year {
        lemma_years_ordered(a.year as int, b.year as int);
    } else if b.year < a.year {
        lemma_years_ordered(b.year as int, a.year as int);
    }
    assert(a.year == b.year);
    if a.month < b.month {
        lemma_months_ordered(a.year as int, a.month as int, b.month as int);
    } else if b.month < a.month {
        lemma_months_ordered(a.year as int, b.month as int, a.month as int);
    }
}

/// Every date in the representable years has a day number in range.
pub proof fn lemma_date_in_range(d: CivilDate)
    requires
        d.wf(),
    ensures
        in_calendar_range(d.number()),
{
    lemma_within_year(d);
    let first = FIRST_YEAR as int;
    let last = LAST_YEAR as int;
    if first < d.year {
        lemma_years_ordered(first, d.year as int);
        lemma_year_step(first);
    }
    if d.year < last {
        lemma_years_ordered(d.year as int, last);
    }
    lemma_year_step(last);
}

/// A date is the date of its own day number.
pub proof fn lemma_date_numbered(d: CivilDate)
    requires
        d.wf(),
    ensures
        date_numbered(d.number()) == d,
{
    lemma_number_unique(d, date_numbered(d.number()));
}

/// The date whose day number is `k`.
pub open spec fn date_numbered(k: int) -> CivilDate {
    choose|e: CivilDate| e.wf() && e.number() == k
}

/// The date `n` days after `d` (before it, for negative `n`), or None where that
/// date is past the representable range.
pub fn shift_days(d: CivilDate, n: i64) -> (r: Option<CivilDate>)
    requires
        d.wf(),
    ensures
        r is Some <==> in_calendar_range(d.number() + n),
        r is Some ==> r->0.wf() && r->0 == date_numbered(d.number() + n),
{
    let r = checked_add_days(d, n);
    if let Some(e) = r {
        proof {
            let k = d.number() + n;
            assert(e.wf() && e.number() == k);
            lemma_number_unique(e, date_numbered(k));
        }
    }
    r
}

} // verus!
