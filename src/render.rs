//! The three textual forms of a date.

use chrono::NaiveDate;
use crate::calendar::CivilDate;
use crate::words::same_text;
use crate::digits::{digits_of, value_of, push_char, push_digits};
use vstd::prelude::*;

verus! {

/// How a date is written.
#[derive(Clone, Copy, Debug, PartialEq, Eq)]
pub enum DateFormat {
    /// `DD/MM/YYYY`
    General,
    /// `MM/DD/YYYY`
    Us,
    /// `YYYY-MM-DD`
    Iso,
}

/// The format that a name selects: `gen`, `us` or `iso`.
pub open spec fn format_named(name: Seq<char>) -> Option<DateFormat> {
    if name == seq!['g', 'e', 'n'] {
        Some(DateFormat::General)
    } else if name == seq!['u', 's'] {
        Some(DateFormat::Us)
    } else if name == seq!['i', 's', 'o'] {
        Some(DateFormat::Iso)
    } else {
        None
    }
}

/// A year in at least four digits, after a `-` when it is negative.
pub open spec fn plain_year_text(y: int) -> Seq<char> {
    if y >= 0 {
        digits_of(y as nat, 4)
    } else {
        seq!['-'] + digits_of((-y) as nat, 4)
    }
}

/// A year as ISO 8601 writes it: four digits within 0 to 9999, else a sign and
/// at least four digits.
pub open spec fn year_text(y: int) -> Seq<char> {
    if y > 9999 {
        seq!['+'] + plain_year_text(y)
    } else {
        plain_year_text(y)
    }
}

pub open spec fn two_digits(n: int) -> Seq<char> {
    digits_of(n as nat, 2)
}

/// The text of date `d` in format `f`.
pub open spec fn date_text(f: DateFormat, d: CivilDate) -> Seq<char> {
    match f {
        DateFormat::General => two_digits(d.day as int) + seq!['/'] + two_digits(d.month as int)
            + seq!['/'] + plain_year_text(d.year as int),
        DateFormat::Us => two_digits(d.month as int) + seq!['/'] + two_digits(d.day as int)
            + seq!['/'] + plain_year_text(d.year as int),
        DateFormat::Iso => year_text(d.year as int) + seq!['-'] + two_digits(d.month as int)
            + seq!['-'] + two_digits(d.day as int),
    }
}

/// Reads a year written by `year_text` or `plain_year_text`.
pub open spec fn read_year(s: Seq<char>) -> int {
    if s.len() > 0 && s[0] == '+' {
        value_of(s.drop_first())
    } else if s.len() > 0 && s[0] == '-' {
        -value_of(s.drop_first())
    } else {
        value_of(s)
    }
}

/// Reads back text in format `f` as (year, month, day).
pub open spec fn read_date(f: DateFormat, s: Seq<char>) -> Option<(int, int, int)> {
    let n = s.len() as int;
    match f {
        DateFormat::Iso => if n >= 7 && s[n - 6] == '-' && s[n - 3] == '-' {
            Some(
                (
                    read_year(s.subrange(0, n - 6)),
                    value_of(s.subrange(n - 5, n - 3)),
                    value_of(s.subrange(n - 2, n)),
                ),
            )
        } else {
            None
        },
        _ => if n >= 7 && s[2] == '/' && s[5] == '/' {
            let first = value_of(s.subrange(0, 2));
            let second = value_of(s.subrange(3, 5));
            let year = read_year(s.subrange(6, n));
            if f == DateFormat::General {
                Some((year, second, first))
            } else {
                Some((year, first, second))
            }
        } else {
            None
        },
    }
}

/// Relies on chrono's `Display` for NaiveDate (which writes what its `Debug`
/// writes): the year as four digits when it lies in 0 to 9999, else as
/// `{:+05}`; then `-`, the month in two digits, `-`, the day in two digits.
/// The date enters chrono through NaiveDate::from_ymd_opt.
#[verifier::external_body]
fn chrono_iso_text(d: CivilDate) -> (r: String)
    requires
        d.wf(),
    ensures
        r@ == date_text(DateFormat::Iso, d),
{
    match NaiveDate::from_ymd_opt(d.year, d.month, d.day) {
        Some(date) => date.to_string(),
        None => String::new(),
    }
}

fn push_year(out: &mut String, y: i32)
    ensures
        final(out)@ == old(out)@ + plain_year_text(y as int),
{
    if y >= 0 {
        push_digits(out, y as u64, 4);
    } else {
        push_char(out, '-');
        let magnitude: u64 = (-(y as i64)) as u64;
        push_digits(out, magnitude, 4);
        assert(final(out)@ =~= old(out)@ + plain_year_text(y as int));
    }
}

impl DateFormat {
    /// The format with the given name, if the name is one of `gen`, `us`, `iso`.
    pub fn from_name(name: &str) -> (r: Option<DateFormat>)
        ensures
            r == format_named(name@),
    {
        proof {
            reveal_strlit("gen");
            reveal_strlit("us");
            reveal_strlit("iso");
        }
        assert("gen"@ =~= seq!['g', 'e', 'n']);
        assert("us"@ =~= seq!['u', 's']);
        assert("iso"@ =~= seq!['i', 's', 'o']);
        if same_text(name, "gen") {
            Some(DateFormat::General)
        } else if same_text(name, "us") {
            assert(name@.len() != 3);
            Some(DateFormat::Us)
        } else if same_text(name, "iso") {
            assert(name@[0] != 'g');
            Some(DateFormat::Iso)
        } else {
            None
        }
    }
}

/// Writes date `d` in format `f`.
pub fn write_date(d: CivilDate, f: DateFormat) -> (r: String)
    requires
        d.wf(),
    ensures
        r@ == date_text(f, d),
{
    match f {
        DateFormat::Iso => chrono_iso_text(d),
        DateFormat::General => {
            let mut out = String::new();
            push_digits(&mut out, d.day as u64, 2);
            push_char(&mut out, '/');
            push_digits(&mut out, d.month as u64, 2);
            push_char(&mut out, '/');
            push_year(&mut out, d.year);
            assert(out@ =~= date_text(f, d));
            out
        },
        DateFormat::Us => {
            let mut out = String::new();
            push_digits(&mut out, d.month as u64, 2);
            push_char(&mut out, '/');
            push_digits(&mut out, d.day as u64, 2);
            push_char(&mut out, '/');
            push_year(&mut out, d.year);
            assert(out@ =~= date_text(f, d));
            out
        },
    }
}

} // verus!
