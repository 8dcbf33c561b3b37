//! Properties that relate several requests or several formats.

use crate::answer::answer;
use crate::calendar::{lemma_date_in_range, lemma_date_numbered, CivilDate};
use crate::cli::{interpret, Fault, is_days_flag, is_format_flag, is_help_flag, scan, Parsed};
use crate::digits::{all_digits, digits_of, int_value, is_digit, lemma_digits_round_trip, value_of};
use crate::render::{date_text, plain_year_text, read_date, read_year, two_digits, year_text, DateFormat};
use vstd::prelude::*;

verus! {

proof fn lemma_number_is_no_flag(w: Seq<char>)
    requires
        int_value(w) is Some,
    ensures
        !is_days_flag(w),
        !is_format_flag(w),
        !is_help_flag(w),
{
    let signed = w.len() > 0 && (w[0] == '-' || w[0] == '+');
    let body = if signed { w.drop_first() } else { w };
    assert(all_digits(body));
    if w.len() >= 2 {
        if signed {
            assert(is_digit(body[0]));
            assert(body[0] == w[1]);
        } else {
            assert(is_digit(body[0]));
        }
    }
}

/// A day count given on its own means what it means after `--days`: for
/// every integer word `w`, `w` and `--days w` get the same answer.
pub proof fn lemma_positional_same_as_flag(w: Seq<char>, today: CivilDate)
    requires
        int_value(w) is Some,
    ensures
        interpret(seq![w]) == interpret(seq![seq!['-', '-', 'd', 'a', 'y', 's'], w]),
        interpret(seq![w]) == (Parsed::Compute {
            offset: int_value(w)->0,
            format: seq!['i', 's', 'o'],
        }),
        answer(seq![w], today) == answer(seq![seq!['-', '-', 'd', 'a', 'y', 's'], w], today),
{
    lemma_number_is_no_flag(w);
    let one = seq![w];
    let two = seq![seq!['-', '-', 'd', 'a', 'y', 's'], w];
    assert(one[0] == w);
    assert(two[0] == seq!['-', '-', 'd', 'a', 'y', 's']);
    assert(two[1] == w);
    assert(is_days_flag(two[0]));
    assert(scan(one, 1, Some(int_value(w)->0), None) == scan(two, 2, Some(int_value(w)->0), None));
}

/// `--days 0 --format iso` answers with the date taken as today, in ISO form.
pub proof fn lemma_zero_days_is_today(today: CivilDate)
    requires
        today.wf(),
    ensures
        answer(
            seq![
                seq!['-', '-', 'd', 'a', 'y', 's'],
                seq!['0'],
                seq!['-', '-', 'f', 'o', 'r', 'm', 'a', 't'],
                seq!['i', 's', 'o'],
            ],
            today,
        ) == Ok::<Option<Seq<char>>, Fault>(Some(date_text(DateFormat::Iso, today))),
{
    let args = seq![
        seq!['-', '-', 'd', 'a', 'y', 's'],
        seq!['0'],
        seq!['-', '-', 'f', 'o', 'r', 'm', 'a', 't'],
        seq!['i', 's', 'o'],
    ];
    assert(args[0] == seq!['-', '-', 'd', 'a', 'y', 's']);
    assert(args[1] == seq!['0']);
    assert(args[2] == seq!['-', '-', 'f', 'o', 'r', 'm', 'a', 't']);
    assert(args[3] == seq!['i', 's', 'o']);
    assert(seq!['0'].drop_last() =~= Seq::<char>::empty());
    assert(seq!['0'].last() == '0');
    assert(value_of(Seq::<char>::empty()) == 0);
    assert(value_of(seq!['0']) == 0);
    assert(is_digit(seq!['0'][0]));
    assert(all_digits(seq!['0']));
    assert(int_value(seq!['0']) == Some(0int));
    assert(is_format_flag(args[2]));
    assert(!is_days_flag(args[2]));
    assert(scan(args, 4, Some(0), Some(args[3])) == (Parsed::Compute {
        offset: 0,
        format: seq!['i', 's', 'o'],
    }));
    assert(scan(args, 2, Some(0), None) == scan(args, 4, Some(0), Some(args[3])));
    assert(scan(args, 0, None, None) == scan(args, 2, Some(0), None));
    assert(interpret(args) == (Parsed::Compute { offset: 0, format: seq!['i', 's', 'o'] }));
    lemma_date_in_range(today);
    lemma_date_numbered(today);
}

proof fn lemma_two_digits(n: int)
    requires
        0 <= n < 100,
    ensures
        two_digits(n).len() == 2,
        value_of(two_digits(n)) == n,
{
    lemma_digits_round_trip(n as nat, 2);
}

proof fn lemma_year_round_trip(y: int)
    ensures
        read_year(plain_year_text(y)) == y,
        plain_year_text(y).len() >= 4,
        read_year(year_text(y)) == y,
        year_text(y).len() >= 4,
{
    if y >= 0 {
        lemma_digits_round_trip(y as nat, 4);
        assert(is_digit(digits_of(y as nat, 4)[0]));
        if y > 9999 {
            assert((seq!['+'] + digits_of(y as nat, 4)).drop_first() =~= digits_of(y as nat, 4));
        }
    } else {
        lemma_digits_round_trip((-y) as nat, 4);
        assert((seq!['-'] + digits_of((-y) as nat, 4)).drop_first() =~= digits_of((-y) as nat, 4));
    }
}

/// The three textual forms of one date all read back as that date.
pub proof fn lemma_formats_agree(d: CivilDate)
    requires
        d.wf(),
    ensures
        read_date(DateFormat::General, date_text(DateFormat::General, d)) == Some(
            (d.year as int, d.month as int, d.day as int),
        ),
        read_date(DateFormat::Us, date_text(DateFormat::Us, d)) == Some(
            (d.year as int, d.month as int, d.day as int),
        ),
        read_date(DateFormat::Iso, date_text(DateFormat::Iso, d)) == Some(
            (d.year as int, d.month as int, d.day as int),
        ),
{
    let y = year_text(d.year as int);
    let py = plain_year_text(d.year as int);
    let m = two_digits(d.month as int);
    let dd = two_digits(d.day as int);
    lemma_year_round_trip(d.year as int);
    lemma_two_digits(d.month as int);
    lemma_two_digits(d.day as int);

    let g = date_text(DateFormat::General, d);
    assert(g =~= dd + seq!['/'] + m + seq!['/'] + py);
    assert(g.subrange(0, 2) =~= dd);
    assert(g.subrange(3, 5) =~= m);
    assert(g.subrange(6, g.len() as int) =~= py);
    assert(g[2] == '/' && g[5] == '/');

    let u = date_text(DateFormat::Us, d);
    assert(u =~= m + seq!['/'] + dd + seq!['/'] + py);
    assert(u.subrange(0, 2) =~= m);
    assert(u.subrange(3, 5) =~= dd);
    assert(u.subrange(6, u.len() as int) =~= py);
    assert(u[2] == '/' && u[5] == '/');

    let i = date_text(DateFormat::Iso, d);
    let n = i.len() as int;
    assert(i =~= y + seq!['-'] + m + seq!['-'] + dd);
    assert(i.subrange(0, n - 6) =~= y);
    assert(i.subrange(n - 5, n - 3) =~= m);
    assert(i.subrange(n - 2, n) =~= dd);
    assert(i[n - 6] == '-' && i[n - 3] == '-');
}

} // verus!
