//! Decimal text: fixed-width rendering of natural numbers and parsing of
//! signed 64-bit integers.

use vstd::prelude::*;

verus! {

/// The character for a decimal digit `d` in `0..10`.
pub open spec fn digit_char(d: int) -> char {
    if d == 0 {
        '0'
    } else if d == 1 {
        '1'
    } else if d == 2 {
        '2'
    } else if d == 3 {
        '3'
    } else if d == 4 {
        '4'
    } else if d == 5 {
        '5'
    } else if d == 6 {
        '6'
    } else if d == 7 {
        '7'
    } else if d == 8 {
        '8'
    } else {
        '9'
    }
}

pub open spec fn is_digit(c: char) -> bool {
    '0' <= c && c <= '9'
}

/// The value of a digit character.
pub open spec fn digit_of(c: char) -> int {
    c as u32 - '0' as u32
}

pub open spec fn all_digits(s: Seq<char>) -> bool {
    forall|i: int| 0 <= i < s.len() ==> #[trigger] is_digit(s[i])
}

/// The number that a string of digits denotes, most significant first.
pub open spec fn value_of(s: Seq<char>) -> int
    decreases s.len(),
{
    if s.len() == 0 {
        0
    } else {
        value_of(s.drop_last()) * 10 + digit_of(s.last())
    }
}

/// `n` in decimal, padded with leading zeros to at least `w` digits.
pub open spec fn digits_of(n: nat, w: nat) -> Seq<char>
    decreases n + w,
{
    if n < 10 && w <= 1 {
        seq![digit_char(n as int)]
    } else {
        digits_of(n / 10, if w == 0 { 0 } else { (w - 1) as nat }).push(digit_char((n % 10) as int))
    }
}

/// What `str::parse::<i64>` accepts: an optional `+` or `-`, then one or
/// more ASCII digits, denoting a value that fits in an `i64`.
pub open spec fn int_value(s: Seq<char>) -> Option<int> {
    let signed = s.len() > 0 && (s[0] == '-' || s[0] == '+');
    let body = if signed { s.drop_first() } else { s };
    let v = if signed && s[0] == '-' { -value_of(body) } else { value_of(body) };
    if body.len() > 0 && all_digits(body) && i64::MIN <= v <= i64::MAX {
        Some(v)
    } else {
        None
    }
}

pub proof fn lemma_digit_char(d: int)
    requires
        0 <= d < 10,
    ensures
        is_digit(digit_char(d)),
        digit_of(digit_char(d)) == d,
{
}

pub proof fn lemma_value_nonneg(s: Seq<char>)
    requires
        all_digits(s),
    ensures
        value_of(s) >= 0,
    decreases s.len(),
{
    if s.len() > 0 {
        let t = s.drop_last();
        assert(all_digits(t)) by {
            assert forall|i: int| 0 <= i < t.len() implies #[trigger] is_digit(t[i]) by {
                assert(t[i] == s[i]);
            }
        }
        assert(is_digit(s[s.len() - 1]));
        lemma_value_nonneg(t);
    }
}

/// A prefix of a digit string denotes no more than the whole.
pub proof fn lemma_value_prefix(s: Seq<char>, k: int)
    requires
        all_digits(s),
        0 <= k <= s.len(),
    ensures
        0 <= value_of(s.subrange(0, k)) <= value_of(s),
    decreases s.len(),
{
    if k == s.len() {
        assert(s.subrange(0, k) =~= s);
        lemma_value_nonneg(s);
    } else {
        let t = s.drop_last();
        assert(all_digits(t)) by {
            assert forall|i: int| 0 <= i < t.len() implies #[trigger] is_digit(t[i]) by {
                assert(t[i] == s[i]);
            }
        }
        assert(is_digit(s[s.len() - 1]));
        lemma_value_prefix(t, k);
        assert(t.subrange(0, k) =~= s.subrange(0, k));
        lemma_value_nonneg(t);
    }
}

/// Rendering then reading back gives the number again.
pub proof fn lemma_digits_round_trip(n: nat, w: nat)
    ensures
        all_digits(digits_of(n, w)),
        value_of(digits_of(n, w)) == n,
        digits_of(n, w).len() >= 1,
        w >= 1 ==> digits_of(n, w).len() >= w,
        n < 10 && w <= 1 ==> digits_of(n, w).len() == 1,
        n < 100 && w == 2 ==> digits_of(n, w).len() == 2,
    decreases n + w,
{
    if n < 10 && w <= 1 {
        lemma_digit_char(n as int);
        assert(digits_of(n, w).drop_last() =~= Seq::<char>::empty());
        assert(value_of(Seq::<char>::empty()) == 0);
        assert(value_of(digits_of(n, w)) == value_of(Seq::<char>::empty()) * 10 + digit_of(
            digit_char(n as int),
        ));
    } else {
        let w2: nat = if w == 0 { 0 } else { (w - 1) as nat };
        lemma_digits_round_trip(n / 10, w2);
        lemma_digit_char((n % 10) as int);
        let s = digits_of(n, w);
        assert(s.drop_last() =~= digits_of(n / 10, w2));
        assert(value_of(s) == value_of(digits_of(n / 10, w2)) * 10 + (n % 10));
        assert((n / 10) * 10 + n % 10 == n);
        assert(all_digits(s)) by {
            assert forall|i: int| 0 <= i < s.len() implies #[trigger] is_digit(s[i]) by {
                if i < s.len() - 1 {
                    assert(s[i] == digits_of(n / 10, w2)[i]);
                }
            }
        }
    }
}

/// Relies on std's String::push: appends one character.
#[verifier::external_body]
pub(crate) fn push_char(s: &mut String, c: char)
    ensures
        final(s)@ == old(s)@.push(c),
{
    s.push(c)
}

fn digit_to_char(d: u64) -> (c: char)
    requires
        d < 10,
    ensures
        c == digit_char(d as int),
{
    if d == 0 {
        '0'
    } else if d == 1 {
        '1'
    } else if d == 2 {
        '2'
    } else if d == 3 {
        '3'
    } else if d == 4 {
        '4'
    } else if d == 5 {
        '5'
    } else if d == 6 {
        '6'
    } else if d == 7 {
        '7'
    } else if d == 8 {
        '8'
    } else {
        '9'
    }
}

/// Appends `n` in decimal, padded with zeros to at least `w` digits.
pub fn push_digits(out: &mut String, n: u64, w: u64)
    ensures
        final(out)@ == old(out)@ + digits_of(n as nat, w as nat),
    decreases n + w,
{
    if n < 10 && w <= 1 {
        push_char(out, digit_to_char(n));
        assert(old(out)@.push(digit_char(n as int)) =~= old(out)@ + digits_of(n as nat, w as nat));
    } else {
        let w2: u64 = if w == 0 { 0 } else { w - 1 };
        push_digits(out, n / 10, w2);
        push_char(out, digit_to_char(n % 10));
        assert(final(out)@ =~= old(out)@ + digits_of(n as nat, w as nat));
    }
}

fn digit_value(c: char) -> (r: Option<i64>)
    ensures
        r is Some <==> is_digit(c),
        r is Some ==> r->0 == digit_of(c),
{
    if '0' <= c && c <= '9' {
        Some((c as u32 - '0' as u32) as i64)
    } else {
        None
    }
}

/// Parses a signed decimal integer the way `str::parse::<i64>` does.
pub fn parse_i64(s: &str) -> (r: Option<i64>)
    ensures
        r is Some <==> int_value(s@) is Some,
        r is Some ==> r->0 as int == int_value(s@)->0,
{
    let len = s.unicode_len();
    if len == 0 {
        return None;
    }
    let first = s.get_char(0);
    let neg = first == '-';
    let start: usize = if first == '-' || first == '+' { 1 } else { 0 };
    if start >= len {
        return None;
    }
    let ghost body = s@.subrange(start as int, len as int);
    let ghost signed = s@.len() > 0 && (s@[0] == '-' || s@[0] == '+');
    assert(signed == (start == 1));
    assert(body =~= (if signed { s@.drop_first() } else { s@ }));
    assert(neg == (signed && s@[0] == '-'));
    let mut acc: i64 = 0;
    let mut i: usize = start;
    while i < len
        invariant
            start <= i <= len,
            len == s@.len(),
            start == 0 || start == 1,
            body == s@.subrange(start as int, len as int),
            body == (if signed { s@.drop_first() } else { s@ }),
            neg == (signed && s@[0] == '-'),
            signed == (s@.len() > 0 && (s@[0] == '-' || s@[0] == '+')),
            all_digits(s@.subrange(start as int, i as int)),
            acc as int == (if neg { -value_of(s@.subrange(start as int, i as int)) } else { value_of(
                s@.subrange(start as int, i as int),
            ) }),
        decreases len - i,
    {
        let c = s.get_char(i);
        let ghost pre = s@.subrange(start as int, i as int);
        let ghost next = s@.subrange(start as int, i as int + 1);
        assert(next.drop_last() =~= pre);
        assert(next.last() == c);
        match digit_value(c) {
            None => {
                assert(body[i - start] == c);
                assert(!all_digits(body));
                return None;
            },
            Some(d) => {
                assert(all_digits(next)) by {
                    assert forall|j: int| 0 <= j < next.len() implies #[trigger] is_digit(next[j]) by {
                        if j < pre.len() {
                            assert(next[j] == pre[j]);
                        }
                    }
                }
                assert(next =~= body.subrange(0, i + 1 - start));
                assert(value_of(next) == value_of(pre) * 10 + d);
                let step = if neg {
                    match acc.checked_mul(10) {
                        Some(t) => t.checked_sub(d),
                        None => None,
                    }
                } else {
                    match acc.checked_mul(10) {
                        Some(t) => t.checked_add(d),
                        None => None,
                    }
                };
                match step {
                    Some(v) => {
                        acc = v;
                    },
                    None => {
                        proof {
                            lemma_value_nonneg(pre);
                            if all_digits(body) {
                                lemma_value_prefix(body, i + 1 - start);
                            }
                            assert(value_of(next) > i64::MAX || -value_of(next) < i64::MIN);
                        }
                        return None;
                    },
                }
            },
        }
        i = i + 1;
    }
    assert(s@.subrange(start as int, i as int) =~= body);
    Some(acc)
}

} // verus!
