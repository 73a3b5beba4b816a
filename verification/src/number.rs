//! Decimal numbers in text: the unsigned-integer syntax that `u32`, `u64`
//! and `usize` accept from `str::parse`, the syntax of a decimal
//! floating-point literal, and decimal rendering of integers.
use vstd::prelude::*;
use crate::text::{lower, lower_chars, lit, sub_chars};

verus! {

pub open spec fn is_digit(c: char) -> bool {
    '0' <= c && c <= '9'
}

pub open spec fn digit_value(c: char) -> nat {
    ((c as int) - 48) as nat
}

/// The value of a string of decimal digits (most significant first).
pub open spec fn digits_value(s: Seq<char>) -> nat
    decreases s.len(),
{
    if s.len() == 0 {
        0
    } else {
        digits_value(s.drop_last()) * 10 + digit_value(s.last())
    }
}

pub open spec fn all_digits(s: Seq<char>) -> bool {
    forall|i: int| 0 <= i < s.len() ==> is_digit(#[trigger] s[i])
}

/// The digits after an optional leading `+`.
pub open spec fn unsigned_body(s: Seq<char>) -> Seq<char> {
    if s.len() > 0 && s[0] == '+' {
        s.drop_first()
    } else {
        s
    }
}

/// What `str::parse` gives for an unsigned integer type whose largest value
/// is `max`: an optional `+`, then at least one ASCII digit and nothing
/// else, with a value that fits.
pub open spec fn parse_unsigned(s: Seq<char>, max: nat) -> Option<nat> {
    let b = unsigned_body(s);
    if b.len() > 0 && all_digits(b) && digits_value(b) <= max {
        Some(digits_value(b))
    } else {
        None
    }
}

proof fn lemma_digits_value_mono(s: Seq<char>, i: int)
    requires
        0 <= i <= s.len(),
        all_digits(s),
    ensures
        digits_value(s.take(i)) <= digits_value(s),
    decreases s.len() - i,
{
    if i < s.len() {
        lemma_digits_value_mono(s, i + 1);
        assert(s.take(i + 1).drop_last() =~= s.take(i));
        assert(is_digit(s[i]));
    } else {
        assert(s.take(i) =~= s);
    }
}

/// Parses an unsigned integer no larger than `max`, as `str::parse` does for
/// the unsigned type whose largest value is `max`.
pub fn parse_unsigned_chars(s: &Vec<char>, max: u64) -> (r: Option<u64>)
    ensures
        match r {
            Some(v) => parse_unsigned(s@, max as nat) == Some(v as nat),
            None => parse_unsigned(s@, max as nat) is None,
        },
{
    let start: usize = if s.len() > 0 && s[0] == '+' {
        1
    } else {
        0
    };
    let ghost b = unsigned_body(s@);
    assert(b =~= s@.skip(start as int));
    if start == s.len() {
        return None;
    }
    let mut acc: u64 = 0;
    let mut i: usize = start;
    while i < s.len()
        invariant
            start <= i <= s.len(),
            b == s@.skip(start as int),
            b == unsigned_body(s@),
            acc as nat == digits_value(b.take(i - start)),
            all_digits(b.take(i - start)),
            acc <= max,
        decreases s.len() - i,
    {
        let c = s[i];
        assert(b[i - start] == c);
        assert(b.take(i - start + 1).drop_last() =~= b.take(i - start));
        if !('0' <= c && c <= '9') {
            assert(!all_digits(b));
            return None;
        }
        let d = (c as u64) - 48;
        let next: u128 = (acc as u128) * 10 + (d as u128);
        assert(next == digits_value(b.take(i - start + 1)));
        if next > max as u128 {
            proof {
                if all_digits(b) {
                    lemma_digits_value_mono(b, i - start + 1);
                }
            }
            return None;
        }
        acc = next as u64;
        i = i + 1;
        assert(all_digits(b.take(i - start)));
    }
    assert(b.take(s.len() - start) =~= b);
    Some(acc)
}

/// The number of ASCII digits at the start of `s`.
pub open spec fn lead_digits(s: Seq<char>) -> nat
    decreases s.len(),
{
    if s.len() > 0 && is_digit(s[0]) {
        1 + lead_digits(s.drop_first())
    } else {
        0
    }
}

/// An exponent part: nothing, or `e` then an optional sign and at least one
/// digit (the text is already lower-cased).
pub open spec fn exponent_ok(e: Seq<char>) -> bool {
    e.len() == 0 || (e[0] == 'e' && {
        let t = e.drop_first();
        let u = if t.len() > 0 && (t[0] == '+' || t[0] == '-') {
            t.drop_first()
        } else {
            t
        };
        u.len() > 0 && all_digits(u)
    })
}

/// A decimal number `Digit+ | Digit+ '.' Digit* | Digit* '.' Digit+`
/// followed by an optional exponent (the text is already lower-cased).
pub open spec fn decimal_number(l: Seq<char>) -> bool {
    let d1 = lead_digits(l);
    let rest = l.skip(d1 as int);
    if rest.len() > 0 && rest[0] == '.' {
        let r2 = rest.drop_first();
        let d2 = lead_digits(r2);
        d1 + d2 > 0 && exponent_ok(r2.skip(d2 as int))
    } else {
        d1 > 0 && exponent_ok(rest)
    }
}

/// The text that `str::parse` accepts for a 32-bit floating-point value: an
/// optional sign, then, ignoring ASCII case, `inf`, `infinity`, `nan` or a
/// decimal number.
pub open spec fn is_float_text(s: Seq<char>) -> bool {
    let b = if s.len() > 0 && (s[0] == '+' || s[0] == '-') {
        s.drop_first()
    } else {
        s
    };
    let l = lower(b);
    l == "inf"@ || l == "infinity"@ || l == "nan"@ || decimal_number(l)
}

/// Equality of two character vectors.
pub fn same_chars(a: &Vec<char>, b: &Vec<char>) -> (r: bool)
    ensures
        r == (a@ == b@),
{
    if a.len() != b.len() {
        return false;
    }
    let mut i: usize = 0;
    while i < a.len()
        invariant
            a.len() == b.len(),
            i <= a.len(),
            forall|j: int| 0 <= j < i ==> a@[j] == b@[j],
        decreases a.len() - i,
    {
        if a[i] != b[i] {
            return false;
        }
        i = i + 1;
    }
    assert(a@ =~= b@);
    true
}

/// Counts the digits that start at `from`.
fn count_digits(s: &Vec<char>, from: usize) -> (n: usize)
    requires
        from <= s.len(),
    ensures
        n == lead_digits(s@.skip(from as int)),
        from + n <= s.len(),
{
    let mut i = from;
    while i < s.len() && '0' <= s[i] && s[i] <= '9'
        invariant
            from <= i <= s.len(),
            lead_digits(s@.skip(from as int)) == (i - from) + lead_digits(s@.skip(i as int)),
        decreases s.len() - i,
    {
        assert(s@.skip(i as int).drop_first() =~= s@.skip(i + 1));
        i = i + 1;
    }
    i - from
}

fn exponent_chars_ok(s: &Vec<char>, from: usize) -> (b: bool)
    requires
        from <= s.len(),
    ensures
        b == exponent_ok(s@.skip(from as int)),
{
    let ghost e = s@.skip(from as int);
    if from == s.len() {
        return true;
    }
    if s[from] != 'e' {
        return false;
    }
    let mut i = from + 1;
    assert(e.drop_first() =~= s@.skip(i as int));
    if i < s.len() && (s[i] == '+' || s[i] == '-') {
        i = i + 1;
        assert(e.drop_first().drop_first() =~= s@.skip(i as int));
    }
    let n = count_digits(s, i);
    proof {
        lead_digits_all(s@.skip(i as int));
    }
    n > 0 && i + n == s.len()
}

pub proof fn lead_digits_all(s: Seq<char>)
    ensures
        lead_digits(s) <= s.len(),
        lead_digits(s) == s.len() <==> all_digits(s),
        forall|k: int| 0 <= k < lead_digits(s) ==> is_digit(#[trigger] s[k]),
        lead_digits(s) < s.len() ==> !is_digit(s[lead_digits(s) as int]),
    decreases s.len(),
{
    if s.len() > 0 && is_digit(s[0]) {
        lead_digits_all(s.drop_first());
        assert forall|k: int| 0 <= k < lead_digits(s) implies is_digit(#[trigger] s[k]) by {
            if k > 0 {
                assert(s[k] == s.drop_first()[k - 1]);
            }
        }
        if all_digits(s) {
            assert(all_digits(s.drop_first()));
        }
        if lead_digits(s) == s.len() {
            assert(all_digits(s));
        }
    }
}

fn special_word(l: &Vec<char>) -> (b: bool)
    ensures
        b == (l@ == "inf"@ || l@ == "infinity"@ || l@ == "nan"@),
{
    same_chars(l, &lit("inf")) || same_chars(l, &lit("infinity")) || same_chars(l, &lit("nan"))
}

fn decimal_number_chars(l: &Vec<char>) -> (b: bool)
    ensures
        b == decimal_number(l@),
{
    let d1 = count_digits(l, 0);
    assert(l@.skip(0) =~= l@);
    let ghost rest = l@.skip(d1 as int);
    if d1 < l.len() && l[d1] == '.' {
        let d2 = count_digits(l, d1 + 1);
        assert(rest.drop_first() =~= l@.skip(d1 + 1));
        assert(rest.drop_first().skip(d2 as int) =~= l@.skip(d1 + 1 + d2));
        d1 + d2 > 0 && exponent_chars_ok(l, d1 + 1 + d2)
    } else {
        d1 > 0 && exponent_chars_ok(l, d1)
    }
}

/// Whether `str::parse` accepts `s` as a 32-bit floating-point value.
pub fn float_text_ok(s: &Vec<char>) -> (b: bool)
    ensures
        b == is_float_text(s@),
{
    let start: usize = if s.len() > 0 && (s[0] == '+' || s[0] == '-') {
        1
    } else {
        0
    };
    let body = sub_chars(s, start, s.len());
    let l = lower_chars(&body);
    proof {
        if start == 1 {
            assert(body@ =~= s@.drop_first());
        } else {
            assert(body@ =~= s@);
        }
    }
    special_word(&l) || decimal_number_chars(&l)
}

pub open spec fn digit_char(d: nat) -> char {
    ((d + 48) as u8) as char
}

/// The decimal rendering of `n`, as `Display` writes an unsigned integer.
pub open spec fn decimal_text(n: nat) -> Seq<char>
    decreases n,
{
    if n < 10 {
        seq![digit_char(n)]
    } else {
        decimal_text(n / 10).push(digit_char(n % 10))
    }
}

/// Renders `n` in decimal.
pub fn decimal_chars(n: u64) -> (v: Vec<char>)
    ensures
        v@ == decimal_text(n as nat),
    decreases n,
{
    if n < 10 {
        let c = ((n as u8) + 48) as char;
        let mut v: Vec<char> = Vec::new();
        v.push(c);
        assert(v@ =~= decimal_text(n as nat));
        v
    } else {
        let mut v = decimal_chars(n / 10);
        let c = (((n % 10) as u8) + 48) as char;
        v.push(c);
        v
    }
}

} // verus!
