//! Decimal numerals: reading and writing unsigned and signed integers.

use vstd::prelude::*;
use crate::text::push_char;

verus! {

pub open spec fn is_digit(c: char) -> bool {
    '0' <= c && c <= '9'
}

pub open spec fn digit_value(c: char) -> nat {
    (c as int - '0' as int) as nat
}

pub open spec fn digit_char(d: nat) -> char {
    (d + 48) as char
}

pub open spec fn all_digits(s: Seq<char>) -> bool {
    forall|i: int| 0 <= i < s.len() ==> is_digit(#[trigger] s[i])
}

/// The number that the digit string `s` denotes (0 for the empty string).
pub open spec fn digits_value(s: Seq<char>) -> nat
    decreases s.len(),
{
    if s.len() == 0 {
        0
    } else {
        digits_value(s.drop_last()) * 10 + digit_value(s.last())
    }
}

/// What follows an optional leading `+`.
pub open spec fn unsigned_digits(s: Seq<char>) -> Seq<char> {
    if s.len() > 0 && s[0] == '+' {
        s.drop_first()
    } else {
        s
    }
}

/// A decimal numeral as Rust reads an unsigned integer: an optional `+`, then
/// one or more ASCII digits.
pub open spec fn parse_unsigned(s: Seq<char>) -> Option<nat> {
    let d = unsigned_digits(s);
    if d.len() > 0 && all_digits(d) {
        Some(digits_value(d))
    } else {
        None
    }
}

/// `s` read as a `u64`, or `None` if it is not a numeral or is too large.
pub open spec fn parse_u64_spec(s: Seq<char>) -> Option<u64> {
    match parse_unsigned(s) {
        Some(v) => if v <= u64::MAX { Some(v as u64) } else { None },
        None => None,
    }
}

/// `s` read as a `u16`, or `None` if it is not a numeral or is too large.
pub open spec fn parse_u16_spec(s: Seq<char>) -> Option<u16> {
    match parse_unsigned(s) {
        Some(v) => if v <= u16::MAX { Some(v as u16) } else { None },
        None => None,
    }
}

/// The shortest decimal numeral of `n`.
pub open spec fn decimal_text(n: nat) -> Seq<char>
    decreases n,
{
    if n < 10 {
        seq![digit_char(n)]
    } else {
        decimal_text(n / 10).push(digit_char(n % 10))
    }
}

/// The decimal numeral of `n`, with a leading `-` when negative.
pub open spec fn signed_decimal_text(n: int) -> Seq<char> {
    if n < 0 {
        seq!['-'] + decimal_text((-n) as nat)
    } else {
        decimal_text(n as nat)
    }
}

pub proof fn lemma_digit_char(d: nat)
    requires
        d < 10,
    ensures
        is_digit(digit_char(d)),
        digit_value(digit_char(d)) == d,
{
}

/// The numeral of `n` is a non-empty run of digits that denotes `n`.
pub proof fn lemma_decimal_text(n: nat)
    ensures
        decimal_text(n).len() > 0,
        all_digits(decimal_text(n)),
        digits_value(decimal_text(n)) == n,
    decreases n,
{
    if n < 10 {
        lemma_digit_char(n);
        assert(decimal_text(n).drop_last() =~= Seq::<char>::empty());
        assert(decimal_text(n).last() == digit_char(n));
        assert(digits_value(decimal_text(n)) == digits_value(Seq::<char>::empty()) * 10 + digit_value(digit_char(n)));
    } else {
        lemma_decimal_text(n / 10);
        lemma_digit_char(n % 10);
        let t = decimal_text(n / 10);
        assert(decimal_text(n).drop_last() =~= t);
        assert(decimal_text(n).last() == digit_char(n % 10));
        assert(digits_value(decimal_text(n)) == digits_value(t) * 10 + digit_value(digit_char(n % 10)));
        assert forall|i: int| 0 <= i < decimal_text(n).len() implies is_digit(#[trigger] decimal_text(n)[i]) by {
            if i < t.len() {
                assert(decimal_text(n)[i] == t[i]);
            }
        }
    }
}

/// Reading the numeral of `n` gives back `n`.
pub proof fn lemma_parse_decimal_text(n: nat)
    ensures
        parse_unsigned(decimal_text(n)) == Some(n),
{
    lemma_decimal_text(n);
    assert(decimal_text(n)[0] != '+') by {
        assert(is_digit(decimal_text(n)[0]));
    }
}

/// Reading the numeral of a `u64` as a `u64` gives it back.
pub proof fn lemma_parse_u64_text(n: u64)
    ensures
        parse_u64_spec(decimal_text(n as nat)) == Some(n),
{
    lemma_parse_decimal_text(n as nat);
}

/// Reading the numeral of a `u16` as a `u16` gives it back.
pub proof fn lemma_parse_u16_text(n: u16)
    ensures
        parse_u16_spec(decimal_text(n as nat)) == Some(n),
{
    lemma_parse_decimal_text(n as nat);
}

proof fn lemma_digits_value_step(s: Seq<char>, i: int)
    requires
        0 <= i < s.len(),
    ensures
        digits_value(s.subrange(0, i + 1)) == digits_value(s.subrange(0, i)) * 10 + digit_value(s[i]),
{
    assert(s.subrange(0, i + 1).drop_last() =~= s.subrange(0, i));
}

proof fn lemma_digits_value_monotone(s: Seq<char>, i: int)
    requires
        0 <= i <= s.len(),
    ensures
        digits_value(s.subrange(0, i)) <= digits_value(s),
    decreases s.len() - i,
{
    if i < s.len() {
        lemma_digits_value_step(s, i);
        lemma_digits_value_monotone(s, i + 1);
    } else {
        assert(s.subrange(0, i) =~= s);
    }
}

/// Reads `v[lo..hi]` as an unsigned numeral no larger than `max`.
pub fn parse_bounded(v: &Vec<char>, lo: usize, hi: usize, max: u64) -> (r: Option<u64>)
    requires
        lo <= hi <= v@.len(),
    ensures
        match parse_unsigned(v@.subrange(lo as int, hi as int)) {
            Some(n) => if n <= max { r == Some(n as u64) } else { r is None },
            None => r is None,
        },
{
    let ghost s = v@.subrange(lo as int, hi as int);
    let mut start = lo;
    if lo < hi && v[lo] == '+' {
        start = lo + 1;
    }
    let ghost d = v@.subrange(start as int, hi as int);
    assert(d =~= unsigned_digits(s));
    if start == hi {
        return None;
    }
    let mut acc: u64 = 0;
    let mut i = start;
    while i < hi
        invariant
            lo <= start <= i <= hi <= v@.len(),
            d == v@.subrange(start as int, hi as int),
            d == unsigned_digits(v@.subrange(lo as int, hi as int)),
            d.len() > 0,
            all_digits(d.subrange(0, i - start)),
            acc == digits_value(d.subrange(0, i - start)),
            acc <= max,
        decreases hi - i,
    {
        let c = v[i];
        if !('0' <= c && c <= '9') {
            assert(d[i - start] == c);
            assert(!is_digit(d[i - start]));
            return None;
        }
        proof { lemma_digits_value_step(d, i - start); }
        let dv = (c as u32 - '0' as u32) as u64;
        assert(dv == digit_value(c));
        let next = acc.checked_mul(10);
        match next {
            None => {
                proof {
                    lemma_digits_value_monotone(d, i - start + 1);
                }
                return None;
            },
            Some(m) => {
                let sum = m.checked_add(dv);
                match sum {
                    None => {
                        proof {
                            lemma_digits_value_monotone(d, i - start + 1);
                        }
                        return None;
                    },
                    Some(t) => {
                        if t > max {
                            proof {
                                lemma_digits_value_monotone(d, i - start + 1);
                            }
                            return None;
                        }
                        acc = t;
                    },
                }
            },
        }
        i = i + 1;
        proof {
            assert forall|k: int| 0 <= k < i - start implies is_digit(#[trigger] d.subrange(0, i - start)[k]) by {
                if k < i - 1 - start {
                    assert(d.subrange(0, i - start)[k] == d.subrange(0, i - 1 - start)[k]);
                }
            }
        }
    }
    assert(d.subrange(0, hi - start) =~= d);
    Some(acc)
}

/// Reads `v[lo..hi]` as a `u64`.
pub fn parse_u64(v: &Vec<char>, lo: usize, hi: usize) -> (r: Option<u64>)
    requires
        lo <= hi <= v@.len(),
    ensures
        r == parse_u64_spec(v@.subrange(lo as int, hi as int)),
{
    parse_bounded(v, lo, hi, u64::MAX)
}

/// Reads `v[lo..hi]` as a `u16`.
pub fn parse_u16(v: &Vec<char>, lo: usize, hi: usize) -> (r: Option<u16>)
    requires
        lo <= hi <= v@.len(),
    ensures
        r == parse_u16_spec(v@.subrange(lo as int, hi as int)),
{
    match parse_bounded(v, lo, hi, 65535) {
        Some(n) => Some(n as u16),
        None => None,
    }
}

/// The character of the digit `d`.
pub fn digit_to_char(d: u64) -> (c: char)
    requires
        d < 10,
    ensures
        c == digit_char(d as nat),
{
    let b: u8 = 48u8 + (d as u8);
    b as char
}

/// Appends the decimal numeral of `n`.
pub fn push_decimal(out: &mut String, n: u64)
    ensures
        final(out)@ == old(out)@ + decimal_text(n as nat),
    decreases n,
{
    if n >= 10 {
        push_decimal(out, n / 10);
    }
    let c = digit_to_char(n % 10);
    push_char(out, c);
    if n >= 10 {
        assert(decimal_text(n as nat) == decimal_text((n / 10) as nat).push(digit_char((n % 10) as nat)));
    } else {
        assert(decimal_text(n as nat) == seq![digit_char(n as nat)]);
    }
    assert(final(out)@ =~= old(out)@ + decimal_text(n as nat));
}

/// Appends the decimal numeral of `n`, with `-` in front when negative.
pub fn push_signed_decimal(out: &mut String, n: i64)
    ensures
        final(out)@ == old(out)@ + signed_decimal_text(n as int),
{
    if n < 0 {
        push_char(out, '-');
        let m: u64 = if n == i64::MIN { 9223372036854775808u64 } else { (-n) as u64 };
        push_decimal(out, m);
        assert(final(out)@ =~= old(out)@ + signed_decimal_text(n as int));
    } else {
        push_decimal(out, n as u64);
    }
}

/// The decimal numeral of `n`.
pub fn decimal_string(n: u64) -> (s: String)
    ensures
        s@ == decimal_text(n as nat),
{
    let mut s = String::new();
    push_decimal(&mut s, n);
    assert(s@ =~= decimal_text(n as nat));
    s
}

} // verus!
