//! Whole numbers written in decimal: reading them from text and writing them out.

use vstd::prelude::*;
use crate::text::{chars_of, string_of};

verus! {

/// Whether `c` is one of `0` to `9`.
pub open spec fn is_digit(c: char) -> bool {
    '0' <= c <= '9'
}

/// Whether every character of `s` is a digit.
pub open spec fn all_digits(s: Seq<char>) -> bool {
    forall|i: int| 0 <= i < s.len() ==> is_digit(#[trigger] s[i])
}

/// The number that the digits `s` spell, read from the left.
pub open spec fn digits_value(s: Seq<char>) -> nat
    decreases s.len(),
{
    if s.len() == 0 {
        0
    } else {
        (digits_value(s.drop_last()) * 10 + (s.last() as u32 - '0' as u32)) as nat
    }
}

/// The number that `s` spells: digits, at least one, after an optional `+`.
pub open spec fn natural_number(s: Seq<char>) -> Option<nat> {
    let body = if s.len() > 0 && s[0] == '+' {
        s.skip(1)
    } else {
        s
    };
    if body.len() > 0 && all_digits(body) {
        Some(digits_value(body))
    } else {
        None
    }
}

/// The number that `s` spells, if there is one and it is at most `max`.
pub open spec fn number_up_to(s: Seq<char>, max: nat) -> Option<nat> {
    match natural_number(s) {
        Some(v) if v <= max => Some(v),
        _ => None,
    }
}

/// The identifier that `s` spells: a number from 1 to 2147483647.
pub open spec fn positive_int(s: Seq<char>) -> Option<nat> {
    match number_up_to(s, 0x7fff_ffff) {
        Some(v) if v >= 1 => Some(v),
        _ => None,
    }
}

/// The digit `d`, which is below ten, as a character.
pub open spec fn digit_char(d: nat) -> char {
    (d + 0x30) as u8 as char
}

/// `n` written in decimal, without leading zeros.
pub open spec fn decimal(n: nat) -> Seq<char>
    decreases n,
{
    if n < 10 {
        seq![digit_char(n)]
    } else {
        decimal(n / 10).push(digit_char(n % 10))
    }
}

/// Digits read further only make the number larger.
pub proof fn lemma_digits_value_grows(s: Seq<char>, j: int)
    requires
        all_digits(s),
        0 <= j <= s.len(),
    ensures
        digits_value(s.take(j)) <= digits_value(s),
    decreases s.len() - j,
{
    if j == s.len() {
        assert(s.take(j) == s);
    } else {
        lemma_digits_value_grows(s.drop_last(), j);
        assert(s.drop_last().take(j) == s.take(j));
        assert(is_digit(s.last()));
    }
}

/// The number that `s` spells, if there is one and it is at most `max`.
pub fn parse_number(s: &str, max: u32) -> (r: Option<u32>)
    ensures
        r is Some <==> number_up_to(s@, max as nat) is Some,
        r is Some ==> r->0 == number_up_to(s@, max as nat)->0,
{
    let v = chars_of(s);
    let start: usize = if v.len() > 0 && v[0] == '+' {
        1
    } else {
        0
    };
    let ghost body = v@.skip(start as int);
    if start == v.len() {
        return None;
    }
    let mut acc: u64 = 0;
    let mut i: usize = start;
    assert(body.take(0) == Seq::<char>::empty());
    while i < v.len()
        invariant
            start <= i <= v.len(),
            start < v.len(),
            v@ == s@,
            start == (if v@.len() > 0 && v@[0] == '+' { 1int } else { 0int }),
            body == v@.skip(start as int),
            all_digits(body.take(i - start)),
            acc == digits_value(body.take(i - start)),
            acc <= max,
        decreases v.len() - i,
    {
        let c = v[i];
        let ghost k = i - start;
        assert(body.take(k + 1).drop_last() == body.take(k));
        assert(body.take(k + 1).last() == c);
        if !('0' <= c && c <= '9') {
            assert(!is_digit(body[k]));
            return None;
        }
        let next: u64 = acc * 10 + (c as u32 - '0' as u32) as u64;
        assert(next == digits_value(body.take(k + 1)));
        assert(all_digits(body.take(k + 1))) by {
            assert forall|j: int| 0 <= j < k + 1 implies is_digit(#[trigger] body.take(k + 1)[j]) by {
                if j < k {
                    assert(body.take(k)[j] == body.take(k + 1)[j]);
                }
            }
        }
        if next > max as u64 {
            proof {
                assert(s@.skip(0) == s@);
                if all_digits(body) {
                    lemma_digits_value_grows(body, k + 1);
                }
            }
            return None;
        }
        acc = next;
        i += 1;
    }
    assert(body.take(i - start) == body);
    assert(s@.skip(0) == s@);
    Some(acc as u32)
}

/// The identifier that `s` spells, if it spells one.
pub fn parse_positive(s: &str) -> (r: Option<u32>)
    ensures
        r is Some <==> positive_int(s@) is Some,
        r is Some ==> r->0 == positive_int(s@)->0,
{
    match parse_number(s, 0x7fff_ffff) {
        Some(v) => if v >= 1 {
            Some(v)
        } else {
            None
        },
        None => None,
    }
}

/// Appends `n`, written in decimal, to `out`.
pub fn push_decimal(out: &mut Vec<char>, n: u32)
    ensures
        final(out)@ == old(out)@ + decimal(n as nat),
    decreases n,
{
    if n >= 10 {
        push_decimal(out, n / 10);
    }
    let d: u8 = (n % 10) as u8;
    out.push((d + 0x30) as char);
    proof {
        if n < 10 {
            assert(out@ == old(out)@ + seq![digit_char(n as nat)]);
        } else {
            assert(out@ == old(out)@ + decimal((n / 10) as nat).push(digit_char((n % 10) as nat)));
        }
    }
}

/// `n` written in decimal.
pub fn to_decimal(n: u32) -> (r: String)
    ensures
        r@ == decimal(n as nat),
{
    let mut out: Vec<char> = Vec::new();
    push_decimal(&mut out, n);
    assert(out@ == decimal(n as nat));
    string_of(&out)
}

} // verus!
