//! Decimal and hexadecimal renderings of integers, and decimal parsing as std's `FromStr`
//! for unsigned integers does it.
use vstd::prelude::*;
use crate::text::{chars_of, is_ascii_digit, is_ascii_digit_char, all_ascii_digits};

verus! {

/// The character of the digit `d` (0..16), lower-case for 10..16.
pub open spec fn digit_char(d: int) -> char {
    if d == 0 { '0' } else if d == 1 { '1' } else if d == 2 { '2' } else if d == 3 { '3' }
    else if d == 4 { '4' } else if d == 5 { '5' } else if d == 6 { '6' } else if d == 7 { '7' }
    else if d == 8 { '8' } else if d == 9 { '9' } else if d == 10 { 'a' } else if d == 11 { 'b' }
    else if d == 12 { 'c' } else if d == 13 { 'd' } else if d == 14 { 'e' } else { 'f' }
}

/// The value of the digit character `c`.
pub open spec fn digit_value(c: char) -> nat {
    (c as u32 - '0' as u32) as nat
}

/// `n` written in base `b` without leading zeros ("0" for zero).
pub open spec fn spec_digits(n: nat, b: nat) -> Seq<char>
    recommends
        2 <= b <= 16,
    decreases n,
{
    if n < b || b < 2 {
        seq![digit_char(n as int)]
    } else {
        proof {
            assert(n / b < n) by (nonlinear_arith)
                requires
                    n >= b,
                    b >= 2,
            ;
        }
        spec_digits(n / b, b).push(digit_char((n % b) as int))
    }
}

/// What `format!("{}", n)` gives for an integer `n`.
pub open spec fn spec_decimal(n: int) -> Seq<char> {
    if n < 0 {
        seq!['-'] + spec_digits((-n) as nat, 10)
    } else {
        spec_digits(n as nat, 10)
    }
}

/// What `format!("{:x}", n)` gives for an unsigned integer `n`.
pub open spec fn spec_hex(n: nat) -> Seq<char> {
    spec_digits(n, 16)
}

/// The number that the decimal digits `s` denote.
pub open spec fn digits_number(s: Seq<char>) -> nat
    decreases s.len(),
{
    if s.len() == 0 {
        0
    } else {
        digits_number(s.drop_last()) * 10 + digit_value(s.last())
    }
}

/// What `str::parse` gives for an unsigned type whose largest value is `max`: an optional `+`,
/// then at least one ASCII digit and nothing else, denoting a value up to `max`.
pub open spec fn spec_parse_unsigned(s: Seq<char>, max: nat) -> Option<nat> {
    let body = if s.len() > 0 && s[0] == '+' {
        s.drop_first()
    } else {
        s
    };
    if body.len() == 0 || !all_ascii_digits(body) || digits_number(body) > max {
        None
    } else {
        Some(digits_number(body))
    }
}

pub(crate) fn digit_of(d: u64) -> (c: char)
    requires
        d < 16,
    ensures
        c == digit_char(d as int),
{
    if d == 0 { '0' } else if d == 1 { '1' } else if d == 2 { '2' } else if d == 3 { '3' }
    else if d == 4 { '4' } else if d == 5 { '5' } else if d == 6 { '6' } else if d == 7 { '7' }
    else if d == 8 { '8' } else if d == 9 { '9' } else if d == 10 { 'a' } else if d == 11 { 'b' }
    else if d == 12 { 'c' } else if d == 13 { 'd' } else if d == 14 { 'e' } else { 'f' }
}

fn push_digits(out: &mut String, n: u64, b: u64)
    requires
        2 <= b <= 16,
    ensures
        final(out)@ == old(out)@ + spec_digits(n as nat, b as nat),
    decreases n,
{
    if n < b {
        out.push(digit_of(n));
    } else {
        assert(n / b < n) by (nonlinear_arith)
            requires
                n >= b,
                b >= 2,
        ;
        push_digits(out, n / b, b);
        out.push(digit_of(n % b));
        assert(spec_digits(n as nat, b as nat) == spec_digits((n / b) as nat, b as nat).push(
            digit_char((n % b) as int),
        ));
    }
}

/// `n` in decimal.
pub fn u64_text(n: u64) -> (r: String)
    ensures
        r@ == spec_decimal(n as int),
{
    let mut out = String::new();
    push_digits(&mut out, n, 10);
    assert(out@ =~= spec_digits(n as nat, 10));
    out
}

/// `n` in decimal.
pub fn usize_text(n: usize) -> (r: String)
    ensures
        r@ == spec_decimal(n as int),
{
    u64_text(n as u64)
}

/// `n` in decimal, with a leading `-` when negative.
pub fn i64_text(n: i64) -> (r: String)
    ensures
        r@ == spec_decimal(n as int),
{
    if n < 0 {
        let m: u64 = (0i128 - (n as i128)) as u64;
        let mut out = String::new();
        out.push('-');
        push_digits(&mut out, m, 10);
        assert(out@ =~= seq!['-'] + spec_digits(m as nat, 10));
        out
    } else {
        u64_text(n as u64)
    }
}

/// `n` in lower-case hexadecimal.
pub fn hex_text(n: u64) -> (r: String)
    ensures
        r@ == spec_hex(n as nat),
{
    let mut out = String::new();
    push_digits(&mut out, n, 16);
    assert(out@ =~= spec_digits(n as nat, 16));
    out
}

proof fn lemma_digits_number_monotone(s: Seq<char>, i: int)
    requires
        0 <= i <= s.len(),
        all_ascii_digits(s),
    ensures
        digits_number(s.take(i)) <= digits_number(s),
    decreases s.len() - i,
{
    if i < s.len() {
        lemma_digits_number_monotone(s, i + 1);
        assert(s.take(i + 1).drop_last() =~= s.take(i));
    } else {
        assert(s.take(i) =~= s);
    }
}

/// The number that `s` denotes as `str::parse::<u64>` reads it, when it is at most `max`.
pub fn parse_unsigned(s: &str, max: u64) -> (r: Option<u64>)
    ensures
        match r {
            Some(n) => spec_parse_unsigned(s@, max as nat) == Some(n as nat),
            None => spec_parse_unsigned(s@, max as nat) is None,
        },
{
    let v = chars_of(s);
    let start: usize = if v.len() > 0 && v[0] == '+' { 1 } else { 0 };
    let ghost body = if s@.len() > 0 && s@[0] == '+' { s@.drop_first() } else { s@ };
    assert(body =~= v@.skip(start as int));
    if start >= v.len() {
        return None;
    }
    let mut acc: u128 = 0;
    let mut i: usize = start;
    while i < v.len()
        invariant
            v@ == s@,
            start <= i <= v.len(),
            body == v@.skip(start as int),
            body == (if s@.len() > 0 && s@[0] == '+' {
                s@.drop_first()
            } else {
                s@
            }),
            body.len() > 0,
            acc == digits_number(body.take(i - start)),
            acc <= max,
            forall|j: int| 0 <= j < i - start ==> is_ascii_digit_char(#[trigger] body[j]),
        decreases v.len() - i,
    {
        let c = v[i];
        if !is_ascii_digit(c) {
            assert(body[i - start] == c);
            assert(!is_ascii_digit_char(body[i - start]));
            assert(!all_ascii_digits(body));
            return None;
        }
        let d = (c as u32 - '0' as u32) as u128;
        assert(body.take(i - start + 1).drop_last() =~= body.take(i - start));
        assert(body.take(i - start + 1).last() == c);
        acc = acc * 10 + d;
        i += 1;
        if acc > max as u128 {
            proof {
                if all_ascii_digits(body) {
                    lemma_digits_number_monotone(body, i - start);
                    assert(digits_number(body) > max);
                }
            }
            return None;
        }
    }
    assert(body.take(i - start) =~= body);
    Some(acc as u64)
}

/// What `str::parse::<usize>` gives.
pub fn parse_usize(s: &str) -> (r: Option<usize>)
    ensures
        match r {
            Some(n) => spec_parse_unsigned(s@, usize::MAX as nat) == Some(n as nat),
            None => spec_parse_unsigned(s@, usize::MAX as nat) is None,
        },
{
    match parse_unsigned(s, usize::MAX as u64) {
        Some(n) => Some(n as usize),
        None => None,
    }
}

/// What `str::parse::<u32>` gives.
pub fn parse_u32(s: &str) -> (r: Option<u32>)
    ensures
        match r {
            Some(n) => spec_parse_unsigned(s@, u32::MAX as nat) == Some(n as nat),
            None => spec_parse_unsigned(s@, u32::MAX as nat) is None,
        },
{
    match parse_unsigned(s, u32::MAX as u64) {
        Some(n) => Some(n as u32),
        None => None,
    }
}

} // verus!
