//! Decimal numbers as text. Quantities with a fractional part (seconds,
//! frames per second) are held exactly, as a count of millionths.
use crate::text::{chars_of, position_of};
use vstd::prelude::*;

verus! {

/// How many millionths make one unit.
pub const MICROS_PER_UNIT: u64 = 1_000_000;

/// Whether `c` is one of `0` to `9`.
pub open spec fn is_digit(c: char) -> bool {
    0x30 <= c as u32 <= 0x39
}

/// The number that the digit `c` stands for.
pub open spec fn digit_value(c: char) -> nat {
    (c as u32 - 0x30) as nat
}

/// Whether every character of `s` is a digit.
pub open spec fn all_digits(s: Seq<char>) -> bool {
    forall|i: int| 0 <= i < s.len() ==> is_digit(#[trigger] s[i])
}

/// The number that the digits of `s` spell in base ten; 0 for no digits.
pub open spec fn digits_value(s: Seq<char>) -> nat
    decreases s.len(),
{
    if s.len() == 0 {
        0
    } else {
        digits_value(s.drop_last()) * 10 + digit_value(s.last())
    }
}

/// The digits of `s` without an optional leading `+`.
pub open spec fn unsigned_body(s: Seq<char>) -> Seq<char> {
    if s.len() > 0 && s[0] == '+' {
        s.skip(1)
    } else {
        s
    }
}

/// The unsigned integer that `s` spells: an optional `+` and then one or more
/// digits, with a value that fits in 64 bits.
pub open spec fn parsed_u64(s: Seq<char>) -> Option<u64> {
    let body = unsigned_body(s);
    if body.len() > 0 && all_digits(body) && digits_value(body) <= u64::MAX {
        Some(digits_value(body) as u64)
    } else {
        None
    }
}

/// The part of a decimal before its point.
pub open spec fn whole_part(s: Seq<char>) -> Seq<char> {
    s.take(position_of(s, '.', 0))
}

/// The part of a decimal after its point; empty if there is no point.
pub open spec fn fraction_part(s: Seq<char>) -> Seq<char> {
    let dot = position_of(s, '.', 0);
    if 0 <= dot < s.len() {
        s.skip(dot + 1)
    } else {
        Seq::empty()
    }
}

/// Whether `s` is a plain decimal: digits, at most one point among them, and
/// at least one digit in all.
pub open spec fn is_decimal(s: Seq<char>) -> bool {
    &&& all_digits(whole_part(s))
    &&& all_digits(fraction_part(s))
    &&& whole_part(s).len() + fraction_part(s).len() > 0
}

/// The first six digits of a fraction, with zeros where it has fewer.
pub open spec fn six_digits(fraction: Seq<char>) -> Seq<char> {
    Seq::new(
        6,
        |i: int|
            if i < fraction.len() {
                fraction[i]
            } else {
                '0'
            },
    )
}

/// The value of the decimal `s` in millionths, digits past the sixth
/// fractional one left out.
pub open spec fn decimal_micros(s: Seq<char>) -> nat {
    digits_value(whole_part(s)) * 1_000_000 + digits_value(six_digits(fraction_part(s)))
}

/// The smaller of `n` and the largest 64-bit number.
pub open spec fn saturated(n: nat) -> u64 {
    if n <= u64::MAX {
        n as u64
    } else {
        u64::MAX
    }
}

/// The millionths that the decimal `s` spells, held at the largest 64-bit
/// number where they exceed it; `None` where `s` is not a plain decimal.
pub open spec fn parsed_micros(s: Seq<char>) -> Option<u64> {
    if is_decimal(s) {
        Some(saturated(decimal_micros(s)))
    } else {
        None
    }
}

/// The character for the digit `d`.
pub open spec fn digit_char(d: nat) -> char
    recommends
        d < 10,
{
    ((0x30 + d) as u32) as char
}

/// The digits of `n` in base ten, without leading zeros.
pub open spec fn decimal_digits(n: nat) -> Seq<char>
    decreases n,
{
    if n < 10 {
        seq![digit_char(n)]
    } else {
        decimal_digits(n / 10).push(digit_char(n % 10))
    }
}

/// `n` in base ten, with a leading `-` where it is negative.
pub open spec fn decimal_text(n: int) -> Seq<char> {
    if n < 0 {
        seq!['-'] + decimal_digits((-n) as nat)
    } else {
        decimal_digits(n as nat)
    }
}

/// `n` in base ten, with a leading zero where it has one digit.
pub open spec fn two_digits(n: nat) -> Seq<char> {
    if n < 10 {
        seq!['0'] + decimal_digits(n)
    } else {
        decimal_digits(n)
    }
}

/// A number of seconds, given in millionths, as `HH:MM:SS`; the fraction of
/// a second is dropped, and the hours take as many digits as they need.
pub open spec fn duration_text(micros: nat) -> Seq<char> {
    let total = micros / 1_000_000;
    two_digits(total / 3600) + seq![':'] + two_digits((total % 3600) / 60) + seq![':']
        + two_digits(total % 60)
}

/// Appending a digit never makes the value smaller.
pub proof fn lemma_digits_value_push(s: Seq<char>, c: char)
    ensures
        digits_value(s.push(c)) == digits_value(s) * 10 + digit_value(c),
        digits_value(s.push(c)) >= digits_value(s),
{
    assert(s.push(c).drop_last() == s);
}

/// The digit that `c` stands for, if it is one.
pub fn digit_of(c: char) -> (r: Option<u64>)
    ensures
        r is Some == is_digit(c),
        r matches Some(d) ==> d == digit_value(c) && d < 10,
{
    let n: u32 = c as u32;
    if 0x30 <= n && n <= 0x39 {
        Some((n - 0x30) as u64)
    } else {
        None
    }
}

/// Reads the digits `v[from..to]`. `None` where a character is no digit;
/// otherwise their value, held at the largest 64-bit number.
pub fn read_digits(v: &Vec<char>, from: usize, to: usize) -> (r: Option<u64>)
    requires
        from <= to <= v.len(),
    ensures
        r is Some == all_digits(v@.subrange(from as int, to as int)),
        r matches Some(n) ==> n == saturated(digits_value(v@.subrange(from as int, to as int))),
{
    let mut acc: u64 = 0;
    let mut over: bool = false;
    let mut i: usize = from;
    while i < to
        invariant
            from <= i <= to <= v.len(),
            all_digits(v@.subrange(from as int, i as int)),
            !over ==> acc == digits_value(v@.subrange(from as int, i as int)),
            over ==> digits_value(v@.subrange(from as int, i as int)) > u64::MAX,
        decreases to - i,
    {
        let ghost before = v@.subrange(from as int, i as int);
        let ghost after = v@.subrange(from as int, i + 1);
        assert(after == before.push(v@[i as int]));
        proof {
            lemma_digits_value_push(before, v@[i as int]);
        }
        match digit_of(v[i]) {
            None => {
                assert(!all_digits(v@.subrange(from as int, to as int))) by {
                    assert(v@.subrange(from as int, to as int)[i - from] == v@[i as int]);
                }
                return None;
            },
            Some(d) => {
                if !over {
                    match acc.checked_mul(10) {
                        None => {
                            over = true;
                        },
                        Some(tens) => {
                            match tens.checked_add(d) {
                                None => {
                                    over = true;
                                },
                                Some(sum) => {
                                    acc = sum;
                                },
                            }
                        },
                    }
                }
            },
        }
        i += 1;
    }
    if over {
        Some(u64::MAX)
    } else {
        Some(acc)
    }
}

/// The unsigned integer that `s` spells, as the standard library reads one.
pub fn parse_u64(s: &str) -> (r: Option<u64>)
    ensures
        r == parsed_u64(s@),
{
    let v = chars_of(s);
    let from: usize = if v.len() > 0 && v[0] == '+' {
        1
    } else {
        0
    };
    assert(v@.subrange(from as int, v.len() as int) == unsigned_body(s@));
    if from == v.len() {
        return None;
    }
    let mut acc: u64 = 0;
    let mut i: usize = from;
    while i < v.len()
        invariant
            from <= i <= v.len(),
            v@.subrange(from as int, v.len() as int) == unsigned_body(s@),
            all_digits(v@.subrange(from as int, i as int)),
            acc == digits_value(v@.subrange(from as int, i as int)),
        decreases v.len() - i,
    {
        let ghost before = v@.subrange(from as int, i as int);
        let ghost body = v@.subrange(from as int, v.len() as int);
        assert(v@.subrange(from as int, i + 1) == before.push(v@[i as int]));
        assert(body[i - from] == v@[i as int]);
        proof {
            lemma_digits_value_push(before, v@[i as int]);
            lemma_digits_value_prefix(body, i + 1 - from);
            assert(body.take(i + 1 - from) == v@.subrange(from as int, i + 1));
        }
        match digit_of(v[i]) {
            None => {
                return None;
            },
            Some(d) => {
                match acc.checked_mul(10) {
                    None => {
                        return None;
                    },
                    Some(tens) => {
                        match tens.checked_add(d) {
                            None => {
                                return None;
                            },
                            Some(sum) => {
                                acc = sum;
                            },
                        }
                    },
                }
            },
        }
        i += 1;
    }
    Some(acc)
}

/// A prefix of a digit string spells no more than the whole string.
pub proof fn lemma_digits_value_prefix(s: Seq<char>, n: int)
    requires
        0 <= n <= s.len(),
    ensures
        digits_value(s.take(n)) <= digits_value(s),
    decreases s.len() - n,
{
    if n < s.len() {
        assert(s.take(n + 1) == s.take(n).push(s[n]));
        lemma_digits_value_push(s.take(n), s[n]);
        lemma_digits_value_prefix(s, n + 1);
    } else {
        assert(s.take(n) == s);
    }
}

/// The millionths that the decimal `v[from..to]` spells.
pub fn read_micros(v: &Vec<char>, from: usize, to: usize) -> (r: Option<u64>)
    requires
        from <= to <= v.len(),
    ensures
        r == parsed_micros(v@.subrange(from as int, to as int)),
{
    let ghost s = v@.subrange(from as int, to as int);
    let mut dot: usize = from;
    while dot < to && v[dot] != '.'
        invariant
            from <= dot <= to <= v.len(),
            s == v@.subrange(from as int, to as int),
            position_of(s, '.', 0) == position_of(s, '.', dot - from),
        decreases to - dot,
    {
        dot += 1;
    }
    assert(position_of(s, '.', 0) == dot - from);
    assert(whole_part(s) == v@.subrange(from as int, dot as int));
    let rest: usize = if dot < to {
        dot + 1
    } else {
        to
    };
    assert(fraction_part(s) == v@.subrange(rest as int, to as int));
    let whole = match read_digits(v, from, dot) {
        None => {
            return None;
        },
        Some(n) => n,
    };
    if read_digits(v, rest, to).is_none() {
        return None;
    }
    if dot - from + (to - rest) == 0 {
        return None;
    }
    let ghost fraction = fraction_part(s);
    let mut part: u64 = 0;
    let mut k: usize = 0;
    while k < 6
        invariant
            k <= 6,
            from <= rest <= to <= v.len(),
            fraction == v@.subrange(rest as int, to as int),
            all_digits(fraction),
            part == digits_value(six_digits(fraction).take(k as int)),
            part < pow10(k as nat),
        decreases 6 - k,
    {
        let ghost read = six_digits(fraction).take(k as int);
        let ghost c = six_digits(fraction)[k as int];
        assert(six_digits(fraction).take(k + 1) == read.push(c));
        proof {
            lemma_digits_value_push(read, c);
            reveal_with_fuel(pow10, 7);
        }
        let d: u64 = if k < to - rest {
            assert(fraction[k as int] == v@[rest + k]);
            match digit_of(v[rest + k]) {
                Some(d) => d,
                None => 0,
            }
        } else {
            0
        };
        assert(d == digit_value(c));
        part = part * 10 + d;
        k += 1;
    }
    assert(six_digits(fraction).take(6) == six_digits(fraction));
    assert(part < 1_000_000) by {
        reveal_with_fuel(pow10, 7);
    }
    match whole.checked_mul(MICROS_PER_UNIT) {
        None => Some(u64::MAX),
        Some(scaled) => match scaled.checked_add(part) {
            None => Some(u64::MAX),
            Some(sum) => Some(sum),
        },
    }
}

/// Ten to the power `n`.
pub open spec fn pow10(n: nat) -> nat
    decreases n,
{
    if n == 0 {
        1
    } else {
        10 * pow10((n - 1) as nat)
    }
}

/// The millionths that the decimal `s` spells.
pub fn parse_micros(s: &str) -> (r: Option<u64>)
    ensures
        r == parsed_micros(s@),
{
    let v = chars_of(s);
    assert(v@.subrange(0, v.len() as int) == s@);
    read_micros(&v, 0, v.len())
}

/// The character for the digit `d`.
pub fn char_of_digit(d: u64) -> (c: char)
    requires
        d < 10,
    ensures
        c == digit_char(d as nat),
{
    let n: u8 = 0x30 + d as u8;
    n as char
}

/// Appends `n` in base ten to `out`.
pub fn push_decimal(out: &mut String, n: u64)
    ensures
        final(out)@ == old(out)@ + decimal_digits(n as nat),
    decreases n,
{
    if n >= 10 {
        push_decimal(out, n / 10);
    }
    out.push(char_of_digit(n % 10));
    assert(final(out)@ == old(out)@ + decimal_digits(n as nat)) by {
        if n >= 10 {
            assert(old(out)@ + decimal_digits(n as nat) =~= (old(out)@ + decimal_digits(
                (n / 10) as nat,
            )).push(digit_char((n % 10) as nat)));
        } else {
            assert(old(out)@ + decimal_digits(n as nat) =~= old(out)@.push(digit_char(n as nat)));
        }
    }
}

/// Appends `n` in base ten to `out`, with a leading zero where `n` has one
/// digit.
pub fn push_two_digits(out: &mut String, n: u64)
    ensures
        final(out)@ == old(out)@ + two_digits(n as nat),
{
    if n < 10 {
        out.push('0');
    }
    push_decimal(out, n);
    assert(final(out)@ =~= old(out)@ + two_digits(n as nat));
}

/// `n` in base ten, as the standard library writes an `i32`.
pub fn i32_to_string(n: i32) -> (r: String)
    ensures
        r@ == decimal_text(n as int),
{
    let mut out = String::new();
    let wide: i64 = n as i64;
    if wide < 0 {
        out.push('-');
        push_decimal(&mut out, (-wide) as u64);
    } else {
        push_decimal(&mut out, wide as u64);
    }
    assert(out@ =~= decimal_text(n as int));
    out
}

/// `n` in base ten, as the standard library writes a `u64`.
pub fn u64_to_string(n: u64) -> (r: String)
    ensures
        r@ == decimal_digits(n as nat),
{
    let mut out = String::new();
    push_decimal(&mut out, n);
    assert(out@ =~= decimal_digits(n as nat));
    out
}

/// A number of seconds, given in millionths, as `HH:MM:SS`.
pub fn format_duration(micros: u64) -> (r: String)
    ensures
        r@ == duration_text(micros as nat),
{
    let total: u64 = micros / MICROS_PER_UNIT;
    let mut out = String::new();
    push_two_digits(&mut out, total / 3600);
    out.push(':');
    push_two_digits(&mut out, (total % 3600) / 60);
    out.push(':');
    push_two_digits(&mut out, total % 60);
    assert(out@ =~= duration_text(micros as nat));
    out
}

} // verus!
