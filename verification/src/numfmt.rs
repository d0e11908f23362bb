//! Decimal and hexadecimal rendering and parsing of the integer values the
//! codec stores in attribute text, with the round-trip guarantee that
//! parsing a rendered value gives the value back.

use vstd::prelude::*;
use vstd::arithmetic::div_mod::lemma_div_decreases;
use vstd::arithmetic::div_mod::lemma_div_is_ordered;
use vstd::arithmetic::div_mod::lemma_div_multiples_vanish;
use vstd::arithmetic::div_mod::lemma_fundamental_div_mod;
use vstd::arithmetic::mul::lemma_mul_inequality;
use vstd::string::StrSliceExecFns;
use crate::strutil::push_char;

verus! {

/// The numeric value of a digit character, or 16 for any character that is
/// no digit.
pub open spec fn spec_digit_val(c: char) -> int {
    if c == '0' {
        0
    } else if c == '1' {
        1
    } else if c == '2' {
        2
    } else if c == '3' {
        3
    } else if c == '4' {
        4
    } else if c == '5' {
        5
    } else if c == '6' {
        6
    } else if c == '7' {
        7
    } else if c == '8' {
        8
    } else if c == '9' {
        9
    } else if c == 'A' {
        10
    } else if c == 'B' {
        11
    } else if c == 'C' {
        12
    } else if c == 'D' {
        13
    } else if c == 'E' {
        14
    } else if c == 'F' {
        15
    } else {
        16
    }
}

/// The digit character of a value below sixteen.
pub open spec fn spec_digit_char(d: int) -> char {
    if d == 0 {
        '0'
    } else if d == 1 {
        '1'
    } else if d == 2 {
        '2'
    } else if d == 3 {
        '3'
    } else if d == 4 {
        '4'
    } else if d == 5 {
        '5'
    } else if d == 6 {
        '6'
    } else if d == 7 {
        '7'
    } else if d == 8 {
        '8'
    } else if d == 9 {
        '9'
    } else if d == 10 {
        'A'
    } else if d == 11 {
        'B'
    } else if d == 12 {
        'C'
    } else if d == 13 {
        'D'
    } else if d == 14 {
        'E'
    } else {
        'F'
    }
}

/// The digits of a nonnegative value in the given base, most significant
/// first, without leading zeros (a lone zero digit for zero).
pub open spec fn spec_fmt_nat(n: int, base: int) -> Seq<char>
    decreases n,
        when 0 <= n && 2 <= base <= 16
        via spec_fmt_nat_decreases
{
    if n < base {
        seq![spec_digit_char(n)]
    } else {
        spec_fmt_nat(n / base, base).push(spec_digit_char(n % base))
    }
}

#[via_fn]
proof fn spec_fmt_nat_decreases(n: int, base: int) {
    if n >= base {
        lemma_div_decreases(n, base);
    }
}

/// One step of digit accumulation: reject a non-digit of the base, reject a
/// value that would outgrow the accumulator, else take the digit in.
pub open spec fn spec_parse_step(acc: u64, c: char, base: int) -> Option<u64> {
    let d = spec_digit_val(c);
    if d >= base {
        None
    } else if acc > (u64::MAX - d) / base {
        None
    } else {
        Some((acc * base + d) as u64)
    }
}

/// Accumulate the digits of `s` onto `acc`, left to right.
pub open spec fn spec_parse_loop(s: Seq<char>, acc: u64, base: int) -> Option<u64>
    decreases s.len(),
{
    if s.len() == 0 {
        Some(acc)
    } else {
        match spec_parse_step(acc, s[0], base) {
            None => None,
            Some(a) => spec_parse_loop(s.drop_first(), a, base),
        }
    }
}

/// The unsigned value of a digit string: every character a digit of the
/// base, at least one of them, and the value within the accumulator's range.
pub open spec fn spec_parse_nat(s: Seq<char>, base: int) -> Option<u64> {
    if s.len() == 0 {
        None
    } else {
        spec_parse_loop(s, 0, base)
    }
}

/// The rendering of a signed value: a sign for a negative one, then the
/// digits of its magnitude.
pub open spec fn spec_fmt_int(n: int, base: int) -> Seq<char> {
    if n < 0 {
        seq!['-'] + spec_fmt_nat(-n, base)
    } else {
        spec_fmt_nat(n, base)
    }
}

/// The signed value of a digit string with an optional leading sign,
/// restricted to the signed range.
pub open spec fn spec_parse_int(s: Seq<char>, base: int) -> Option<i64> {
    if s.len() > 0 && s[0] == '-' {
        match spec_parse_nat(s.drop_first(), base) {
            Some(v) => if v <= 0x8000_0000_0000_0000u64 {
                Some((-(v as int)) as i64)
            } else {
                None
            },
            None => None,
        }
    } else {
        match spec_parse_nat(s, base) {
            Some(v) => if v <= i64::MAX as u64 {
                Some(v as i64)
            } else {
                None
            },
            None => None,
        }
    }
}

/// Reading a digit character back gives the value it was made from.
proof fn lemma_digit_inverse(d: int)
    requires
        0 <= d < 16,
    ensures
        spec_digit_val(spec_digit_char(d)) == d,
{
}

/// Accumulating over a string with one more digit at its end first
/// accumulates the prefix, then takes the final digit in.
proof fn lemma_parse_loop_push(s: Seq<char>, c: char, acc: u64, base: int)
    ensures
        spec_parse_loop(s.push(c), acc, base) == match spec_parse_loop(s, acc, base) {
            Some(a) => spec_parse_step(a, c, base),
            None => None::<u64>,
        },
    decreases s.len(),
{
    reveal_with_fuel(spec_parse_loop, 3);
    let sc = s.push(c);
    if s.len() == 0 {
        assert(sc[0] == c);
        assert(sc.drop_first() =~= Seq::<char>::empty());
        match spec_parse_step(acc, c, base) {
            Some(a) => {
                assert(spec_parse_loop(sc, acc, base) == Some(a));
            },
            None => {
                assert(spec_parse_loop(sc, acc, base) is None);
            },
        }
        assert(spec_parse_loop(s, acc, base) == Some(acc));
    } else {
        assert(sc[0] == s[0]);
        assert(sc.drop_first() =~= s.drop_first().push(c));
        match spec_parse_step(acc, s[0], base) {
            Some(a) => lemma_parse_loop_push(s.drop_first(), c, a, base),
            None => (),
        }
    }
}

/// Round trip: parsing the rendered digits of an unsigned value gives the
/// value back.
pub proof fn lemma_parse_fmt_nat(n: u64, base: int)
    requires
        2 <= base <= 16,
    ensures
        spec_fmt_nat(n as int, base).len() >= 1,
        spec_parse_nat(spec_fmt_nat(n as int, base), base) == Some(n),
    decreases n,
{
    reveal_with_fuel(spec_parse_loop, 3);
    let s = spec_fmt_nat(n as int, base);
    if n < base {
        lemma_digit_inverse(n as int);
        assert(0int <= (u64::MAX - n as int) / base) by {
            lemma_div_is_ordered(0, u64::MAX - n as int, base);
        }
        assert(s.drop_first() =~= Seq::<char>::empty());
        assert(s[0] == spec_digit_char(n as int));
        assert(spec_digit_val(s[0]) == n as int);
        assert(spec_parse_step(0, s[0], base) == Some(n));
        assert(spec_parse_loop(s, 0, base) == Some(n));
    } else {
        let q = n / (base as u64);
        let r = n % (base as u64);
        lemma_parse_fmt_nat(q, base);
        lemma_digit_inverse(r as int);
        lemma_parse_loop_push(spec_fmt_nat(q as int, base), spec_digit_char(r as int), 0, base);
        lemma_fundamental_div_mod(n as int, base);
        assert(q as int == (q as int * base) / base) by {
            lemma_div_multiples_vanish(q as int, base);
            assert(base * q as int == q as int * base) by (nonlinear_arith);
        }
        assert(q as int * base <= u64::MAX - r as int);
        lemma_div_is_ordered(q as int * base, u64::MAX - r as int, base);
        assert(spec_parse_step(q, spec_digit_char(r as int), base) == Some(n));
        let fq = spec_fmt_nat(q as int, base);
        assert(s == fq.push(spec_digit_char(r as int)));
        assert(spec_parse_loop(fq, 0, base) == Some(q));
        assert(spec_parse_loop(s, 0, base) == Some(n));
    }
}

/// Round trip: parsing the rendered form of a signed value gives the value
/// back.
pub proof fn lemma_parse_fmt_int(n: i64, base: int)
    requires
        2 <= base <= 16,
    ensures
        spec_parse_int(spec_fmt_int(n as int, base), base) == Some(n),
{
    if n < 0 {
        let m = (-(n as int)) as u64;
        lemma_parse_fmt_nat(m, base);
        let s = spec_fmt_int(n as int, base);
        assert(s[0] == '-');
        assert(s.drop_first() =~= spec_fmt_nat(m as int, base));
    } else {
        lemma_parse_fmt_nat(n as u64, base);
        let s = spec_fmt_int(n as int, base);
        assert(s.len() > 0 ==> s[0] != '-') by {
            if s.len() > 0 && n as u64 >= base {
            }
        }
    }
}

/// The digit character of a value below sixteen.
fn digit_char(d: u64) -> (c: char)
    requires
        d < 16,
    ensures
        c == spec_digit_char(d as int),
{
    match d {
        0 => '0',
        1 => '1',
        2 => '2',
        3 => '3',
        4 => '4',
        5 => '5',
        6 => '6',
        7 => '7',
        8 => '8',
        9 => '9',
        10 => 'A',
        11 => 'B',
        12 => 'C',
        13 => 'D',
        14 => 'E',
        _ => 'F',
    }
}

/// The numeric value of a digit character, or 16 for any other character.
fn digit_val(c: char) -> (r: u64)
    ensures
        r as int == spec_digit_val(c),
{
    match c {
        '0' => 0,
        '1' => 1,
        '2' => 2,
        '3' => 3,
        '4' => 4,
        '5' => 5,
        '6' => 6,
        '7' => 7,
        '8' => 8,
        '9' => 9,
        'A' => 10,
        'B' => 11,
        'C' => 12,
        'D' => 13,
        'E' => 14,
        'F' => 15,
        _ => 16,
    }
}

/// Render an unsigned value in the given base.
pub fn fmt_u64_radix(n: u64, base: u64) -> (r: String)
    requires
        base == 10 || base == 16,
    ensures
        r@ == spec_fmt_nat(n as int, base as int),
    decreases n,
{
    if n < base {
        let mut s = String::new();
        push_char(&mut s, digit_char(n));
        s
    } else {
        let mut s = fmt_u64_radix(n / base, base);
        push_char(&mut s, digit_char(n % base));
        s
    }
}

/// Render a signed value in the given base.
pub fn fmt_i64_radix(n: i64, base: u64) -> (r: String)
    requires
        base == 10 || base == 16,
    ensures
        r@ == spec_fmt_int(n as int, base as int),
{
    if n < 0 {
        let m = (-(n as i128)) as u64;
        let mut s = String::new();
        push_char(&mut s, '-');
        let digits = fmt_u64_radix(m, base);
        s.append(digits.as_str());
        proof {
            assert(s@ =~= spec_fmt_int(n as int, base as int));
        }
        s
    } else {
        fmt_u64_radix(n as u64, base)
    }
}

/// Parse an unsigned value in the given base.
pub fn parse_u64_radix(s: &str, base: u64) -> (r: Option<u64>)
    requires
        base == 10 || base == 16,
    ensures
        r == spec_parse_nat(s@, base as int),
{
    let len = s.unicode_len();
    if len == 0 {
        return None;
    }
    let mut acc: u64 = 0;
    let mut i: usize = 0;
    proof {
        assert(s@.subrange(0, len as int) =~= s@);
    }
    while i < len
        invariant
            i <= len,
            len == s@.len(),
            base == 10 || base == 16,
            spec_parse_loop(s@, 0, base as int) == spec_parse_loop(
                s@.subrange(i as int, len as int),
                acc,
                base as int,
            ),
        decreases len - i,
    {
        let ghost suffix = s@.subrange(i as int, len as int);
        proof {
            assert(suffix[0] == s@[i as int]);
            assert(suffix.drop_first() =~= s@.subrange(i + 1, len as int));
        }
        let c = s.get_char(i);
        let d = digit_val(c);
        if d >= base {
            return None;
        }
        if acc > (u64::MAX - d) / base {
            return None;
        }
        proof {
            let b = base as int;
            let m = u64::MAX - d as int;
            let q = m / b;
            lemma_mul_inequality(acc as int, q, b);
            lemma_fundamental_div_mod(m, b);
            assert(acc as int * b + d <= u64::MAX);
        }
        acc = acc * base + d;
        i += 1;
    }
    proof {
        assert(s@.subrange(len as int, len as int) =~= Seq::<char>::empty());
    }
    Some(acc)
}

/// Parse a signed value in the given base.
pub fn parse_i64_radix(s: &str, base: u64) -> (r: Option<i64>)
    requires
        base == 10 || base == 16,
    ensures
        r == spec_parse_int(s@, base as int),
{
    let len = s.unicode_len();
    if len > 0 && s.get_char(0) == '-' {
        let rest = s.substring_char(1, len);
        proof {
            assert(rest@ =~= s@.drop_first());
        }
        match parse_u64_radix(rest, base) {
            Some(v) => {
                if v <= 0x8000_0000_0000_0000u64 {
                    Some((-(v as i128)) as i64)
                } else {
                    None
                }
            },
            None => None,
        }
    } else {
        match parse_u64_radix(s, base) {
            Some(v) => {
                if v <= i64::MAX as u64 {
                    Some(v as i64)
                } else {
                    None
                }
            },
            None => None,
        }
    }
}

} // verus!
