//! Decimal and hexadecimal rendering of integers, built character by
//! character so that the output is pinned down exactly in specifications.
use vstd::prelude::*;

verus! {

/// The character for one digit value below 16 (lower case).
pub open spec fn digit_char(d: int) -> char {
    if d == 0 { '0' } else if d == 1 { '1' } else if d == 2 { '2' } else if d == 3 { '3' }
    else if d == 4 { '4' } else if d == 5 { '5' } else if d == 6 { '6' } else if d == 7 { '7' }
    else if d == 8 { '8' } else if d == 9 { '9' } else if d == 10 { 'a' } else if d == 11 { 'b' }
    else if d == 12 { 'c' } else if d == 13 { 'd' } else if d == 14 { 'e' } else { 'f' }
}

/// Decimal digits of a non-negative number, most significant first.
pub open spec fn dec_digits(n: int) -> Seq<char>
    decreases n,
{
    if n < 10 {
        seq![digit_char(n)]
    } else {
        dec_digits(n / 10) + seq![digit_char(n % 10)]
    }
}

/// Decimal rendering of a signed number: a minus sign, then the digits of
/// its magnitude.
pub open spec fn dec_int(i: int) -> Seq<char> {
    if i < 0 {
        seq!['-'] + dec_digits(-i)
    } else {
        dec_digits(i)
    }
}

pub fn digit_to_char(d: u64) -> (c: char)
    requires
        d < 16,
    ensures
        c == digit_char(d as int),
{
    if d == 0 { '0' } else if d == 1 { '1' } else if d == 2 { '2' } else if d == 3 { '3' }
    else if d == 4 { '4' } else if d == 5 { '5' } else if d == 6 { '6' } else if d == 7 { '7' }
    else if d == 8 { '8' } else if d == 9 { '9' } else if d == 10 { 'a' } else if d == 11 { 'b' }
    else if d == 12 { 'c' } else if d == 13 { 'd' } else if d == 14 { 'e' } else { 'f' }
}

pub fn push_dec_digits(n: u64, out: &mut Vec<char>)
    ensures
        final(out)@ == old(out)@ + dec_digits(n as int),
    decreases n,
{
    if n < 10 {
        out.push(digit_to_char(n));
    } else {
        push_dec_digits(n / 10, out);
        out.push(digit_to_char(n % 10));
    }
}

/// Relies on `str::chars`: iterating yields exactly the characters of the
/// string in order.
#[verifier::external_body]
pub fn str_chars(s: &str) -> (r: Vec<char>)
    ensures
        r@ == s@,
{
    s.chars().collect()
}

/// Relies on `String: FromIterator<char>`: collecting characters yields the
/// string of exactly those characters in order.
#[verifier::external_body]
pub fn chars_to_string(v: &Vec<char>) -> (r: String)
    ensures
        r@ == v@,
{
    v.iter().collect()
}

/// Decimal rendering of an unsigned 64-bit number.
pub fn u64_to_string(n: u64) -> (r: String)
    ensures
        r@ == dec_digits(n as int),
{
    let mut out: Vec<char> = Vec::new();
    push_dec_digits(n, &mut out);
    chars_to_string(&out)
}

/// Decimal rendering of a signed 64-bit number.
pub fn i64_to_string(i: i64) -> (r: String)
    ensures
        r@ == dec_int(i as int),
{
    let mut out: Vec<char> = Vec::new();
    if i < 0 {
        out.push('-');
        let m: u64 = ((-(i as i128)) as u64);
        assert(m as int == -(i as int));
        push_dec_digits(m, &mut out);
    } else {
        push_dec_digits(i as u64, &mut out);
    }
    chars_to_string(&out)
}

/// The fixed-width hexadecimal digits of a number: `width` nibbles, most
/// significant first, lower case.
pub open spec fn hex_digits(n: int, width: nat) -> Seq<char>
    decreases width,
{
    if width == 0 {
        Seq::empty()
    } else {
        hex_digits(n / 16, (width - 1) as nat) + seq![digit_char(n % 16)]
    }
}

pub fn push_hex_u128(n: u128, width: u64, out: &mut Vec<char>)
    requires
        width <= 32,
    ensures
        final(out)@ == old(out)@ + hex_digits(n as int, width as nat),
    decreases width,
{
    if width == 0 {
    } else {
        push_hex_u128(n / 16, width - 1, out);
        out.push(digit_to_char((n % 16) as u64));
    }
}

/// Two-digit lower-case hexadecimal rendering of a byte.
pub open spec fn byte_hex(b: u8) -> Seq<char> {
    hex_digits(b as int, 2)
}

/// Two-digit lower-case hexadecimal rendering of a byte.
pub fn byte_to_hex(b: u8) -> (r: String)
    ensures
        r@ == byte_hex(b),
{
    let mut out: Vec<char> = Vec::new();
    push_hex_u128(b as u128, 2, &mut out);
    chars_to_string(&out)
}

/// The canonical hyphenated form of a 128-bit identifier: five groups of
/// 8, 4, 4, 4 and 12 hex digits.
pub open spec fn uuid_hyphenated(n: int) -> Seq<char> {
    hex_digits(n / 0x1000000000000000000000000, 8) + seq!['-']
        + hex_digits((n / 0x100000000000000000000) % 0x10000, 4) + seq!['-']
        + hex_digits((n / 0x10000000000000000) % 0x10000, 4) + seq!['-']
        + hex_digits((n / 0x1000000000000) % 0x10000, 4) + seq!['-']
        + hex_digits(n % 0x1000000000000, 12)
}

/// Renders a 128-bit identifier in the canonical hyphenated form.
pub fn uuid_to_string(n: u128) -> (r: String)
    ensures
        r@ == uuid_hyphenated(n as int),
{
    let mut out: Vec<char> = Vec::new();
    push_hex_u128(n / 0x1000000000000000000000000, 8, &mut out);
    out.push('-');
    push_hex_u128((n / 0x100000000000000000000) % 0x10000, 4, &mut out);
    out.push('-');
    push_hex_u128((n / 0x10000000000000000) % 0x10000, 4, &mut out);
    out.push('-');
    push_hex_u128((n / 0x1000000000000) % 0x10000, 4, &mut out);
    out.push('-');
    push_hex_u128(n % 0x1000000000000, 12, &mut out);
    chars_to_string(&out)
}

} // verus!
