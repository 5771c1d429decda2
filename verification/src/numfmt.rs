//! Decimal rendering of identifiers and counters: stable entity ids for
//! search documents and the abbreviated counts shown on preview images.

use vstd::prelude::*;

verus! {

/// The character for one decimal digit.
pub open spec fn spec_digit(d: int) -> char
    recommends
        0 <= d < 10,
{
    ((d + 48) as u8) as char
}

/// The decimal digits of `n`, most significant first, no sign and no
/// leading zero (a lone zero for 0).
pub open spec fn spec_u64_string(n: nat) -> Seq<char>
    decreases n,
{
    if n < 10 {
        seq![spec_digit(n as int)]
    } else {
        spec_u64_string(n / 10).push(spec_digit((n % 10) as int))
    }
}

/// The decimal rendering of a signed number: a minus sign before the
/// digits of its magnitude when negative.
pub open spec fn spec_i64_string(n: int) -> Seq<char> {
    if n < 0 {
        seq!['-'] + spec_u64_string((-n) as nat)
    } else {
        spec_u64_string(n as nat)
    }
}

/// Relies on `String::push`: appends exactly the given character.
#[verifier::external_body]
fn push_char(s: &mut String, c: char)
    ensures
        final(s)@ == old(s)@.push(c),
{
    s.push(c)
}

/// The character for one decimal digit.
fn digit_char(d: u8) -> (c: char)
    requires
        d < 10,
    ensures
        c == spec_digit(d as int),
{
    (48 + d) as char
}

/// Renders `n` in decimal.
pub fn u64_to_string(n: u64) -> (s: String)
    ensures
        s@ == spec_u64_string(n as nat),
    decreases n,
{
    if n < 10 {
        let mut s = String::new();
        push_char(&mut s, digit_char(n as u8));
        s
    } else {
        let mut s = u64_to_string(n / 10);
        push_char(&mut s, digit_char((n % 10) as u8));
        s
    }
}

/// Renders `n` in decimal, with a minus sign when negative.
pub fn i64_to_string(n: i64) -> (s: String)
    ensures
        s@ == spec_i64_string(n as int),
{
    if n < 0 {
        let mag = (-(n as i128)) as u64;
        let mut s = String::new();
        push_char(&mut s, '-');
        let digits = u64_to_string(mag);
        s.append(digits.as_str());
        s
    } else {
        u64_to_string(n as u64)
    }
}

/// How `format_count` abbreviates: counts of a thousand and more show only
/// their thousands, with a `k` suffix.
pub open spec fn spec_format_count(c: int) -> Seq<char> {
    if c >= 1000 {
        spec_u64_string((c / 1000) as nat).push('k')
    } else {
        spec_i64_string(c)
    }
}

/// Abbreviates a counter for display: `999` stays `999`, `1500` becomes
/// `1k`.
pub fn format_count(count: i32) -> (s: String)
    ensures
        s@ == spec_format_count(count as int),
{
    if count >= 1000 {
        let thousands = count / 1000;
        assert(thousands == count as int / 1000);
        let mut s = u64_to_string(thousands as u64);
        push_char(&mut s, 'k');
        s
    } else {
        i64_to_string(count as i64)
    }
}

} // verus!
