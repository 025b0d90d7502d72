//! Text building blocks: byte-to-text decoding and decimal and
//! hexadecimal renderings of integers.

use vstd::prelude::*;

verus! {

use crate::error::DecodeError;
use vstd::string::StringExecFns;
use vstd::utf8::{decode_utf8, valid_utf8};

/// Relies on `String::push`: appends exactly the given character.
#[verifier::external_body]
fn push_char(s: &mut String, c: char)
    ensures
        final(s)@ == old(s)@ + seq![c],
{
    s.push(c);
}

/// Decodes a byte sequence as UTF-8 encoded text; bytes that are not a
/// valid encoding are a decode error, never reinterpreted blindly.
///
/// Relies on `String::from_utf8`: returns the string whose characters the
/// bytes encode exactly when they are valid UTF-8, and fails otherwise.
#[verifier::external_body]
pub(crate) fn utf8_to_string(bytes: Vec<u8>) -> (r: Result<String, DecodeError>)
    ensures
        match r {
            Ok(s) => valid_utf8(bytes@) && s@ == decode_utf8(bytes@),
            Err(e) => !valid_utf8(bytes@) && e == DecodeError::InvalidText,
        },
{
    match String::from_utf8(bytes) {
        Ok(s) => Ok(s),
        Err(_) => Err(DecodeError::InvalidText),
    }
}

/// Whether a string equals a literal, compared by characters.
pub fn string_eq_lit(s: &String, lit: &str) -> (r: bool)
    ensures
        r == (s@ == lit@),
{
    let other = String::from_str(lit);
    s.eq(&other)
}

/// The character of a single decimal digit.
pub open spec fn digit_char(d: int) -> char
    recommends
        0 <= d < 10,
{
    (48 + d) as char
}

/// The decimal rendering of a natural number, most significant digit first.
pub open spec fn dec_chars(n: int) -> Seq<char>
    recommends
        0 <= n,
    decreases n,
{
    if n < 10 {
        seq![digit_char(n)]
    } else {
        dec_chars(n / 10).push(digit_char(n % 10))
    }
}

/// Appends the decimal rendering of `n` to `out`.
pub fn append_dec(out: &mut String, n: u64)
    ensures
        final(out)@ == old(out)@ + dec_chars(n as int),
    decreases n,
{
    if n < 10 {
        push_char(out, (48 + n as u8) as char);
    } else {
        append_dec(out, n / 10);
        push_char(out, (48 + (n % 10) as u8) as char);
    }
}

/// The character of a single hexadecimal digit, lower case.
pub open spec fn hex_digit_char(d: int) -> char
    recommends
        0 <= d < 16,
{
    if d < 10 {
        (48 + d) as char
    } else {
        (87 + d) as char
    }
}

/// The rendering of one byte as `0x` followed by two hexadecimal digits.
pub open spec fn hex_chars(b: u8) -> Seq<char> {
    seq!['0', 'x', hex_digit_char(b as int / 16), hex_digit_char(b as int % 16)]
}

fn push_hex_digit(out: &mut String, d: u8)
    requires
        d < 16,
    ensures
        final(out)@ == old(out)@ + seq![hex_digit_char(d as int)],
{
    if d < 10 {
        push_char(out, (48 + d) as char);
    } else {
        push_char(out, (87 + d) as char);
    }
}

/// Appends `0x` and the two hexadecimal digits of `b` to `out`.
pub fn append_hex(out: &mut String, b: u8)
    ensures
        final(out)@ == old(out)@ + hex_chars(b),
{
    push_char(out, '0');
    push_char(out, 'x');
    push_hex_digit(out, b / 16);
    push_hex_digit(out, b % 16);
    assert(out@ =~= old(out)@ + hex_chars(b));
}

} // verus!
