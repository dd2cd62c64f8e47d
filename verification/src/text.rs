//! Character classes of source bytes and small string helpers.
//!
//! Source text is handled byte by byte; a byte `b` stands for the character
//! `b as char` (U+0000..U+00FF). The classes below are the Unicode
//! properties of those 256 characters.
use vstd::prelude::*;

verus! {

/// The character that a source byte stands for.
pub open spec fn byte_char(b: u8) -> char {
    b as char
}

pub open spec fn is_ascii_digit_byte(b: u8) -> bool {
    48 <= b <= 57
}

/// Unicode `Alphabetic` restricted to U+0000..U+00FF.
pub open spec fn is_alphabetic_byte(b: u8) -> bool {
    ||| 65 <= b <= 90
    ||| 97 <= b <= 122
    ||| b == 0xAA
    ||| b == 0xB5
    ||| b == 0xBA
    ||| 0xC0 <= b <= 0xD6
    ||| 0xD8 <= b <= 0xF6
    ||| 0xF8 <= b
}

/// Unicode `Numeric` (general categories Nd, Nl, No) restricted to U+0000..U+00FF.
pub open spec fn is_numeric_byte(b: u8) -> bool {
    ||| is_ascii_digit_byte(b)
    ||| b == 0xB2
    ||| b == 0xB3
    ||| b == 0xB9
    ||| 0xBC <= b <= 0xBE
}

pub open spec fn is_alphanumeric_byte(b: u8) -> bool {
    is_alphabetic_byte(b) || is_numeric_byte(b)
}

/// Unicode `White_Space` restricted to U+0000..U+00FF.
pub open spec fn is_whitespace_byte(b: u8) -> bool {
    ||| 9 <= b <= 13
    ||| b == 32
    ||| b == 0x85
    ||| b == 0xA0
}

pub fn ascii_digit(b: u8) -> (r: bool)
    ensures
        r == is_ascii_digit_byte(b),
{
    48 <= b && b <= 57
}

pub fn alphabetic(b: u8) -> (r: bool)
    ensures
        r == is_alphabetic_byte(b),
{
    (65 <= b && b <= 90) || (97 <= b && b <= 122) || b == 0xAA || b == 0xB5 || b == 0xBA || (0xC0
        <= b && b <= 0xD6) || (0xD8 <= b && b <= 0xF6) || 0xF8 <= b
}

pub fn numeric(b: u8) -> (r: bool)
    ensures
        r == is_numeric_byte(b),
{
    ascii_digit(b) || b == 0xB2 || b == 0xB3 || b == 0xB9 || (0xBC <= b && b <= 0xBE)
}

pub fn alphanumeric(b: u8) -> (r: bool)
    ensures
        r == is_alphanumeric_byte(b),
{
    alphabetic(b) || numeric(b)
}

pub fn whitespace(b: u8) -> (r: bool)
    ensures
        r == is_whitespace_byte(b),
{
    (9 <= b && b <= 13) || b == 32 || b == 0x85 || b == 0xA0
}

/// The character that a source byte stands for.
pub fn char_of_byte(b: u8) -> (c: char)
    ensures
        c == byte_char(b),
{
    b as char
}

/// Appends one character (`String::push`).
#[verifier::external_body]
pub(crate) fn push_char(s: &mut String, c: char)
    ensures
        final(s)@ == old(s)@.push(c),
{
    s.push(c)
}

} // verus!
