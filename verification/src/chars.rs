//! Character classes and text building blocks used by the lexer.
use vstd::prelude::*;

verus! {

/// Whether `c` has the Unicode `White_Space` property, as `char::is_whitespace` decides it.
pub uninterp spec fn char_is_whitespace(c: char) -> bool;

/// Whether `c` has the Unicode `Alphabetic` property, as `char::is_alphabetic` decides it.
pub uninterp spec fn char_is_alphabetic(c: char) -> bool;

/// Whether `c` is alphabetic or numeric in Unicode's sense, as `char::is_alphanumeric` decides it.
pub uninterp spec fn char_is_alphanumeric(c: char) -> bool;

/// Calls `char::is_whitespace`. Trusted: the result is the Unicode property
/// named by [`char_is_whitespace`], a function of the character alone.
#[verifier::external_body]
pub(crate) fn unicode_whitespace(c: char) -> (b: bool)
    ensures
        b == char_is_whitespace(c),
{
    c.is_whitespace()
}

/// Calls `char::is_alphabetic`. Trusted: the result is the Unicode property
/// named by [`char_is_alphabetic`], a function of the character alone.
#[verifier::external_body]
pub(crate) fn unicode_alphabetic(c: char) -> (b: bool)
    ensures
        b == char_is_alphabetic(c),
{
    c.is_alphabetic()
}

/// Calls `char::is_alphanumeric`. Trusted: the result is the Unicode property
/// named by [`char_is_alphanumeric`], a function of the character alone.
#[verifier::external_body]
pub(crate) fn unicode_alphanumeric(c: char) -> (b: bool)
    ensures
        b == char_is_alphanumeric(c),
{
    c.is_alphanumeric()
}

/// Calls `String::push`. Trusted: the character is appended at the end of
/// the text and nothing else changes.
#[verifier::external_body]
pub(crate) fn push_char(text: &mut String, c: char)
    ensures
        final(text)@ == old(text)@.push(c),
{
    text.push(c)
}

/// Whether `c` is one of the ASCII digits `0` to `9`.
pub open spec fn is_digit(c: char) -> bool {
    48 <= c as u32 <= 57
}

/// The number that an ASCII digit stands for.
pub open spec fn digit_value(c: char) -> nat {
    (c as u32 - 48) as nat
}

/// Whether `c` is an ASCII character.
pub open spec fn is_ascii(c: char) -> bool {
    (c as u32) < 128
}

/// Whether `c` is one of the ASCII letters `a` to `z` and `A` to `Z`.
pub open spec fn is_ascii_letter(c: char) -> bool {
    97 <= c as u32 <= 122 || 65 <= c as u32 <= 90
}

/// Whether `c` is whitespace. In ASCII these are the space and the
/// characters from tab to carriage return; beyond ASCII, Unicode decides.
pub open spec fn is_space(c: char) -> bool {
    if is_ascii(c) {
        c as u32 == 32 || 9 <= c as u32 <= 13
    } else {
        char_is_whitespace(c)
    }
}

/// Whether `c` is a letter: in ASCII `a` to `z` and `A` to `Z`; beyond
/// ASCII, Unicode decides.
pub open spec fn is_letter(c: char) -> bool {
    if is_ascii(c) {
        is_ascii_letter(c)
    } else {
        char_is_alphabetic(c)
    }
}

/// Whether `c` is a letter or a number: in ASCII the letters and the
/// digits; beyond ASCII, Unicode decides.
pub open spec fn is_letter_or_number(c: char) -> bool {
    if is_ascii(c) {
        is_ascii_letter(c) || is_digit(c)
    } else {
        char_is_alphanumeric(c)
    }
}

/// Whether `c` may start an identifier or keyword.
pub open spec fn is_identifier_start(c: char) -> bool {
    is_letter(c) || c == '_'
}

/// Whether `c` may continue an identifier or keyword.
pub open spec fn is_identifier_part(c: char) -> bool {
    is_letter_or_number(c) || c == '_'
}

/// Tests for an ASCII digit.
pub fn is_ascii_digit(c: char) -> (b: bool)
    ensures
        b == is_digit(c),
{
    let code: u32 = c as u32;
    48 <= code && code <= 57
}

/// Tests for whitespace.
pub fn is_whitespace(c: char) -> (b: bool)
    ensures
        b == is_space(c),
{
    let code: u32 = c as u32;
    if code < 128 {
        code == 32 || (9 <= code && code <= 13)
    } else {
        unicode_whitespace(c)
    }
}

/// Tests for a letter.
pub fn is_alphabetic(c: char) -> (b: bool)
    ensures
        b == is_letter(c),
{
    let code: u32 = c as u32;
    if code < 128 {
        (97 <= code && code <= 122) || (65 <= code && code <= 90)
    } else {
        unicode_alphabetic(c)
    }
}

/// Tests for a letter or a number.
pub fn is_alphanumeric(c: char) -> (b: bool)
    ensures
        b == is_letter_or_number(c),
{
    let code: u32 = c as u32;
    if code < 128 {
        (97 <= code && code <= 122) || (65 <= code && code <= 90) || (48 <= code && code <= 57)
    } else {
        unicode_alphanumeric(c)
    }
}

/// The characters of `s`, in order.
pub fn to_chars(s: &str) -> (chars: Vec<char>)
    ensures
        chars@ == s@,
{
    let mut chars: Vec<char> = Vec::new();
    for c in it: s.chars()
        invariant
            chars@ == it.seq().take(it.index() as int),
    {
        chars.push(c);
    }
    chars
}

} // verus!
