//! Character classes of the scanner.

use vstd::prelude::*;

verus! {

/// Whether the standard library classes `c` as alphabetic.
pub uninterp spec fn unicode_alphabetic(c: char) -> bool;

/// Whether the standard library classes `c` as numeric.
pub uninterp spec fn unicode_numeric(c: char) -> bool;

/// Asks `char::is_alphabetic` whether `c` has the Unicode property Alphabetic;
/// the answer is the value of [`unicode_alphabetic`] at `c`.
#[verifier::external_body]
fn has_alphabetic_property(c: char) -> (r: bool)
    ensures
        r == unicode_alphabetic(c),
{
    c.is_alphabetic()
}

/// Asks `char::is_numeric` whether `c` is in one of the Unicode general
/// categories for numbers; the answer is the value of [`unicode_numeric`] at `c`.
#[verifier::external_body]
fn has_numeric_category(c: char) -> (r: bool)
    ensures
        r == unicode_numeric(c),
{
    c.is_numeric()
}

/// The four characters that separate tokens and are otherwise ignored.
pub open spec fn is_blank(c: char) -> bool {
    c == ' ' || c == '\r' || c == '\t' || c == '\n'
}

/// A character that may stand in an identifier: an ASCII letter, or a
/// character outside ASCII that is alphabetic.
pub open spec fn is_letter(c: char) -> bool {
    if (c as u32) < 128 {
        ('a' <= c && c <= 'z') || ('A' <= c && c <= 'Z')
    } else {
        unicode_alphabetic(c)
    }
}

/// A character that may start a numeric literal: an ASCII digit, or a
/// character outside ASCII that is numeric.
pub open spec fn is_digit(c: char) -> bool {
    if (c as u32) < 128 {
        '0' <= c && c <= '9'
    } else {
        unicode_numeric(c)
    }
}

/// Whether `c` is a blank.
pub(crate) fn blank(c: char) -> (r: bool)
    ensures
        r == is_blank(c),
{
    c == ' ' || c == '\r' || c == '\t' || c == '\n'
}

/// Whether `c` is a letter.
pub(crate) fn letter(c: char) -> (r: bool)
    ensures
        r == is_letter(c),
{
    if (c as u32) < 128 {
        ('a' <= c && c <= 'z') || ('A' <= c && c <= 'Z')
    } else {
        has_alphabetic_property(c)
    }
}

/// Whether `c` is a digit.
pub(crate) fn digit(c: char) -> (r: bool)
    ensures
        r == is_digit(c),
{
    if (c as u32) < 128 {
        '0' <= c && c <= '9'
    } else {
        has_numeric_category(c)
    }
}

} // verus!
