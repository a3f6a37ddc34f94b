//! Character classes the scanner dispatches on.
use vstd::prelude::*;

verus! {

/// The characters with Unicode's White_Space property.
pub open spec fn whitespace(c: char) -> bool {
    ('\u{9}' <= c && c <= '\u{d}') || c == ' ' || c == '\u{85}' || c == '\u{a0}' || c == '\u{1680}'
        || ('\u{2000}' <= c && c <= '\u{200a}') || c == '\u{2028}' || c == '\u{2029}'
        || c == '\u{202f}' || c == '\u{205f}' || c == '\u{3000}'
}

/// Whether a character beyond ASCII has Unicode's Alphabetic property.
pub uninterp spec fn alphabetic_beyond_ascii(c: char) -> bool;

/// Whether a character beyond ASCII has one of Unicode's number general
/// categories (Nd, Nl, No).
pub uninterp spec fn numeric_beyond_ascii(c: char) -> bool;

/// Unicode's Alphabetic property: within ASCII, exactly the Latin letters.
pub open spec fn alphabetic(c: char) -> bool {
    if c <= '\u{7f}' {
        ('a' <= c && c <= 'z') || ('A' <= c && c <= 'Z')
    } else {
        alphabetic_beyond_ascii(c)
    }
}

/// Unicode's number categories: within ASCII, exactly the decimal digits.
pub open spec fn numeric(c: char) -> bool {
    if c <= '\u{7f}' {
        '0' <= c && c <= '9'
    } else {
        numeric_beyond_ascii(c)
    }
}

pub open spec fn is_open_bracket(c: char) -> bool {
    c == '(' || c == '[' || c == '{'
}

pub open spec fn is_close_bracket(c: char) -> bool {
    c == ')' || c == ']' || c == '}'
}

pub open spec fn is_bracket(c: char) -> bool {
    is_open_bracket(c) || is_close_bracket(c)
}

/// Relies on char::is_whitespace: true exactly for the White_Space characters.
#[verifier::external_body]
pub(crate) fn is_whitespace(c: char) -> (r: bool)
    ensures
        r == whitespace(c),
{
    c.is_whitespace()
}

/// Relies on char::is_alphabetic: true exactly for the characters with the
/// Alphabetic property, which within ASCII are the Latin letters.
#[verifier::external_body]
pub(crate) fn is_alphabetic(c: char) -> (r: bool)
    ensures
        r == alphabetic(c),
        c > '\u{7f}' ==> r == alphabetic_beyond_ascii(c),
{
    c.is_alphabetic()
}

/// Relies on char::is_numeric: true exactly for the characters in the number
/// categories, which within ASCII are the decimal digits.
#[verifier::external_body]
pub(crate) fn is_numeric(c: char) -> (r: bool)
    ensures
        r == numeric(c),
        c > '\u{7f}' ==> r == numeric_beyond_ascii(c),
{
    c.is_numeric()
}

/// Relies on String::push: appends one character at the end.
#[verifier::external_body]
pub(crate) fn push_char(s: &mut String, c: char)
    ensures
        final(s)@ == old(s)@.push(c),
{
    s.push(c)
}

} // verus!
