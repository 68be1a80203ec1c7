//! Per-character classification.
//!
//! The scanner classifies characters as whitespace, alphabetic, alphanumeric
//! or decimal digits. Within ASCII the three Unicode classes are written out
//! exactly; outside ASCII they are named, uninterpreted predicates whose
//! values only the trusted wrappers below report. Whitespace is disjoint from
//! the alphanumeric classes by definition, as the Unicode properties are.

use vstd::prelude::*;

verus! {

/// Whether the character outside ASCII has the Unicode `White_Space`
/// property, as `char::is_whitespace` decides it.
pub uninterp spec fn unicode_whitespace(c: char) -> bool;

/// Whether the character outside ASCII has the Unicode `Alphabetic`
/// property, as `char::is_alphabetic` decides it.
pub uninterp spec fn unicode_alphabetic(c: char) -> bool;

/// Whether the character outside ASCII is numeric in the Unicode sense, so
/// that `char::is_alphanumeric` accepts it without it being alphabetic.
pub uninterp spec fn unicode_numeric(c: char) -> bool;

/// An ASCII letter, `a`..=`z` or `A`..=`Z`.
pub open spec fn ascii_letter(c: char) -> bool {
    (97 <= c as u32 && c as u32 <= 122) || (65 <= c as u32 && c as u32 <= 90)
}

/// A decimal digit, `0`..=`9`; exactly the characters `char::is_digit(10)`
/// accepts.
pub open spec fn decimal_digit(c: char) -> bool {
    48 <= c as u32 && c as u32 <= 57
}

/// What `char::is_whitespace` returns. Within ASCII the `White_Space`
/// characters are space and the five controls U+0009..=U+000D.
pub open spec fn whitespace_char(c: char) -> bool {
    if (c as u32) < 128 {
        c as u32 == 32 || (9 <= c as u32 && c as u32 <= 13)
    } else {
        unicode_whitespace(c)
    }
}

/// What `char::is_alphabetic` returns. Within ASCII the `Alphabetic`
/// characters are exactly the letters; outside ASCII no alphabetic character
/// is whitespace, the two Unicode properties being disjoint.
pub open spec fn alphabetic_char(c: char) -> bool {
    if (c as u32) < 128 {
        ascii_letter(c)
    } else {
        unicode_alphabetic(c) && !unicode_whitespace(c)
    }
}

/// What `char::is_alphanumeric` returns: alphabetic or numeric. Within ASCII
/// these are exactly the letters and the decimal digits.
pub open spec fn alphanumeric_char(c: char) -> bool {
    if (c as u32) < 128 {
        ascii_letter(c) || decimal_digit(c)
    } else {
        (unicode_alphabetic(c) || unicode_numeric(c)) && !unicode_whitespace(c)
    }
}

/// Relies on `char::is_whitespace`: true exactly on characters with the
/// Unicode `White_Space` property, which within ASCII are space and
/// U+0009..=U+000D, and which is disjoint from `Alphabetic` and numeric.
#[verifier::external_body]
pub(crate) fn char_is_whitespace(c: char) -> (r: bool)
    ensures
        r == whitespace_char(c),
        (c as u32) >= 128 ==> r == unicode_whitespace(c),
{
    c.is_whitespace()
}

/// Relies on `char::is_alphabetic`: true exactly on characters with the
/// Unicode `Alphabetic` property, which within ASCII are the letters, and
/// which is disjoint from `White_Space`.
#[verifier::external_body]
pub(crate) fn char_is_alphabetic(c: char) -> (r: bool)
    ensures
        r == alphabetic_char(c),
        (c as u32) >= 128 ==> r == (unicode_alphabetic(c) && !unicode_whitespace(c)),
{
    c.is_alphabetic()
}

/// Relies on `char::is_alphanumeric`: true exactly on alphabetic or numeric
/// characters, which within ASCII are the letters and the decimal digits,
/// and neither class meets `White_Space`.
#[verifier::external_body]
pub(crate) fn char_is_alphanumeric(c: char) -> (r: bool)
    ensures
        r == alphanumeric_char(c),
        (c as u32) >= 128 ==> r == ((unicode_alphabetic(c) || unicode_numeric(c))
            && !unicode_whitespace(c)),
{
    c.is_alphanumeric()
}

/// A decimal digit test, written out: the behaviour of `char::is_digit(10)`.
pub(crate) fn char_is_decimal_digit(c: char) -> (r: bool)
    ensures
        r == decimal_digit(c),
{
    let u = c as u32;
    48 <= u && u <= 57
}

/// Relies on `String::push`: appends the given character to the end of the
/// string.
#[verifier::external_body]
pub(crate) fn push_char(s: &mut String, c: char)
    ensures
        final(s)@ == old(s)@.push(c),
{
    s.push(c)
}

/// A one-character string.
pub(crate) fn char_string(c: char) -> (s: String)
    ensures
        s@ == seq![c],
{
    let mut s = String::new();
    push_char(&mut s, c);
    proof {
        assert(s@ =~= seq![c]);
    }
    s
}

} // verus!
