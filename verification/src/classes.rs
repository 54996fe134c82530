//! The ASCII character classes that scanning and recognition are built on.
//!
//! Only `A`..`Z`, `a`..`z` and `0`..`9` belong to a class; every other
//! character, ASCII or not, is a separator.

use vstd::prelude::*;

verus! {

/// A class of characters that a run can be made of.
#[derive(Clone, Copy, Debug, PartialEq, Eq, Structural)]
pub enum CharClass {
    /// `A`..`Z`
    Upper,
    /// `a`..`z`
    Lower,
    /// `0`..`9`
    Digit,
}

/// `c` is one of `A`..`Z`.
pub open spec fn is_upper(c: char) -> bool {
    'A' <= c <= 'Z'
}

/// `c` is one of `a`..`z`.
pub open spec fn is_lower(c: char) -> bool {
    'a' <= c <= 'z'
}

/// `c` is one of `0`..`9`.
pub open spec fn is_digit(c: char) -> bool {
    '0' <= c <= '9'
}

/// `c` is an ASCII letter.
pub open spec fn is_letter(c: char) -> bool {
    is_upper(c) || is_lower(c)
}

/// `c` belongs to `class`.
pub open spec fn in_class(c: char, class: CharClass) -> bool {
    match class {
        CharClass::Upper => is_upper(c),
        CharClass::Lower => is_lower(c),
        CharClass::Digit => is_digit(c),
    }
}

/// Every character of `w` belongs to `class`.
pub open spec fn all_in(w: Seq<char>, class: CharClass) -> bool {
    forall|i: int| 0 <= i < w.len() ==> in_class(#[trigger] w[i], class)
}

/// Decides [`is_upper`].
pub fn upper(c: char) -> (b: bool)
    ensures
        b == is_upper(c),
{
    'A' <= c && c <= 'Z'
}

/// Decides [`is_lower`].
pub fn lower(c: char) -> (b: bool)
    ensures
        b == is_lower(c),
{
    'a' <= c && c <= 'z'
}

/// Decides [`is_digit`].
pub fn digit(c: char) -> (b: bool)
    ensures
        b == is_digit(c),
{
    '0' <= c && c <= '9'
}

/// Decides [`in_class`].
pub fn member(c: char, class: CharClass) -> (b: bool)
    ensures
        b == in_class(c, class),
{
    match class {
        CharClass::Upper => upper(c),
        CharClass::Lower => lower(c),
        CharClass::Digit => digit(c),
    }
}

} // verus!
