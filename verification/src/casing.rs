//! Changing the case of a word.
//!
//! The case mappings are those of the standard library, which follow Unicode
//! and may change the length of a word.  On ASCII text they are the familiar
//! letter-by-letter mappings, which are written out here.

use vstd::prelude::*;
use vstd::string::{StrSliceExecFns, StringExecFns};
use vstd::utf8::is_ascii_chars;
use crate::classes::{is_lower, is_upper};

verus! {

/// The lower-case form that `str::to_lowercase` gives to `s`.
pub uninterp spec fn unicode_lowercase(s: Seq<char>) -> Seq<char>;

/// The upper-case form that `str::to_uppercase` gives to `s`.
pub uninterp spec fn unicode_uppercase(s: Seq<char>) -> Seq<char>;

/// `str::to_lowercase` returns the lower-case form of the string, which is a
/// function of the string alone.  In ASCII text it turns `A`..`Z` into
/// `a`..`z` and leaves every other character as it is.
pub assume_specification[ str::to_lowercase ](s: &str) -> (out: String)
    ensures
        out@ == unicode_lowercase(s@),
        is_ascii_chars(s@) ==> out@ == ascii_lowercase(s@),
;

/// `str::to_uppercase` returns the upper-case form of the string, which is a
/// function of the string alone.  In ASCII text it turns `a`..`z` into
/// `A`..`Z` and leaves every other character as it is.
pub assume_specification[ str::to_uppercase ](s: &str) -> (out: String)
    ensures
        out@ == unicode_uppercase(s@),
        is_ascii_chars(s@) ==> out@ == ascii_uppercase(s@),
;

/// `c` in lower case, for an ASCII upper-case letter; `c` itself otherwise.
pub open spec fn lower_char(c: char) -> char {
    if is_upper(c) {
        ((c as u32) + 32) as char
    } else {
        c
    }
}

/// `c` in upper case, for an ASCII lower-case letter; `c` itself otherwise.
pub open spec fn upper_char(c: char) -> char {
    if is_lower(c) {
        ((c as u32) - 32) as char
    } else {
        c
    }
}

/// `w` with each ASCII upper-case letter in lower case.
pub open spec fn ascii_lowercase(w: Seq<char>) -> Seq<char> {
    Seq::new(w.len(), |i: int| lower_char(w[i]))
}

/// `w` with each ASCII lower-case letter in upper case.
pub open spec fn ascii_uppercase(w: Seq<char>) -> Seq<char> {
    Seq::new(w.len(), |i: int| upper_char(w[i]))
}

/// `w` in lower case: letter by letter where `w` is ASCII, by the Unicode
/// mapping of the whole word where it is not.
pub open spec fn lowercase(w: Seq<char>) -> Seq<char> {
    if is_ascii_chars(w) {
        ascii_lowercase(w)
    } else {
        unicode_lowercase(w)
    }
}

/// `w` in upper case: letter by letter where `w` is ASCII, by the Unicode
/// mapping of the whole word where it is not.
pub open spec fn uppercase(w: Seq<char>) -> Seq<char> {
    if is_ascii_chars(w) {
        ascii_uppercase(w)
    } else {
        unicode_uppercase(w)
    }
}

/// `w` with its first character in upper case and the rest as it is.  The
/// first character may become more than one.
pub open spec fn capitalize(w: Seq<char>) -> Seq<char> {
    if w.len() == 0 {
        w
    } else {
        uppercase(w.take(1)) + w.skip(1)
    }
}

/// `word` in lower case.
pub fn to_lower(word: &str) -> (out: String)
    ensures
        out@ == lowercase(word@),
{
    word.to_lowercase()
}

/// `word` in upper case.
pub fn to_upper(word: &str) -> (out: String)
    ensures
        out@ == uppercase(word@),
{
    word.to_uppercase()
}

/// `word` with its first character in upper case.
pub fn to_capitalized(word: &str) -> (out: String)
    ensures
        out@ == capitalize(word@),
{
    let n = word.unicode_len();
    if n == 0 {
        return String::new();
    }
    let first = word.substring_char(0, 1);
    let rest = word.substring_char(1, n);
    let mut out = first.to_uppercase();
    out.append(rest);
    proof {
        assert(word@.take(1) == word@.subrange(0, 1));
        assert(word@.skip(1) == word@.subrange(1, n as int));
    }
    out
}

} // verus!
