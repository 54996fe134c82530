//! Recognising which naming convention a whole string follows.
//!
//! Each convention has a grammar that the whole string must match.  The
//! grammars are tried in a fixed order and the first that matches gives the
//! tag; a string that matches none is `Unknown`.
//!
//! Each grammar is decided here by a few tests on the characters of the
//! string.  [`crate::grammar`] writes the grammars by their groups and shows
//! that the two agree.
//!
//! Whether digits belong to the grammars is the caller's choice.
//! [`guess_naming_convention_with`] takes it as a flag: with the flag on a
//! digit may stand wherever a letter of a group may, and may start a group of
//! a `PascalCase` string; with the flag off no string with a digit matches a
//! grammar.  [`guess_naming_convention`] has digits enabled.

use vstd::prelude::*;
use crate::classes::{digit, is_digit, is_lower, is_upper, lower, upper};
use crate::text::chars_of;

verus! {

/// The naming conventions that this library knows, and `Unknown` for a string
/// that follows none of them.
#[derive(Clone, Copy, Debug, PartialEq, Eq, Hash, Structural)]
pub enum NamingConvention {
    /// `PascalCase`: every word capitalised, no separator.
    PascalCase,
    /// `camelCase`: as `PascalCase`, but the first word in lower case.
    CamelCase,
    /// `snake_case`: lower-case words joined by `_`.
    SnakeCase,
    /// `kebab-case`: lower-case words joined by `-`.
    KebabCase,
    /// `UPPER_SNAKE_CASE`: upper-case words joined by `_`.
    UpperSnakeCase,
    /// None of the above.
    Unknown,
}

/// `c` may start a group of a `PascalCase` string.
pub open spec fn is_head(c: char, digits: bool) -> bool {
    is_upper(c) || (digits && is_digit(c))
}

/// `c` may continue a group of a `PascalCase` or `camelCase` string, may
/// start a `camelCase` string and may stand in a group of a `snake_case` or
/// `kebab-case` string.
pub open spec fn is_tail(c: char, digits: bool) -> bool {
    is_lower(c) || (digits && is_digit(c))
}

/// `s` is made of one or more groups, each a head character followed by tail
/// characters, with nothing between the groups: `s` is not empty, starts with
/// a head character and holds head and tail characters only.
pub open spec fn is_pascal_case(s: Seq<char>, digits: bool) -> bool {
    &&& s.len() > 0
    &&& is_head(s[0], digits)
    &&& forall|i: int| 0 <= i < s.len() ==> is_head(#[trigger] s[i], digits) || is_tail(s[i], digits)
}

/// `s` is a group of tail characters followed by groups that each start with
/// an upper-case letter and go on with tail characters: `s` is not empty,
/// starts with a tail character and holds upper-case letters and tail
/// characters only.
pub open spec fn is_camel_case(s: Seq<char>, digits: bool) -> bool {
    &&& s.len() > 0
    &&& is_tail(s[0], digits)
    &&& forall|i: int| 0 <= i < s.len() ==> is_upper(#[trigger] s[i]) || is_tail(s[i], digits)
}

/// `s` is made of one or more non-empty groups with exactly one `sep` between
/// neighbours: `s` is not empty, neither starts nor ends with `sep`, and no
/// two `sep` stand side by side.  This says nothing of what the groups hold.
pub open spec fn well_separated(s: Seq<char>, sep: char) -> bool {
    &&& s.len() > 0
    &&& s[0] != sep
    &&& s[s.len() - 1] != sep
    &&& forall|i: int| 0 <= i < s.len() - 1 ==> !(#[trigger] s[i] == sep && s[i + 1] == sep)
}

/// `s` is made of groups of tail characters with exactly one `sep` between
/// neighbours.
pub open spec fn is_lower_separated(s: Seq<char>, sep: char, digits: bool) -> bool {
    &&& well_separated(s, sep)
    &&& forall|i: int| 0 <= i < s.len() ==> #[trigger] s[i] == sep || is_tail(s[i], digits)
}

/// `s` is made of groups of tail characters with exactly one `_` between
/// neighbours.
pub open spec fn is_snake_case(s: Seq<char>, digits: bool) -> bool {
    is_lower_separated(s, '_', digits)
}

/// `s` is made of groups of tail characters with exactly one `-` between
/// neighbours.
pub open spec fn is_kebab_case(s: Seq<char>, digits: bool) -> bool {
    is_lower_separated(s, '-', digits)
}

/// `s` is made of groups of head characters with exactly one `_` between
/// neighbours.
pub open spec fn is_upper_snake_case(s: Seq<char>, digits: bool) -> bool {
    &&& well_separated(s, '_')
    &&& forall|i: int| 0 <= i < s.len() ==> #[trigger] s[i] == '_' || is_head(s[i], digits)
}

/// `s` matches the grammar of `convention`.  Nothing matches `Unknown`.
pub open spec fn conforms(s: Seq<char>, convention: NamingConvention, digits: bool) -> bool {
    match convention {
        NamingConvention::PascalCase => is_pascal_case(s, digits),
        NamingConvention::CamelCase => is_camel_case(s, digits),
        NamingConvention::SnakeCase => is_snake_case(s, digits),
        NamingConvention::KebabCase => is_kebab_case(s, digits),
        NamingConvention::UpperSnakeCase => is_upper_snake_case(s, digits),
        NamingConvention::Unknown => false,
    }
}

/// The tag of `s`: the first of `PascalCase`, `CamelCase`, `SnakeCase`,
/// `KebabCase`, `UpperSnakeCase` whose grammar `s` matches, and `Unknown`
/// where it matches none.
pub open spec fn classify(s: Seq<char>, digits: bool) -> NamingConvention {
    if is_pascal_case(s, digits) {
        NamingConvention::PascalCase
    } else if is_camel_case(s, digits) {
        NamingConvention::CamelCase
    } else if is_snake_case(s, digits) {
        NamingConvention::SnakeCase
    } else if is_kebab_case(s, digits) {
        NamingConvention::KebabCase
    } else if is_upper_snake_case(s, digits) {
        NamingConvention::UpperSnakeCase
    } else {
        NamingConvention::Unknown
    }
}

/// The place of a tag in the order in which the grammars are tried.
pub open spec fn rank(convention: NamingConvention) -> nat {
    match convention {
        NamingConvention::PascalCase => 0,
        NamingConvention::CamelCase => 1,
        NamingConvention::SnakeCase => 2,
        NamingConvention::KebabCase => 3,
        NamingConvention::UpperSnakeCase => 4,
        NamingConvention::Unknown => 5,
    }
}

/// Every text has exactly one tag.  The tag is a convention whose grammar the
/// text matches, no grammar that is tried before it matches the text, and
/// the tag is `Unknown` for the texts that match no grammar and for no
/// others.
pub proof fn lemma_classify_first_match(s: Seq<char>, digits: bool)
    ensures
        classify(s, digits) != NamingConvention::Unknown ==> conforms(
            s,
            classify(s, digits),
            digits,
        ),
        forall|c: NamingConvention|
            rank(c) < rank(classify(s, digits)) ==> !conforms(s, c, digits),
        classify(s, digits) == NamingConvention::Unknown <==> forall|c: NamingConvention|
            !conforms(s, c, digits),
{
    assert forall|c: NamingConvention| rank(c) < rank(classify(s, digits)) implies !conforms(
        s,
        c,
        digits,
    ) by {}
    if classify(s, digits) != NamingConvention::Unknown {
        assert(conforms(s, classify(s, digits), digits));
    }
}

/// The empty text follows no convention.
pub proof fn lemma_classify_empty(digits: bool)
    ensures
        classify(Seq::<char>::empty(), digits) == NamingConvention::Unknown,
{
}

/// Decides [`is_head`].
fn head(c: char, digits: bool) -> (b: bool)
    ensures
        b == is_head(c, digits),
{
    upper(c) || (digits && digit(c))
}

/// Decides [`is_tail`].
fn tail(c: char, digits: bool) -> (b: bool)
    ensures
        b == is_tail(c, digits),
{
    lower(c) || (digits && digit(c))
}

/// Decides [`is_pascal_case`].
fn matches_pascal(chars: &Vec<char>, digits: bool) -> (b: bool)
    ensures
        b == is_pascal_case(chars@, digits),
{
    if chars.len() == 0 || !head(chars[0], digits) {
        return false;
    }
    let mut i: usize = 0;
    while i < chars.len()
        invariant
            i <= chars.len(),
            forall|j: int| 0 <= j < i ==> is_head(#[trigger] chars@[j], digits) || is_tail(chars@[j], digits),
        decreases chars.len() - i,
    {
        if !(head(chars[i], digits) || tail(chars[i], digits)) {
            return false;
        }
        i += 1;
    }
    true
}

/// Decides [`is_camel_case`].
fn matches_camel(chars: &Vec<char>, digits: bool) -> (b: bool)
    ensures
        b == is_camel_case(chars@, digits),
{
    if chars.len() == 0 || !tail(chars[0], digits) {
        return false;
    }
    let mut i: usize = 0;
    while i < chars.len()
        invariant
            i <= chars.len(),
            forall|j: int| 0 <= j < i ==> is_upper(#[trigger] chars@[j]) || is_tail(chars@[j], digits),
        decreases chars.len() - i,
    {
        if !(upper(chars[i]) || tail(chars[i], digits)) {
            return false;
        }
        i += 1;
    }
    true
}

/// Decides [`well_separated`].
fn matches_separated(chars: &Vec<char>, sep: char) -> (b: bool)
    ensures
        b == well_separated(chars@, sep),
{
    let n = chars.len();
    if n == 0 || chars[0] == sep || chars[n - 1] == sep {
        return false;
    }
    let mut i: usize = 0;
    while i < n - 1
        invariant
            n == chars.len(),
            n > 0,
            i <= n - 1,
            forall|j: int| 0 <= j < i ==> !(#[trigger] chars@[j] == sep && chars@[j + 1] == sep),
        decreases n - i,
    {
        if chars[i] == sep && chars[i + 1] == sep {
            return false;
        }
        i += 1;
    }
    true
}

/// Decides [`is_lower_separated`].
fn matches_lower_separated(chars: &Vec<char>, sep: char, digits: bool) -> (b: bool)
    ensures
        b == is_lower_separated(chars@, sep, digits),
{
    if !matches_separated(chars, sep) {
        return false;
    }
    let mut i: usize = 0;
    while i < chars.len()
        invariant
            i <= chars.len(),
            forall|j: int| 0 <= j < i ==> #[trigger] chars@[j] == sep || is_tail(chars@[j], digits),
        decreases chars.len() - i,
    {
        if !(chars[i] == sep || tail(chars[i], digits)) {
            return false;
        }
        i += 1;
    }
    true
}

/// Decides [`is_upper_snake_case`].
fn matches_upper_snake(chars: &Vec<char>, digits: bool) -> (b: bool)
    ensures
        b == is_upper_snake_case(chars@, digits),
{
    if !matches_separated(chars, '_') {
        return false;
    }
    let mut i: usize = 0;
    while i < chars.len()
        invariant
            i <= chars.len(),
            forall|j: int| 0 <= j < i ==> #[trigger] chars@[j] == '_' || is_head(chars@[j], digits),
        decreases chars.len() - i,
    {
        if !(chars[i] == '_' || head(chars[i], digits)) {
            return false;
        }
        i += 1;
    }
    true
}

/// Tells which naming convention the whole of `s` follows, with digits
/// allowed in groups where `digits` is set and refused where it is not.
///
/// The grammars are tried in the order `PascalCase`, `CamelCase`,
/// `SnakeCase`, `KebabCase`, `UpperSnakeCase`; the first that the whole
/// string matches gives the tag, and a string that matches none is `Unknown`.
pub fn guess_naming_convention_with(s: &str, digits: bool) -> (tag: NamingConvention)
    ensures
        tag == classify(s@, digits),
{
    let chars = chars_of(s);
    if matches_pascal(&chars, digits) {
        NamingConvention::PascalCase
    } else if matches_camel(&chars, digits) {
        NamingConvention::CamelCase
    } else if matches_lower_separated(&chars, '_', digits) {
        NamingConvention::SnakeCase
    } else if matches_lower_separated(&chars, '-', digits) {
        NamingConvention::KebabCase
    } else if matches_upper_snake(&chars, digits) {
        NamingConvention::UpperSnakeCase
    } else {
        NamingConvention::Unknown
    }
}

/// Tells which naming convention the whole of `s` follows.  Digits are
/// allowed in groups; see [`guess_naming_convention_with`] for the grammars
/// without them.
pub fn guess_naming_convention(s: &str) -> (tag: NamingConvention)
    ensures
        tag == classify(s@, true),
{
    guess_naming_convention_with(s, true)
}

} // verus!
