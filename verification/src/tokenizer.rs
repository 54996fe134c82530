//! Splitting text into tokens.
//!
//! The scanner walks the text from left to right.  At each position it tries
//! four kinds of run, in this order, and takes the longest run of the first
//! kind that fits:
//!
//! 1. an acronym: two or more upper-case letters;
//! 2. a capitalised word: one upper-case letter, then lower-case letters;
//! 3. a lower-case run: one or more lower-case letters;
//! 4. a digit run: one or more digits, where digits are enabled.
//!
//! A character that starts none of these is a separator and is dropped.
//!
//! An acronym takes every upper-case letter that follows it, also one that a
//! reader would take for the start of the next word: `HTTPServer` scans as
//! `HTTPS`, `erver`.
//!
//! Whether digit runs are tokens is the caller's choice.  [`tokenize_with`]
//! takes it as a flag; with the flag off a digit is a separator like any
//! other.  [`tokenize`] scans with digits enabled.
//!
//! The classes are those of ASCII.  A letter or digit of another script is a
//! separator, and the scan runs in time linear in the length of the text.

use vstd::prelude::*;
use crate::classes::{
    all_in, digit, in_class, is_digit, is_letter, is_lower, is_upper, lower, member, upper,
    CharClass,
};
use crate::text::{chars_of, string_of};

verus! {

/// The end of the longest run of `class` characters that starts at `from`:
/// the first position at or after `from` that is past the end of `s` or holds
/// a character outside `class`.
pub open spec fn run_end(s: Seq<char>, from: int, class: CharClass) -> int
    decreases s.len() - from,
{
    if 0 <= from < s.len() && in_class(s[from], class) {
        run_end(s, from + 1, class)
    } else {
        from
    }
}

/// The end of the token that starts at `at`, or `at` itself where no token
/// starts there.
pub open spec fn token_end(s: Seq<char>, at: int, digits: bool) -> int {
    if !(0 <= at < s.len()) {
        at
    } else if is_upper(s[at]) {
        if at + 1 < s.len() && is_upper(s[at + 1]) {
            run_end(s, at + 2, CharClass::Upper)
        } else {
            run_end(s, at + 1, CharClass::Lower)
        }
    } else if is_lower(s[at]) {
        run_end(s, at + 1, CharClass::Lower)
    } else if digits && is_digit(s[at]) {
        run_end(s, at + 1, CharClass::Digit)
    } else {
        at
    }
}

/// The tokens of `s` that start at or after `at`, in the order of the text.
pub open spec fn tokens_from(s: Seq<char>, at: int, digits: bool) -> Seq<Seq<char>>
    decreases s.len() - at,
{
    if !(0 <= at < s.len()) {
        Seq::empty()
    } else {
        let end = token_end(s, at, digits);
        if at < end <= s.len() {
            seq![s.subrange(at, end)] + tokens_from(s, end, digits)
        } else {
            tokens_from(s, at + 1, digits)
        }
    }
}

/// The tokens of `s`, in the order of the text.
pub open spec fn spec_tokenize(s: Seq<char>, digits: bool) -> Seq<Seq<char>> {
    tokens_from(s, 0, digits)
}

/// `w` is two or more upper-case letters.
pub open spec fn is_acronym(w: Seq<char>) -> bool {
    w.len() >= 2 && all_in(w, CharClass::Upper)
}

/// `w` is one upper-case letter followed by lower-case letters only.
pub open spec fn is_capitalized(w: Seq<char>) -> bool {
    w.len() >= 1 && is_upper(w[0]) && all_in(w.skip(1), CharClass::Lower)
}

/// `w` is one or more lower-case letters.
pub open spec fn is_lower_run(w: Seq<char>) -> bool {
    w.len() >= 1 && all_in(w, CharClass::Lower)
}

/// `w` is one or more digits.
pub open spec fn is_digit_run(w: Seq<char>) -> bool {
    w.len() >= 1 && all_in(w, CharClass::Digit)
}

/// `w` has the shape of a token: it is not empty and is an acronym, a
/// capitalised word, a lower-case run or, where digits are enabled, a digit
/// run.
pub open spec fn is_token(w: Seq<char>, digits: bool) -> bool {
    is_acronym(w) || is_capitalized(w) || is_lower_run(w) || (digits && is_digit_run(w))
}

/// Every element of `tokens` has the shape of a token.
pub open spec fn all_tokens(tokens: Seq<Seq<char>>, digits: bool) -> bool {
    forall|k: int| 0 <= k < tokens.len() ==> is_token(#[trigger] tokens[k], digits)
}

/// What [`run_end`] returns lies between `from` and the end of `s`, the
/// characters up to it belong to `class`, and the one at it, if any, does not.
pub proof fn lemma_run_end(s: Seq<char>, from: int, class: CharClass)
    requires
        0 <= from <= s.len(),
    ensures
        from <= run_end(s, from, class) <= s.len(),
        forall|i: int| from <= i < run_end(s, from, class) ==> in_class(#[trigger] s[i], class),
        run_end(s, from, class) < s.len() ==> !in_class(s[run_end(s, from, class)], class),
    decreases s.len() - from,
{
    if from < s.len() && in_class(s[from], class) {
        lemma_run_end(s, from + 1, class);
    }
}

/// A position that ends a run of `class` characters from `from`, and holds no
/// `class` character itself, is what [`run_end`] returns.
pub proof fn lemma_run_end_is(s: Seq<char>, from: int, class: CharClass, end: int)
    requires
        0 <= from <= end <= s.len(),
        forall|i: int| from <= i < end ==> in_class(#[trigger] s[i], class),
        end < s.len() ==> !in_class(s[end], class),
    ensures
        run_end(s, from, class) == end,
    decreases end - from,
{
    if from < end {
        lemma_run_end_is(s, from + 1, class, end);
    }
}

/// A token that starts inside the text ends inside the text, and has the
/// shape of a token.
pub proof fn lemma_token_end(s: Seq<char>, at: int, digits: bool)
    requires
        0 <= at < s.len(),
    ensures
        at <= token_end(s, at, digits) <= s.len(),
        at < token_end(s, at, digits) ==> is_token(
            s.subrange(at, token_end(s, at, digits)),
            digits,
        ),
        at == token_end(s, at, digits) <==> !(is_letter(s[at]) || (digits && is_digit(s[at]))),
{
    let end = token_end(s, at, digits);
    let w = s.subrange(at, end);
    if is_upper(s[at]) {
        if at + 1 < s.len() && is_upper(s[at + 1]) {
            lemma_run_end(s, at + 2, CharClass::Upper);
            assert(is_acronym(w));
        } else {
            lemma_run_end(s, at + 1, CharClass::Lower);
            assert(is_capitalized(w));
        }
    } else if is_lower(s[at]) {
        lemma_run_end(s, at + 1, CharClass::Lower);
        assert(is_lower_run(w));
    } else if digits && is_digit(s[at]) {
        lemma_run_end(s, at + 1, CharClass::Digit);
        assert(is_digit_run(w));
    }
}

/// Every token that the scanner finds has the shape of a token; none is
/// empty.
pub proof fn lemma_tokens_well_formed(s: Seq<char>, at: int, digits: bool)
    ensures
        all_tokens(tokens_from(s, at, digits), digits),
        forall|k: int|
            0 <= k < tokens_from(s, at, digits).len() ==> (#[trigger] tokens_from(
                s,
                at,
                digits,
            )[k]).len() > 0,
    decreases s.len() - at,
{
    if 0 <= at < s.len() {
        lemma_token_end(s, at, digits);
        let end = token_end(s, at, digits);
        if at < end {
            lemma_tokens_well_formed(s, end, digits);
        } else {
            lemma_tokens_well_formed(s, at + 1, digits);
        }
    }
}

/// Finds [`run_end`].
fn scan_run(chars: &Vec<char>, from: usize, class: CharClass) -> (end: usize)
    requires
        from <= chars.len(),
    ensures
        end == run_end(chars@, from as int, class),
        from <= end <= chars.len(),
{
    let mut i: usize = from;
    while i < chars.len() && member(chars[i], class)
        invariant
            from <= i <= chars.len(),
            run_end(chars@, from as int, class) == run_end(chars@, i as int, class),
        decreases chars.len() - i,
    {
        i += 1;
    }
    i
}

/// Finds [`token_end`].
fn scan_token(chars: &Vec<char>, at: usize, digits: bool) -> (end: usize)
    requires
        at < chars.len(),
    ensures
        end == token_end(chars@, at as int, digits),
        at <= end <= chars.len(),
{
    let c = chars[at];
    if upper(c) {
        if at + 1 < chars.len() && upper(chars[at + 1]) {
            scan_run(chars, at + 2, CharClass::Upper)
        } else {
            scan_run(chars, at + 1, CharClass::Lower)
        }
    } else if lower(c) {
        scan_run(chars, at + 1, CharClass::Lower)
    } else if digits && digit(c) {
        scan_run(chars, at + 1, CharClass::Digit)
    } else {
        at
    }
}

/// Splits `input` into its tokens, with digit runs as tokens where `digits`
/// is set and digits as separators where it is not.
///
/// The result is exactly what the scanning rules give, in the order of the
/// text.  Every token has the shape of a token, so none is empty; an input
/// without letters (and digits, where enabled) gives no token at all.
pub fn tokenize_with(input: &str, digits: bool) -> (tokens: Vec<String>)
    ensures
        tokens.deep_view() == spec_tokenize(input@, digits),
        all_tokens(tokens.deep_view(), digits),
        forall|k: int| 0 <= k < tokens.len() ==> (#[trigger] tokens[k])@.len() > 0,
{
    let chars = chars_of(input);
    let mut tokens: Vec<String> = Vec::new();
    let mut at: usize = 0;
    while at < chars.len()
        invariant
            at <= chars.len(),
            spec_tokenize(chars@, digits) == tokens.deep_view() + tokens_from(
                chars@,
                at as int,
                digits,
            ),
        decreases chars.len() - at,
    {
        let end = scan_token(&chars, at, digits);
        if at < end {
            let ghost before = tokens.deep_view();
            let word = string_of(&chars, at, end);
            tokens.push(word);
            proof {
                assert(tokens.deep_view() =~= before + seq![chars@.subrange(at as int, end as int)]);
            }
            at = end;
        } else {
            at += 1;
        }
    }
    proof {
        lemma_tokens_well_formed(input@, 0, digits);
        assert(tokens.deep_view() =~= spec_tokenize(input@, digits));
        assert forall|k: int| 0 <= k < tokens.len() implies (#[trigger] tokens[k])@.len() > 0 by {
            assert(tokens.deep_view()[k] == tokens[k]@);
        }
    }
    tokens
}

/// Splits `input` into its tokens: acronyms, capitalised words, lower-case
/// runs and digit runs.  Digits are enabled; see [`tokenize_with`] for the
/// scanner without them.
pub fn tokenize(input: &str) -> (tokens: Vec<String>)
    ensures
        tokens.deep_view() == spec_tokenize(input@, true),
        all_tokens(tokens.deep_view(), true),
        forall|k: int| 0 <= k < tokens.len() ==> (#[trigger] tokens[k])@.len() > 0,
{
    tokenize_with(input, true)
}

} // verus!
