//! How the scanner behaves on texts that are put together from pieces.

use vstd::prelude::*;
use crate::classes::{in_class, is_digit, is_letter, is_lower, is_upper, CharClass};
use crate::tokenizer::{
    is_acronym, is_capitalized, is_digit_run, is_lower_run, is_token, lemma_run_end,
    lemma_run_end_is, lemma_token_end, run_end, token_end, tokens_from,
};

verus! {

/// `c`, standing right behind the token `w`, would be scanned as part of the
/// token that starts where `w` starts.
pub open spec fn extends(w: Seq<char>, c: char) -> bool
    recommends
        w.len() > 0,
{
    if is_upper(w[0]) {
        if w.len() == 1 {
            is_letter(c)
        } else if is_upper(w[1]) {
            is_upper(c)
        } else {
            is_lower(c)
        }
    } else if is_lower(w[0]) {
        is_lower(c)
    } else {
        is_digit(c)
    }
}

/// `c` belongs to no class that the scanner knows: it separates tokens.
pub open spec fn is_separator(c: char, digits: bool) -> bool {
    !is_letter(c) && !(digits && is_digit(c))
}

/// A run in the second piece of a text ends where it ends in that piece
/// alone.
pub proof fn lemma_run_end_shift(a: Seq<char>, b: Seq<char>, from: int, class: CharClass)
    requires
        0 <= from <= b.len(),
    ensures
        run_end(a + b, a.len() + from, class) == a.len() + run_end(b, from, class),
    decreases b.len() - from,
{
    let s = a + b;
    if from < b.len() {
        assert(s[a.len() + from] == b[from]);
        if in_class(b[from], class) {
            lemma_run_end_shift(a, b, from + 1, class);
        }
    }
}

/// A token in the second piece of a text ends where it ends in that piece
/// alone.
pub proof fn lemma_token_end_shift(a: Seq<char>, b: Seq<char>, at: int, digits: bool)
    requires
        0 <= at < b.len(),
    ensures
        token_end(a + b, a.len() + at, digits) == a.len() + token_end(b, at, digits),
{
    let s = a + b;
    assert(s[a.len() + at] == b[at]);
    if is_upper(b[at]) {
        if at + 1 < b.len() {
            assert(s[a.len() + at + 1] == b[at + 1]);
        }
        if at + 1 < b.len() && is_upper(b[at + 1]) {
            lemma_run_end_shift(a, b, at + 2, CharClass::Upper);
        } else {
            lemma_run_end_shift(a, b, at + 1, CharClass::Lower);
        }
    } else if is_lower(b[at]) {
        lemma_run_end_shift(a, b, at + 1, CharClass::Lower);
    } else if digits && is_digit(b[at]) {
        lemma_run_end_shift(a, b, at + 1, CharClass::Digit);
    }
}

/// The tokens found from a position in the second piece of a text are those
/// found from that position in the piece alone.
pub proof fn lemma_tokens_shift(a: Seq<char>, b: Seq<char>, at: int, digits: bool)
    requires
        0 <= at <= b.len(),
    ensures
        tokens_from(a + b, a.len() + at, digits) == tokens_from(b, at, digits),
    decreases b.len() - at,
{
    let s = a + b;
    if at < b.len() {
        lemma_token_end_shift(a, b, at, digits);
        lemma_token_end(b, at, digits);
        let end = token_end(b, at, digits);
        if at < end {
            lemma_tokens_shift(a, b, end, digits);
            assert(s.subrange(a.len() + at, a.len() + end) =~= b.subrange(at, end));
        } else {
            lemma_tokens_shift(a, b, at + 1, digits);
        }
    }
}

/// A token followed by text that does not extend it is scanned as itself, and
/// the scan goes on in the text behind it.
pub proof fn lemma_scan_word(w: Seq<char>, rest: Seq<char>, digits: bool)
    requires
        is_token(w, digits),
        rest.len() > 0 ==> !extends(w, rest[0]),
    ensures
        tokens_from(w + rest, 0, digits) == seq![w] + tokens_from(rest, 0, digits),
{
    let s = w + rest;
    let n = w.len() as int;
    assert(s[0] == w[0]);
    assert forall|i: int| 0 <= i < n implies s[i] == w[i] by {}
    if rest.len() > 0 {
        assert(s[n] == rest[0]);
    }
    if is_upper(w[0]) {
        if n >= 2 && is_upper(w[1]) {
            assert(is_acronym(w)) by {
                if is_capitalized(w) {
                    assert(in_class(w.skip(1)[0], CharClass::Lower));
                }
            }
            assert forall|i: int| 2 <= i < n implies in_class(#[trigger] s[i], CharClass::Upper) by {
                assert(in_class(w[i], CharClass::Upper));
            }
            lemma_run_end_is(s, 2, CharClass::Upper, n);
        } else {
            assert(is_capitalized(w)) by {
                if is_acronym(w) {
                    assert(in_class(w[1], CharClass::Upper));
                }
            }
            assert forall|i: int| 1 <= i < n implies in_class(#[trigger] s[i], CharClass::Lower) by {
                assert(in_class(w.skip(1)[i - 1], CharClass::Lower));
            }
            lemma_run_end_is(s, 1, CharClass::Lower, n);
        }
    } else if is_lower(w[0]) {
        assert(is_lower_run(w)) by {
            if digits && is_digit_run(w) {
                assert(in_class(w[0], CharClass::Digit));
            }
        }
        assert forall|i: int| 1 <= i < n implies in_class(#[trigger] s[i], CharClass::Lower) by {
            assert(in_class(w[i], CharClass::Lower));
        }
        lemma_run_end_is(s, 1, CharClass::Lower, n);
    } else {
        assert(digits && is_digit_run(w)) by {
            if is_lower_run(w) {
                assert(in_class(w[0], CharClass::Lower));
            }
            if is_acronym(w) {
                assert(in_class(w[0], CharClass::Upper));
            }
        }
        assert forall|i: int| 1 <= i < n implies in_class(#[trigger] s[i], CharClass::Digit) by {
            assert(in_class(w[i], CharClass::Digit));
        }
        assert(in_class(w[0], CharClass::Digit));
        lemma_run_end_is(s, 1, CharClass::Digit, n);
    }
    assert(token_end(s, 0, digits) == n);
    assert(s.subrange(0, n) =~= w);
    lemma_tokens_shift(w, rest, 0, digits);
}

/// A separator in front of a text adds no token.
pub proof fn lemma_scan_separator(c: char, rest: Seq<char>, digits: bool)
    requires
        is_separator(c, digits),
    ensures
        tokens_from(seq![c] + rest, 0, digits) == tokens_from(rest, 0, digits),
{
    let s = seq![c] + rest;
    assert(s[0] == c);
    assert(token_end(s, 0, digits) == 0);
    lemma_tokens_shift(seq![c], rest, 0, digits);
}

/// Digits in front of a text that starts with a digit lengthen its first
/// token and leave the others as they are.
pub proof fn lemma_scan_digits(w: Seq<char>, rest: Seq<char>)
    requires
        is_digit_run(w),
        rest.len() > 0,
        is_digit(rest[0]),
    ensures
        tokens_from(rest, 0, true).len() >= 1,
        is_digit_run(tokens_from(rest, 0, true)[0]),
        tokens_from(w + rest, 0, true) == seq![w + tokens_from(rest, 0, true)[0]] + tokens_from(
            rest,
            0,
            true,
        ).skip(1),
{
    let s = w + rest;
    let n = w.len() as int;
    let end = token_end(rest, 0, true);
    lemma_run_end(rest, 1, CharClass::Digit);
    lemma_token_end(rest, 0, true);
    let first = rest.subrange(0, end);
    assert(tokens_from(rest, 0, true) == seq![first] + tokens_from(rest, end, true));
    assert(tokens_from(rest, 0, true)[0] == first);
    assert(tokens_from(rest, 0, true).skip(1) =~= tokens_from(rest, end, true));
    assert(is_digit_run(first)) by {
        assert forall|i: int| 0 <= i < first.len() implies in_class(
            #[trigger] first[i],
            CharClass::Digit,
        ) by {
            assert(first[i] == rest[i]);
            if i > 0 {
                assert(in_class(rest[i], CharClass::Digit));
            }
        }
    }
    assert(in_class(w[0], CharClass::Digit));
    assert(s[0] == w[0]);
    assert forall|i: int| 1 <= i < n + end implies in_class(#[trigger] s[i], CharClass::Digit) by {
        if i < n {
            assert(in_class(w[i], CharClass::Digit));
        } else {
            assert(s[i] == rest[i - n]);
            if i - n > 0 {
                assert(in_class(rest[i - n], CharClass::Digit));
            }
        }
    }
    if n + end < s.len() {
        assert(s[n + end] == rest[end]);
    }
    lemma_run_end_is(s, 1, CharClass::Digit, n + end);
    assert(token_end(s, 0, true) == n + end);
    assert(s.subrange(0, n + end) =~= w + first);
    lemma_tokens_shift(w, rest, end, true);
}

} // verus!
