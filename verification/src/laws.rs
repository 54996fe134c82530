//! What holds of scanning and rendering together.
//!
//! * Scanning gives tokens that have the shape of a token, none of them empty,
//!   and loses nothing of the text but its separators.
//! * Scanning a rendering gives the tokens back up to case: always where the
//!   convention has a separator, and in `PascalCase` and `camelCase` unless
//!   two neighbours run together.  `a_b` in `PascalCase` is `AB`, which is an
//!   acronym, and `1_2` is `12`, which is one number.
//! * Rendering is idempotent, unless two capitals of neighbouring words
//!   started an acronym: `AB` in `PascalCase` is `Ab`.
//! * Two renderings of the same tokens hold the same tokens up to case where
//!   they agree on the tokens.

use vstd::prelude::*;
use crate::casing::lowercase;
use crate::classes::{all_in, in_class, is_digit, is_letter, is_upper, CharClass};
use crate::classifier::{conforms, is_head, is_tail, NamingConvention};
use crate::grammar::lemma_join_separated;
use crate::conversion::{
    camel_text, camel_words, lower_words, pascal_text, pascal_word, pascal_words, rendered,
    separator_of, words_in,
};
use crate::scanning::{extends, is_separator, lemma_scan_digits, lemma_scan_word};
use crate::text::{join, lemma_join_all, lemma_join_first};
use crate::tokenizer::{
    all_tokens, is_capitalized, is_digit_run, is_lower_run, is_token, lemma_token_end,
    lemma_tokens_well_formed, spec_tokenize, token_end, tokens_from,
};
use crate::words::{
    is_pascal_form, lemma_camel_text_cons, lemma_filter_keeps, lemma_lower_words_cons,
    lemma_lowercase_token, lemma_pascal_form, lemma_pascal_text_cons, lemma_pascal_word,
    lemma_scan_joined, lemma_token_is_ascii, lemma_uppercase_token, lemma_words_are_tokens,
};

verus! {

/// Every token that scanning finds has the shape of a token, and none is
/// empty.
pub proof fn lemma_no_empty_token(text: Seq<char>, digits: bool)
    ensures
        all_tokens(spec_tokenize(text, digits), digits),
        forall|k: int|
            0 <= k < spec_tokenize(text, digits).len() ==> (#[trigger] spec_tokenize(
                text,
                digits,
            )[k]).len() > 0,
{
    lemma_tokens_well_formed(text, 0, digits);
}

/// The test that tells the characters of tokens from separators.
pub open spec fn word_chars(digits: bool) -> spec_fn(char) -> bool {
    |c: char| !is_separator(c, digits)
}

/// The tokens from a position on, one after the other, are the text from
/// that position on without its separators.
pub proof fn lemma_tokens_from_keep_text(text: Seq<char>, at: int, digits: bool)
    requires
        0 <= at <= text.len(),
    ensures
        join(tokens_from(text, at, digits), Seq::empty()) == text.skip(at).filter(
            word_chars(digits),
        ),
    decreases text.len() - at,
{
    reveal(Seq::filter);
    let nothing = Seq::<char>::empty();
    let pred = word_chars(digits);
    if at == text.len() {
        assert(text.skip(at) =~= nothing);
    } else {
        lemma_token_end(text, at, digits);
        let end = token_end(text, at, digits);
        if at < end {
            let token = text.subrange(at, end);
            let others = tokens_from(text, end, digits);
            lemma_tokens_from_keep_text(text, end, digits);
            lemma_token_is_ascii(token, digits);
            assert forall|i: int| 0 <= i < token.len() implies pred(#[trigger] token[i]) by {
                if is_digit_run(token) && !is_letter(token[0]) {
                    assert(in_class(token[i], CharClass::Digit));
                }
            }
            lemma_filter_keeps(token, pred);
            assert(text.skip(at) =~= token + text.skip(end));
            Seq::filter_distributes_over_add(token, text.skip(end), pred);
            if others.len() == 0 {
                assert(seq![token] + others =~= seq![token]);
                assert(token + nothing =~= token);
            } else {
                assert((seq![token] + others).skip(1) =~= others);
                assert(token + nothing + join(others, nothing) =~= token + join(others, nothing));
            }
        } else {
            lemma_tokens_from_keep_text(text, at + 1, digits);
            let one = seq![text[at]];
            assert(text.skip(at) =~= one + text.skip(at + 1));
            Seq::filter_distributes_over_add(one, text.skip(at + 1), pred);
            assert(one.filter(pred) =~= nothing) by {
                reveal_with_fuel(Seq::filter, 2);
                assert(one.last() == text[at]);
                assert(!pred(text[at]));
                assert(one.drop_last() =~= nothing);
            }
            assert(nothing + text.skip(at + 1).filter(pred) =~= text.skip(at + 1).filter(pred));
        }
    }
}

/// Scanning loses nothing but separators and changes no order: the tokens of
/// a text, one after the other, are the text without its separators.
pub proof fn lemma_tokens_keep_text(text: Seq<char>, digits: bool)
    ensures
        join(spec_tokenize(text, digits), Seq::empty()) == text.filter(word_chars(digits)),
{
    lemma_tokens_from_keep_text(text, 0, digits);
    assert(text.skip(0) =~= text);
}

/// A text has no token exactly where it holds nothing but separators, as the
/// empty text does.
pub proof fn lemma_no_tokens(text: Seq<char>, digits: bool)
    ensures
        spec_tokenize(text, digits).len() == 0 <==> forall|i: int|
            0 <= i < text.len() ==> is_separator(#[trigger] text[i], digits),
{
    let found = spec_tokenize(text, digits);
    let pred = word_chars(digits);
    let kept = text.filter(pred);
    lemma_tokens_keep_text(text, digits);
    lemma_no_empty_token(text, digits);
    if found.len() > 0 {
        lemma_join_first(found, Seq::empty());
    }
    if found.len() == 0 {
        assert forall|i: int| 0 <= i < text.len() implies is_separator(
            #[trigger] text[i],
            digits,
        ) by {
            if pred(text[i]) {
                text.lemma_filter_contains(pred, i);
            }
        }
    }
    if forall|i: int| 0 <= i < text.len() ==> is_separator(#[trigger] text[i], digits) {
        if kept.len() > 0 {
            text.lemma_filter_pred(pred, 0);
            assert(kept.contains(kept[0]));
            text.lemma_filter_contains_rev(pred, kept[0]);
            let j = choose|j: int| 0 <= j < text.len() && text[j] == kept[0];
            assert(is_separator(text[j], digits));
        }
    }
}

/// No tokens render as the empty text in every convention.
pub proof fn lemma_render_nothing(to: NamingConvention)
    ensures
        rendered(Seq::empty(), to) == Seq::<char>::empty(),
{
    let none = Seq::<Seq<char>>::empty();
    assert(words_in(none, to) =~= none);
}

/// Rendered as capitalised words with nothing between them, `a` and `b` are
/// not read as they stand: `a` is a single letter and `b` a word, and the two
/// capitals start an acronym.
pub open spec fn letters_run_together(a: Seq<char>, b: Seq<char>) -> bool
    recommends
        a.len() > 0,
        b.len() > 0,
{
    a.len() == 1 && is_letter(a[0]) && is_letter(b[0])
}

/// With nothing between them, `a` and `b` are read as one token: both are
/// digits.
pub open spec fn digits_run_together(a: Seq<char>, b: Seq<char>) -> bool
    recommends
        a.len() > 0,
        b.len() > 0,
{
    is_digit(a[0]) && is_digit(b[0])
}

/// In the rendering of `tokens` in `to`, no two capitals of neighbouring words
/// start an acronym.  With a separator none can.  In `PascalCase` no single
/// letter stands before a word; in `camelCase` likewise, but for the first
/// token, which is rendered in lower case.
pub open spec fn keeps_letters_apart(tokens: Seq<Seq<char>>, to: NamingConvention) -> bool {
    match to {
        NamingConvention::PascalCase => forall|k: int|
            0 <= k < tokens.len() - 1 ==> !letters_run_together(
                #[trigger] tokens[k],
                tokens[k + 1],
            ),
        NamingConvention::CamelCase => forall|k: int|
            1 <= k < tokens.len() - 1 ==> !letters_run_together(
                #[trigger] tokens[k],
                tokens[k + 1],
            ),
        _ => true,
    }
}

/// In the rendering of `tokens` in `to`, no digits stand right before other
/// digits.  With a separator none can; in `PascalCase` and `camelCase` no
/// digit run is followed by another.
pub open spec fn keeps_digits_apart(tokens: Seq<Seq<char>>, to: NamingConvention) -> bool {
    match to {
        NamingConvention::PascalCase | NamingConvention::CamelCase => forall|k: int|
            0 <= k < tokens.len() - 1 ==> !digits_run_together(
                #[trigger] tokens[k],
                tokens[k + 1],
            ),
        _ => true,
    }
}

/// The rendering of `tokens` in `to` keeps every token apart from the next:
/// letters from letters and digits from digits.
pub open spec fn keeps_apart(tokens: Seq<Seq<char>>, to: NamingConvention) -> bool {
    keeps_letters_apart(tokens, to) && keeps_digits_apart(tokens, to)
}

/// Two renderings of `tokens` hold the same tokens up to case.  A rendering
/// agrees with itself.  `PascalCase` and `camelCase` differ in their first
/// word alone, and agree unless a single letter stands first and a word
/// second.  Any other two agree where both keep the tokens apart.
pub open spec fn agree_on(
    tokens: Seq<Seq<char>>,
    first: NamingConvention,
    second: NamingConvention,
) -> bool {
    if first == second {
        true
    } else if separator_of(first).len() == 0 && separator_of(second).len() == 0 {
        tokens.len() >= 2 ==> !letters_run_together(tokens[0], tokens[1])
    } else {
        keeps_apart(tokens, first) && keeps_apart(tokens, second)
    }
}

/// The rendering of `tokens` in `to` is its words joined by its separator.
pub proof fn lemma_rendered_is_joined(tokens: Seq<Seq<char>>, to: NamingConvention)
    ensures
        rendered(tokens, to) == join(words_in(tokens, to), separator_of(to)),
{
}

/// Scanning a rendering that keeps the tokens apart gives the words of the
/// rendering back: as many as there were tokens, each the token it came from
/// up to case.
pub proof fn lemma_rendering_keeps_tokens(
    tokens: Seq<Seq<char>>,
    to: NamingConvention,
    digits: bool,
)
    requires
        all_tokens(tokens, digits),
        keeps_apart(tokens, to),
    ensures
        spec_tokenize(rendered(tokens, to), digits) == words_in(tokens, to),
        to != NamingConvention::Unknown ==> lower_words(
            spec_tokenize(rendered(tokens, to), digits),
        ) == lower_words(tokens),
{
    let words = words_in(tokens, to);
    let sep = separator_of(to);
    lemma_words_are_tokens(tokens, to, digits);
    if sep.len() == 0 {
        assert forall|k: int| 0 <= k < words.len() - 1 implies !extends(
            #[trigger] words[k],
            words[k + 1][0],
        ) by {
            assert(is_token(tokens[k], digits));
            assert(is_token(tokens[k + 1], digits));
            lemma_token_is_ascii(tokens[k], digits);
            lemma_token_is_ascii(tokens[k + 1], digits);
            lemma_lowercase_token(tokens[k], digits);
            lemma_pascal_word(tokens[k], digits);
            lemma_pascal_word(tokens[k + 1], digits);
            if is_digit_run(tokens[k]) {
                assert(in_class(tokens[k][0], CharClass::Digit));
            }
            if is_digit_run(tokens[k + 1]) {
                assert(in_class(tokens[k + 1][0], CharClass::Digit));
            }
            if is_letter(tokens[k][0]) && words[k].len() >= 2 {
                if is_capitalized(words[k]) {
                    assert(in_class(words[k].skip(1)[0], CharClass::Lower));
                } else {
                    assert(in_class(words[k][1], CharClass::Lower));
                }
            }
            if is_lower_run(words[k]) {
                assert(in_class(words[k][0], CharClass::Lower));
            }
        }
    }
    lemma_scan_joined(words, sep, digits);
}

/// Two neighbouring tokens, rendered as `PascalCase` has them, put two
/// capitals side by side exactly where the first is a single letter and the
/// second a word.
pub proof fn lemma_words_run_together(tokens: Seq<Seq<char>>, k: int, digits: bool)
    requires
        all_tokens(tokens, digits),
        0 <= k < tokens.len() - 1,
    ensures
        letters_run_together(pascal_word(tokens[k]), pascal_word(tokens[k + 1]))
            == letters_run_together(tokens[k], tokens[k + 1]),
{
    assert(is_token(tokens[k], digits));
    assert(is_token(tokens[k + 1], digits));
    lemma_pascal_word(tokens[k], digits);
    lemma_pascal_word(tokens[k + 1], digits);
    lemma_token_is_ascii(tokens[k], digits);
    lemma_token_is_ascii(tokens[k + 1], digits);
    if is_digit_run(tokens[k]) {
        assert(in_class(tokens[k][0], CharClass::Digit));
    }
    if is_digit_run(tokens[k + 1]) {
        assert(in_class(tokens[k + 1][0], CharClass::Digit));
    }
}

/// Where `PascalCase` renders a text that starts with a digit as itself, it
/// renders the text with more digits in front as itself too.
pub proof fn lemma_fixed_behind_digits(w: Seq<char>, tail: Seq<char>)
    requires
        is_digit_run(w),
        tail.len() > 0,
        is_digit(tail[0]),
        pascal_text(spec_tokenize(tail, true)) == tail,
    ensures
        pascal_text(spec_tokenize(w + tail, true)) == w + tail,
        camel_text(spec_tokenize(w + tail, true)) == w + tail,
{
    lemma_scan_digits(w, tail);
    let found = spec_tokenize(tail, true);
    let first = found[0];
    let others = found.skip(1);
    assert(found =~= seq![first] + others);
    lemma_pascal_text_cons(first, others);
    lemma_pascal_text_cons(w + first, others);
    lemma_camel_text_cons(w + first, others);
    lemma_pascal_form(first, true);
    assert(is_digit_run(w + first)) by {
        assert forall|i: int| 0 <= i < (w + first).len() implies in_class(
            #[trigger] (w + first)[i],
            CharClass::Digit,
        ) by {
            if i < w.len() {
                assert(in_class(w[i], CharClass::Digit));
            } else {
                assert(in_class(first[i - w.len()], CharClass::Digit));
            }
        }
    }
    lemma_pascal_form(w + first, true);
    lemma_lowercase_token(w + first, true);
    assert(in_class((w + first)[0], CharClass::Digit));
    assert((w + first) + pascal_text(others) =~= w + (first + pascal_text(others)));
}

/// Words as `PascalCase` has them, put one after the other with no single
/// capital before a capitalised word, make a text that `PascalCase` renders
/// as itself.
pub proof fn lemma_pascal_fixed(words: Seq<Seq<char>>, digits: bool)
    requires
        forall|k: int| 0 <= k < words.len() ==> is_pascal_form(#[trigger] words[k], digits),
        forall|k: int|
            0 <= k < words.len() - 1 ==> !letters_run_together(#[trigger] words[k], words[k + 1]),
    ensures
        pascal_text(spec_tokenize(join(words, Seq::empty()), digits)) == join(words, Seq::empty()),
    decreases words.len(),
{
    let nothing = Seq::<char>::empty();
    let text = join(words, nothing);
    if words.len() == 0 {
        assert(pascal_words(Seq::<Seq<char>>::empty()) =~= Seq::<Seq<char>>::empty());
    } else {
        let w = words[0];
        let others = words.skip(1);
        let tail = join(others, nothing);
        assert(is_pascal_form(w, digits));
        lemma_pascal_form(w, digits);
        assert forall|k: int| 0 <= k < others.len() implies is_pascal_form(
            #[trigger] others[k],
            digits,
        ) by {
            assert(others[k] == words[k + 1]);
        }
        assert forall|k: int| 0 <= k < others.len() - 1 implies !letters_run_together(
            #[trigger] others[k],
            others[k + 1],
        ) by {
            assert(others[k] == words[k + 1]);
            assert(others[k + 1] == words[k + 2]);
        }
        lemma_pascal_fixed(others, digits);
        assert(text =~= w + tail);
        if others.len() > 0 {
            assert(others[0] == words[1]);
            assert(is_pascal_form(others[0], digits));
            lemma_join_first(others, nothing);
            if is_digit_run(others[0]) {
                assert(in_class(others[0][0], CharClass::Digit));
            }
            if is_digit_run(w) {
                assert(in_class(w[0], CharClass::Digit));
            }
        }
        if is_digit_run(w) && digits && tail.len() > 0 && is_digit(tail[0]) {
            lemma_fixed_behind_digits(w, tail);
        } else {
            if tail.len() > 0 {
                assert(!letters_run_together(words[0], words[1]));
                if is_capitalized(w) && w.len() >= 2 {
                    assert(in_class(w.skip(1)[0], CharClass::Lower));
                }
            }
            lemma_scan_word(w, tail, digits);
            lemma_pascal_text_cons(w, spec_tokenize(tail, digits));
        }
    }
}

/// A first word in lower case or of digits, followed by words as `PascalCase`
/// has them with no single capital before a capitalised word, make a text
/// that `camelCase` renders as itself.
pub proof fn lemma_camel_fixed(first: Seq<char>, others: Seq<Seq<char>>, digits: bool)
    requires
        is_lower_run(first) || (digits && is_digit_run(first)),
        forall|k: int| 0 <= k < others.len() ==> is_pascal_form(#[trigger] others[k], digits),
        forall|k: int|
            0 <= k < others.len() - 1 ==> !letters_run_together(
                #[trigger] others[k],
                others[k + 1],
            ),
    ensures
        camel_text(spec_tokenize(first + join(others, Seq::empty()), digits)) == first + join(
            others,
            Seq::empty(),
        ),
{
    let nothing = Seq::<char>::empty();
    let tail = join(others, nothing);
    lemma_pascal_fixed(others, digits);
    lemma_lowercase_token(first, digits);
    assert(lowercase(first) == first) by {
        if is_lower_run(first) {
            assert forall|i: int| 0 <= i < first.len() implies lowercase(first)[i] == first[i] by {
                assert(in_class(first[i], CharClass::Lower));
            }
            assert(lowercase(first) =~= first);
        } else {
            assert(in_class(first[0], CharClass::Digit));
        }
    }
    if others.len() > 0 {
        assert(is_pascal_form(others[0], digits));
        lemma_join_first(others, nothing);
        if is_digit_run(others[0]) {
            assert(in_class(others[0][0], CharClass::Digit));
        }
    }
    if is_lower_run(first) {
        assert(in_class(first[0], CharClass::Lower));
    } else {
        assert(in_class(first[0], CharClass::Digit));
    }
    if !is_lower_run(first) && tail.len() > 0 && is_digit(tail[0]) {
        lemma_fixed_behind_digits(first, tail);
    } else {
        lemma_scan_word(first, tail, digits);
        lemma_camel_text_cons(first, spec_tokenize(tail, digits));
    }
}

/// Rendering is idempotent: text that was rendered in a convention is
/// rendered in that convention as itself, unless two capitals of neighbouring
/// words started an acronym in it.
pub proof fn lemma_rendering_is_fixed(tokens: Seq<Seq<char>>, to: NamingConvention, digits: bool)
    requires
        all_tokens(tokens, digits),
        keeps_letters_apart(tokens, to),
    ensures
        rendered(spec_tokenize(rendered(tokens, to), digits), to) == rendered(tokens, to),
{
    let nothing = Seq::<char>::empty();
    lemma_words_are_tokens(tokens, to, digits);
    match to {
        NamingConvention::PascalCase => {
            let words = pascal_words(tokens);
            assert forall|k: int| 0 <= k < words.len() implies is_pascal_form(
                #[trigger] words[k],
                digits,
            ) by {
                assert(is_token(tokens[k], digits));
                lemma_pascal_word(tokens[k], digits);
            }
            assert forall|k: int| 0 <= k < words.len() - 1 implies !letters_run_together(
                #[trigger] words[k],
                words[k + 1],
            ) by {
                lemma_words_run_together(tokens, k, digits);
                assert(!letters_run_together(tokens[k], tokens[k + 1]));
            }
            lemma_pascal_fixed(words, digits);
        },
        NamingConvention::CamelCase => {
            let words = camel_words(tokens);
            if words.len() == 0 {
                assert(camel_words(Seq::<Seq<char>>::empty()) =~= Seq::<Seq<char>>::empty());
            } else {
                let first = words[0];
                let others = words.skip(1);
                assert(is_token(tokens[0], digits));
                lemma_lowercase_token(tokens[0], digits);
                assert forall|k: int| 0 <= k < others.len() implies is_pascal_form(
                    #[trigger] others[k],
                    digits,
                ) by {
                    assert(is_token(tokens[k + 1], digits));
                    lemma_pascal_word(tokens[k + 1], digits);
                }
                assert forall|k: int| 0 <= k < others.len() - 1 implies !letters_run_together(
                    #[trigger] others[k],
                    others[k + 1],
                ) by {
                    lemma_words_run_together(tokens, k + 1, digits);
                    assert(!letters_run_together(tokens[k + 1], tokens[k + 2]));
                }
                lemma_camel_fixed(first, others, digits);
                if others.len() == 0 {
                    assert(first + join(others, nothing) =~= first);
                } else {
                    assert(first + join(others, nothing) =~= first + nothing + join(
                        others,
                        nothing,
                    ));
                }
            }
        },
        _ => {
            lemma_rendering_keeps_tokens(tokens, to, digits);
        },
    }
}

/// A rendering matches the grammar of its convention: one or more tokens,
/// rendered in a convention, make a text that follows the convention.
pub proof fn lemma_rendering_conforms(tokens: Seq<Seq<char>>, to: NamingConvention, digits: bool)
    requires
        all_tokens(tokens, digits),
        tokens.len() > 0,
        to != NamingConvention::Unknown,
    ensures
        conforms(rendered(tokens, to), to, digits),
{
    let words = words_in(tokens, to);
    let sep = separator_of(to);
    let text = rendered(tokens, to);
    let capitals = to == NamingConvention::PascalCase || to == NamingConvention::CamelCase;
    let upper = to == NamingConvention::UpperSnakeCase;
    let p = |c: char|
        if capitals {
            is_upper(c) || is_tail(c, digits)
        } else if upper {
            is_head(c, digits) || c == '_'
        } else {
            is_tail(c, digits) || c == sep[0]
        };
    assert forall|k: int, i: int| 0 <= k < words.len() && 0 <= i < words[k].len() implies p(
        #[trigger] words[k][i],
    ) && (sep.len() == 1 ==> words[k][i] != sep[0]) by {
        assert(is_token(tokens[k], digits));
        lemma_lowercase_token(tokens[k], digits);
        lemma_uppercase_token(tokens[k], digits);
        lemma_pascal_word(tokens[k], digits);
        let w = words[k];
        if is_token(w, digits) {
            lemma_token_is_ascii(w, digits);
        }
        if is_capitalized(w) && i > 0 {
            assert(in_class(w.skip(1)[i - 1], CharClass::Lower));
        }
        if is_lower_run(w) {
            assert(in_class(w[i], CharClass::Lower));
        }
        if is_digit_run(w) {
            assert(in_class(w[i], CharClass::Digit));
        }
        if all_in(w, CharClass::Upper) {
            assert(in_class(w[i], CharClass::Upper));
        }
    }
    assert forall|i: int| 0 <= i < sep.len() implies p(#[trigger] sep[i]) by {}
    lemma_join_all(words, sep, p);
    assert(is_token(tokens[0], digits));
    lemma_lowercase_token(tokens[0], digits);
    lemma_uppercase_token(tokens[0], digits);
    lemma_pascal_word(tokens[0], digits);
    lemma_join_first(words, sep);
    let first = words[0];
    if is_capitalized(first) || is_lower_run(first) {
        lemma_token_is_ascii(first, digits);
    }
    if is_lower_run(first) {
        assert(in_class(first[0], CharClass::Lower));
    }
    if is_digit_run(first) {
        assert(in_class(first[0], CharClass::Digit));
    }
    if all_in(first, CharClass::Upper) {
        assert(in_class(first[0], CharClass::Upper));
    }
    assert forall|i: int| 0 <= i < text.len() implies p(#[trigger] text[i]) by {}
    if !capitals {
        assert forall|k: int| 0 <= k < words.len() implies (#[trigger] words[k]).len() >= 1 by {
            assert(is_token(tokens[k], digits));
            lemma_lowercase_token(tokens[k], digits);
            lemma_uppercase_token(tokens[k], digits);
        }
        assert(sep =~= seq![sep[0]]);
        lemma_join_separated(words, sep[0]);
    }
}

/// `PascalCase` and `camelCase` render tokens that hold the same tokens up to
/// case, unless a single letter stands first and a word second.
pub proof fn lemma_pascal_and_camel_agree(tokens: Seq<Seq<char>>, digits: bool)
    requires
        all_tokens(tokens, digits),
        tokens.len() >= 2 ==> !letters_run_together(tokens[0], tokens[1]),
    ensures
        lower_words(spec_tokenize(pascal_text(tokens), digits)) == lower_words(
            spec_tokenize(camel_text(tokens), digits),
        ),
{
    let nothing = Seq::<char>::empty();
    if tokens.len() == 0 {
        assert(pascal_words(tokens) =~= camel_words(tokens));
    } else {
        let t = tokens[0];
        let others = tokens.skip(1);
        let tail = pascal_text(others);
        assert(tokens =~= seq![t] + others);
        lemma_pascal_text_cons(t, others);
        lemma_camel_text_cons(t, others);
        assert(is_token(t, digits));
        lemma_pascal_word(t, digits);
        lemma_lowercase_token(t, digits);
        lemma_token_is_ascii(t, digits);
        let upper = pascal_word(t);
        let lower = lowercase(t);
        if is_letter(t[0]) {
            if others.len() > 0 {
                assert(others[0] == tokens[1]);
                assert(is_token(others[0], digits));
                lemma_pascal_word(others[0], digits);
                lemma_token_is_ascii(others[0], digits);
                lemma_join_first(pascal_words(others), nothing);
                if is_digit_run(others[0]) {
                    assert(in_class(others[0][0], CharClass::Digit));
                }
                if upper.len() >= 2 {
                    assert(in_class(upper.skip(1)[0], CharClass::Lower));
                }
            }
            assert(in_class(lower[0], CharClass::Lower));
            lemma_scan_word(upper, tail, digits);
            lemma_scan_word(lower, tail, digits);
            lemma_lower_words_cons(upper, spec_tokenize(tail, digits));
            lemma_lower_words_cons(lower, spec_tokenize(tail, digits));
        }
    }
}

/// The tokens found in two renderings of one token sequence are the same up
/// to case, where the two renderings agree on the sequence.
pub proof fn lemma_renderings_agree(
    tokens: Seq<Seq<char>>,
    first: NamingConvention,
    second: NamingConvention,
    digits: bool,
)
    requires
        all_tokens(tokens, digits),
        first != NamingConvention::Unknown,
        second != NamingConvention::Unknown,
        agree_on(tokens, first, second),
    ensures
        lower_words(spec_tokenize(rendered(tokens, first), digits)) == lower_words(
            spec_tokenize(rendered(tokens, second), digits),
        ),
{
    if first == second {
    } else if separator_of(first).len() == 0 && separator_of(second).len() == 0 {
        lemma_pascal_and_camel_agree(tokens, digits);
    } else {
        lemma_rendering_keeps_tokens(tokens, first, digits);
        lemma_rendering_keeps_tokens(tokens, second, digits);
    }
}

/// The tokens of a conversion of a text are the tokens of the text up to
/// case, where the rendering keeps the tokens of the text apart.
pub proof fn lemma_conversion_keeps_tokens(text: Seq<char>, to: NamingConvention, digits: bool)
    requires
        to != NamingConvention::Unknown,
        keeps_apart(spec_tokenize(text, digits), to),
    ensures
        lower_words(spec_tokenize(rendered(spec_tokenize(text, digits), to), digits))
            == lower_words(spec_tokenize(text, digits)),
{
    lemma_tokens_well_formed(text, 0, digits);
    lemma_rendering_keeps_tokens(spec_tokenize(text, digits), to, digits);
}

/// Converting twice is converting once: the conversion of a text to a
/// convention converts to that convention as itself, unless two capitals of
/// neighbouring words started an acronym in it.
pub proof fn lemma_conversion_is_idempotent(text: Seq<char>, to: NamingConvention, digits: bool)
    requires
        keeps_letters_apart(spec_tokenize(text, digits), to),
    ensures
        rendered(spec_tokenize(rendered(spec_tokenize(text, digits), to), digits), to) == rendered(
            spec_tokenize(text, digits),
            to,
        ),
{
    lemma_tokens_well_formed(text, 0, digits);
    lemma_rendering_is_fixed(spec_tokenize(text, digits), to, digits);
}

/// The tokens of two conversions of one text are the same up to case, where
/// the two renderings agree on the tokens of the text.
pub proof fn lemma_conversions_agree(
    text: Seq<char>,
    first: NamingConvention,
    second: NamingConvention,
    digits: bool,
)
    requires
        first != NamingConvention::Unknown,
        second != NamingConvention::Unknown,
        agree_on(spec_tokenize(text, digits), first, second),
    ensures
        lower_words(spec_tokenize(rendered(spec_tokenize(text, digits), first), digits))
            == lower_words(spec_tokenize(rendered(spec_tokenize(text, digits), second), digits)),
{
    lemma_tokens_well_formed(text, 0, digits);
    lemma_renderings_agree(spec_tokenize(text, digits), first, second, digits);
}

} // verus!
