//! What the case changes do to tokens, and how words that are put together
//! are scanned.

use vstd::prelude::*;
use vstd::utf8::is_ascii_chars;
use crate::casing::{ascii_lowercase, ascii_uppercase, capitalize, lowercase, upper_char, uppercase};
use crate::classes::{all_in, in_class, is_digit, is_letter, CharClass};
use crate::classifier::NamingConvention;
use crate::conversion::{
    camel_text, camel_words, lower_words, pascal_text, pascal_word, pascal_words, words_in,
};
use crate::scanning::{extends, is_separator, lemma_scan_separator, lemma_scan_word};
use crate::text::{join, lemma_join_first};
use crate::tokenizer::{
    all_tokens, is_acronym, is_capitalized, is_digit_run, is_lower_run, is_token, spec_tokenize,
    tokens_from,
};

verus! {

/// A text whose characters all pass a test is left whole by the filter for
/// that test.
pub proof fn lemma_filter_keeps(s: Seq<char>, pred: spec_fn(char) -> bool)
    requires
        forall|i: int| 0 <= i < s.len() ==> pred(#[trigger] s[i]),
    ensures
        s.filter(pred) == s,
    decreases s.len(),
{
    reveal(Seq::filter);
    if s.len() > 0 {
        let front = s.drop_last();
        assert forall|i: int| 0 <= i < front.len() implies pred(#[trigger] front[i]) by {
            assert(front[i] == s[i]);
        }
        lemma_filter_keeps(front, pred);
        assert(pred(s[s.len() - 1]));
        assert(front.push(s.last()) =~= s);
    }
}

/// A token holds ASCII letters or ASCII digits only.
pub proof fn lemma_token_is_ascii(t: Seq<char>, digits: bool)
    requires
        is_token(t, digits),
    ensures
        is_ascii_chars(t),
        is_letter(t[0]) || (digits && is_digit_run(t)),
        is_letter(t[0]) ==> forall|i: int| 0 <= i < t.len() ==> is_letter(#[trigger] t[i]),
{
    assert forall|i: int| 0 <= i < t.len() implies is_letter(#[trigger] t[i]) || is_digit(t[i]) by {
        if is_acronym(t) {
            assert(in_class(t[i], CharClass::Upper));
        } else if is_capitalized(t) {
            if i > 0 {
                assert(in_class(t.skip(1)[i - 1], CharClass::Lower));
            }
        } else if is_lower_run(t) {
            assert(in_class(t[i], CharClass::Lower));
        } else {
            assert(in_class(t[i], CharClass::Digit));
        }
    }
    if is_letter(t[0]) {
        assert forall|i: int| 0 <= i < t.len() implies is_letter(#[trigger] t[i]) by {
            if is_acronym(t) {
                assert(in_class(t[i], CharClass::Upper));
            } else if is_capitalized(t) {
                if i > 0 {
                    assert(in_class(t.skip(1)[i - 1], CharClass::Lower));
                }
            } else if is_lower_run(t) {
                assert(in_class(t[i], CharClass::Lower));
            } else {
                assert(in_class(t[0], CharClass::Digit));
            }
        }
    } else {
        if is_acronym(t) {
            assert(in_class(t[0], CharClass::Upper));
        }
        if is_lower_run(t) {
            assert(in_class(t[0], CharClass::Lower));
        }
    }
}

/// A token in lower case is a lower-case run or a digit run, and a token
/// again; putting it in lower case once more changes nothing.
pub proof fn lemma_lowercase_token(t: Seq<char>, digits: bool)
    requires
        is_token(t, digits),
    ensures
        lowercase(t) == ascii_lowercase(t),
        lowercase(t).len() == t.len(),
        is_letter(t[0]) ==> is_lower_run(lowercase(t)),
        !is_letter(t[0]) ==> lowercase(t) == t && digits && is_digit_run(t),
        is_token(lowercase(t), digits),
        lowercase(lowercase(t)) == lowercase(t),
{
    lemma_token_is_ascii(t, digits);
    let l = ascii_lowercase(t);
    if is_letter(t[0]) {
        assert forall|i: int| 0 <= i < l.len() implies in_class(#[trigger] l[i], CharClass::Lower) by {
            assert(is_letter(t[i]));
        }
        assert(is_lower_run(l));
    } else {
        assert forall|i: int| 0 <= i < t.len() implies l[i] == t[i] by {
            assert(in_class(t[i], CharClass::Digit));
        }
        assert(l =~= t);
    }
    assert(is_ascii_chars(l));
    assert(ascii_lowercase(l) =~= l);
}

/// A token in upper case is a run of upper-case letters or a digit run, and a
/// token again; in lower case it is what the token itself is in lower case.
pub proof fn lemma_uppercase_token(t: Seq<char>, digits: bool)
    requires
        is_token(t, digits),
    ensures
        uppercase(t) == ascii_uppercase(t),
        uppercase(t).len() == t.len(),
        is_letter(t[0]) ==> all_in(uppercase(t), CharClass::Upper),
        !is_letter(t[0]) ==> uppercase(t) == t && digits && is_digit_run(t),
        is_token(uppercase(t), digits),
        uppercase(uppercase(t)) == uppercase(t),
        lowercase(uppercase(t)) == lowercase(t),
{
    lemma_token_is_ascii(t, digits);
    let u = ascii_uppercase(t);
    if is_letter(t[0]) {
        assert forall|i: int| 0 <= i < u.len() implies in_class(#[trigger] u[i], CharClass::Upper) by {
            assert(is_letter(t[i]));
        }
        if u.len() == 1 {
            assert(u.skip(1) =~= Seq::<char>::empty());
            assert(is_capitalized(u));
        } else {
            assert(is_acronym(u));
        }
    } else {
        assert forall|i: int| 0 <= i < t.len() implies u[i] == t[i] by {
            assert(in_class(t[i], CharClass::Digit));
        }
        assert(u =~= t);
    }
    assert(is_ascii_chars(u));
    assert(ascii_uppercase(u) =~= u);
    assert(ascii_lowercase(u) =~= ascii_lowercase(t));
}

/// A token as it stands in `PascalCase` is a capitalised word or a digit run,
/// as long as the token, and a token again; in lower case it is what the token
/// itself is in lower case.
pub proof fn lemma_pascal_word(t: Seq<char>, digits: bool)
    requires
        is_token(t, digits),
    ensures
        pascal_word(t).len() == t.len(),
        is_letter(t[0]) ==> is_capitalized(pascal_word(t)),
        !is_letter(t[0]) ==> pascal_word(t) == t && digits && is_digit_run(t),
        is_token(pascal_word(t), digits),
        pascal_word(pascal_word(t)) == pascal_word(t),
        lowercase(pascal_word(t)) == lowercase(t),
{
    lemma_lowercase_token(t, digits);
    let l = lowercase(t);
    let head = l.take(1);
    assert(is_ascii_chars(head));
    assert(uppercase(head) == ascii_uppercase(head));
    let p = pascal_word(t);
    assert(p == ascii_uppercase(head) + l.skip(1));
    assert(p.len() == t.len());
    assert(p[0] == upper_char(l[0]));
    assert forall|i: int| 1 <= i < p.len() implies p[i] == l[i] by {}
    if is_letter(t[0]) {
        assert(in_class(l[0], CharClass::Lower));
        assert forall|i: int| 0 <= i < p.skip(1).len() implies in_class(
            #[trigger] p.skip(1)[i],
            CharClass::Lower,
        ) by {
            assert(in_class(l[i + 1], CharClass::Lower));
        }
        assert(is_capitalized(p));
    } else {
        assert(in_class(t[0], CharClass::Digit));
        assert(p =~= t);
    }
    lemma_token_is_ascii(p, digits);
    assert(ascii_lowercase(p) =~= l);
    assert(lowercase(p) == l);
    assert(pascal_word(p) == capitalize(l));
}

/// `w` is a word as `PascalCase` has it: a capitalised word or, where digits
/// are enabled, a digit run.
pub open spec fn is_pascal_form(w: Seq<char>, digits: bool) -> bool {
    is_capitalized(w) || (digits && is_digit_run(w))
}

/// A word as `PascalCase` has it is rendered in `PascalCase` as itself.
pub proof fn lemma_pascal_form(w: Seq<char>, digits: bool)
    requires
        is_pascal_form(w, digits),
    ensures
        is_token(w, digits),
        pascal_word(w) == w,
        lowercase(w).len() == w.len(),
{
    lemma_pascal_word(w, digits);
    lemma_lowercase_token(w, digits);
    let l = lowercase(w);
    let p = pascal_word(w);
    assert(uppercase(l.take(1)) == ascii_uppercase(l.take(1))) by {
        assert(is_ascii_chars(l.take(1)));
    }
    assert forall|i: int| 0 <= i < w.len() implies p[i] == w[i] by {
        if is_capitalized(w) {
            if i > 0 {
                assert(in_class(w.skip(1)[i - 1], CharClass::Lower));
            }
        }
    }
    assert(p =~= w);
}

/// The words of a rendering are tokens, and in lower case they are what the
/// tokens themselves are in lower case.
pub proof fn lemma_words_are_tokens(tokens: Seq<Seq<char>>, to: NamingConvention, digits: bool)
    requires
        all_tokens(tokens, digits),
    ensures
        all_tokens(words_in(tokens, to), digits),
        to != NamingConvention::Unknown ==> lower_words(words_in(tokens, to)) == lower_words(tokens),
        to != NamingConvention::Unknown ==> words_in(words_in(tokens, to), to) == words_in(tokens, to),
{
    let words = words_in(tokens, to);
    assert forall|k: int| 0 <= k < words.len() implies is_token(#[trigger] words[k], digits)
        && lowercase(words[k]) == lowercase(tokens[k]) && words_in(words, to)[k] == words[k] by {
        assert(is_token(tokens[k], digits));
        lemma_lowercase_token(tokens[k], digits);
        lemma_uppercase_token(tokens[k], digits);
        lemma_pascal_word(tokens[k], digits);
    }
    if to != NamingConvention::Unknown {
        assert(lower_words(words) =~= lower_words(tokens));
        assert(words_in(words, to) =~= words);
    }
}

/// `PascalCase` renders a first token and then the others.
pub proof fn lemma_pascal_text_cons(first: Seq<char>, others: Seq<Seq<char>>)
    ensures
        pascal_text(seq![first] + others) == pascal_word(first) + pascal_text(others),
{
    let all = seq![first] + others;
    assert(pascal_words(all).skip(1) =~= pascal_words(others));
    if others.len() == 0 {
        assert(pascal_word(first) + Seq::<char>::empty() =~= pascal_word(first));
    } else {
        assert(pascal_word(first) + Seq::<char>::empty() + pascal_text(others) =~= pascal_word(
            first,
        ) + pascal_text(others));
    }
}

/// `camelCase` renders a first token in lower case and then the others as
/// `PascalCase` does.
pub proof fn lemma_camel_text_cons(first: Seq<char>, others: Seq<Seq<char>>)
    ensures
        camel_text(seq![first] + others) == lowercase(first) + pascal_text(others),
{
    let all = seq![first] + others;
    assert(camel_words(all).skip(1) =~= pascal_words(others));
    if others.len() == 0 {
        assert(lowercase(first) + Seq::<char>::empty() =~= lowercase(first));
    } else {
        assert(lowercase(first) + Seq::<char>::empty() + pascal_text(others) =~= lowercase(first)
            + pascal_text(others));
    }
}

/// The tokens in lower case of a first token and of others.
pub proof fn lemma_lower_words_cons(first: Seq<char>, others: Seq<Seq<char>>)
    ensures
        lower_words(seq![first] + others) == seq![lowercase(first)] + lower_words(others),
{
    assert(lower_words(seq![first] + others) =~= seq![lowercase(first)] + lower_words(others));
}

/// Tokens joined by a separator, or by nothing where none runs into the
/// next, are scanned as themselves.
pub proof fn lemma_scan_joined(words: Seq<Seq<char>>, sep: Seq<char>, digits: bool)
    requires
        all_tokens(words, digits),
        sep.len() <= 1,
        sep.len() == 1 ==> is_separator(sep[0], digits),
        sep.len() == 0 ==> forall|k: int|
            0 <= k < words.len() - 1 ==> !extends(#[trigger] words[k], words[k + 1][0]),
    ensures
        spec_tokenize(join(words, sep), digits) == words,
    decreases words.len(),
{
    let text = join(words, sep);
    if words.len() == 0 {
        assert(words =~= Seq::<Seq<char>>::empty());
    } else {
        let w = words[0];
        assert(is_token(w, digits));
        if words.len() == 1 {
            let nothing = Seq::<char>::empty();
            lemma_scan_word(w, nothing, digits);
            assert(w + nothing =~= w);
            assert(seq![w] + tokens_from(nothing, 0, digits) =~= words);
        } else {
            let others = words.skip(1);
            let tail = join(others, sep);
            assert(all_tokens(others, digits)) by {
                assert forall|k: int| 0 <= k < others.len() implies is_token(
                    #[trigger] others[k],
                    digits,
                ) by {
                    assert(others[k] == words[k + 1]);
                }
            }
            if sep.len() == 0 {
                assert forall|k: int| 0 <= k < others.len() - 1 implies !extends(
                    #[trigger] others[k],
                    others[k + 1][0],
                ) by {
                    assert(others[k] == words[k + 1]);
                    assert(others[k + 1] == words[k + 2]);
                }
            }
            lemma_scan_joined(others, sep, digits);
            assert(is_token(others[0], digits));
            lemma_join_first(others, sep);
            lemma_token_is_ascii(w, digits);
            if sep.len() == 1 {
                let c = sep[0];
                assert(sep =~= seq![c]);
                lemma_scan_separator(c, tail, digits);
                assert((sep + tail)[0] == c);
                lemma_scan_word(w, sep + tail, digits);
                assert(text =~= w + (sep + tail));
            } else {
                assert(others[0] == words[1]);
                lemma_scan_word(w, tail, digits);
                assert(text =~= w + tail);
            }
            assert(seq![w] + others =~= words);
        }
    }
}

} // verus!
