//! Rendering a token sequence in a naming convention.
//!
//! A rendering changes the case of each token and joins the results:
//!
//! | convention         | each token                         | between |
//! |--------------------|------------------------------------|---------|
//! | `PascalCase`       | lower case, first character upper  | nothing |
//! | `camelCase`        | first token lower case, the others as in `PascalCase` | nothing |
//! | `snake_case`       | lower case                         | `_`     |
//! | `UPPER_SNAKE_CASE` | upper case                         | `_`     |
//! | `kebab-case`       | lower case                         | `-`     |
//!
//! The `to_..` functions scan their input with digits enabled and render the
//! tokens; the `render_..` functions render any token sequence, also one that
//! was scanned without digits.

use vstd::prelude::*;
use vstd::string::StringExecFns;
use crate::casing::{capitalize, lowercase, to_capitalized, to_lower, to_upper, uppercase};
use crate::classifier::NamingConvention;
use crate::text::{join, lemma_join_push};
use crate::tokenizer::{spec_tokenize, tokenize};

verus! {

/// A token as it stands in `PascalCase`: in lower case, then its first
/// character in upper case.
pub open spec fn pascal_word(token: Seq<char>) -> Seq<char> {
    capitalize(lowercase(token))
}

/// The words of `tokens` in `PascalCase`.
pub open spec fn pascal_words(tokens: Seq<Seq<char>>) -> Seq<Seq<char>> {
    Seq::new(tokens.len(), |k: int| pascal_word(tokens[k]))
}

/// The words of `tokens` in `camelCase`: the first in lower case, the others
/// as in `PascalCase`.
pub open spec fn camel_words(tokens: Seq<Seq<char>>) -> Seq<Seq<char>> {
    Seq::new(
        tokens.len(),
        |k: int|
            if k == 0 {
                lowercase(tokens[k])
            } else {
                pascal_word(tokens[k])
            },
    )
}

/// The words of `tokens` in lower case.
pub open spec fn lower_words(tokens: Seq<Seq<char>>) -> Seq<Seq<char>> {
    Seq::new(tokens.len(), |k: int| lowercase(tokens[k]))
}

/// The words of `tokens` in upper case.
pub open spec fn upper_words(tokens: Seq<Seq<char>>) -> Seq<Seq<char>> {
    Seq::new(tokens.len(), |k: int| uppercase(tokens[k]))
}

/// The words of `tokens` as they stand in the convention `to`; none for
/// `Unknown`.
pub open spec fn words_in(tokens: Seq<Seq<char>>, to: NamingConvention) -> Seq<Seq<char>> {
    match to {
        NamingConvention::PascalCase => pascal_words(tokens),
        NamingConvention::CamelCase => camel_words(tokens),
        NamingConvention::SnakeCase => lower_words(tokens),
        NamingConvention::KebabCase => lower_words(tokens),
        NamingConvention::UpperSnakeCase => upper_words(tokens),
        NamingConvention::Unknown => Seq::empty(),
    }
}

/// What stands between the words of a text in the convention `to`.
pub open spec fn separator_of(to: NamingConvention) -> Seq<char> {
    match to {
        NamingConvention::SnakeCase => seq!['_'],
        NamingConvention::KebabCase => seq!['-'],
        NamingConvention::UpperSnakeCase => seq!['_'],
        _ => Seq::empty(),
    }
}

/// `tokens` in `PascalCase`.
pub open spec fn pascal_text(tokens: Seq<Seq<char>>) -> Seq<char> {
    join(pascal_words(tokens), Seq::empty())
}

/// `tokens` in `camelCase`.
pub open spec fn camel_text(tokens: Seq<Seq<char>>) -> Seq<char> {
    join(camel_words(tokens), Seq::empty())
}

/// `tokens` in `snake_case`.
pub open spec fn snake_text(tokens: Seq<Seq<char>>) -> Seq<char> {
    join(lower_words(tokens), seq!['_'])
}

/// `tokens` in `UPPER_SNAKE_CASE`.
pub open spec fn upper_snake_text(tokens: Seq<Seq<char>>) -> Seq<char> {
    join(upper_words(tokens), seq!['_'])
}

/// `tokens` in `kebab-case`.
pub open spec fn kebab_text(tokens: Seq<Seq<char>>) -> Seq<char> {
    join(lower_words(tokens), seq!['-'])
}

/// `tokens` in the convention `to`; the empty text for `Unknown`, which has
/// no rendering.
pub open spec fn rendered(tokens: Seq<Seq<char>>, to: NamingConvention) -> Seq<char> {
    match to {
        NamingConvention::PascalCase => pascal_text(tokens),
        NamingConvention::CamelCase => camel_text(tokens),
        NamingConvention::SnakeCase => snake_text(tokens),
        NamingConvention::KebabCase => kebab_text(tokens),
        NamingConvention::UpperSnakeCase => upper_snake_text(tokens),
        NamingConvention::Unknown => Seq::empty(),
    }
}

/// The words of `words`, one after the other, with `sep` between neighbours.
pub fn join_words(words: &Vec<String>, sep: &str) -> (out: String)
    ensures
        out@ == join(words.deep_view(), sep@),
{
    let mut out = String::new();
    let mut k: usize = 0;
    while k < words.len()
        invariant
            k <= words.len(),
            out@ == join(words.deep_view().take(k as int), sep@),
        decreases words.len() - k,
    {
        proof {
            let done = words.deep_view().take(k as int);
            lemma_join_push(done, sep@, words[k as int]@);
            assert(words.deep_view().take(k + 1) =~= done.push(words[k as int]@));
        }
        if k > 0 {
            out.append(sep);
        }
        out.append(words[k].as_str());
        k += 1;
    }
    proof {
        assert(words.deep_view().take(words.len() as int) =~= words.deep_view());
    }
    out
}

/// Renders `tokens` in `PascalCase`: each token in lower case with its first
/// character in upper case, one after the other.
pub fn render_pascal_case(tokens: &Vec<String>) -> (out: String)
    ensures
        out@ == pascal_text(tokens.deep_view()),
{
    let mut words: Vec<String> = Vec::new();
    let mut k: usize = 0;
    while k < tokens.len()
        invariant
            k <= tokens.len(),
            words.deep_view() == pascal_words(tokens.deep_view()).take(k as int),
        decreases tokens.len() - k,
    {
        let ghost before = words.deep_view();
        let word = to_capitalized(to_lower(tokens[k].as_str()).as_str());
        words.push(word);
        proof {
            assert(tokens.deep_view()[k as int] == tokens[k as int]@);
            assert(words.deep_view() =~= before.push(word@));
            assert(words.deep_view() =~= pascal_words(tokens.deep_view()).take(k + 1));
        }
        k += 1;
    }
    proof {
        reveal_strlit("");
        assert(words.deep_view() =~= pascal_words(tokens.deep_view()));
        assert(""@ =~= Seq::<char>::empty());
    }
    join_words(&words, "")
}

/// Renders `tokens` in `camelCase`: the first token in lower case, each of
/// the others in lower case with its first character in upper case, one after
/// the other.
pub fn render_camel_case(tokens: &Vec<String>) -> (out: String)
    ensures
        out@ == camel_text(tokens.deep_view()),
{
    let mut words: Vec<String> = Vec::new();
    let mut k: usize = 0;
    while k < tokens.len()
        invariant
            k <= tokens.len(),
            words.deep_view() == camel_words(tokens.deep_view()).take(k as int),
        decreases tokens.len() - k,
    {
        let ghost before = words.deep_view();
        let lowered = to_lower(tokens[k].as_str());
        let word = if k == 0 {
            lowered
        } else {
            to_capitalized(lowered.as_str())
        };
        words.push(word);
        proof {
            assert(tokens.deep_view()[k as int] == tokens[k as int]@);
            assert(words.deep_view() =~= before.push(word@));
            assert(words.deep_view() =~= camel_words(tokens.deep_view()).take(k + 1));
        }
        k += 1;
    }
    proof {
        reveal_strlit("");
        assert(words.deep_view() =~= camel_words(tokens.deep_view()));
        assert(""@ =~= Seq::<char>::empty());
    }
    join_words(&words, "")
}

/// Each of `tokens` in lower case.
fn lowered_words(tokens: &Vec<String>) -> (words: Vec<String>)
    ensures
        words.deep_view() == lower_words(tokens.deep_view()),
{
    let mut words: Vec<String> = Vec::new();
    let mut k: usize = 0;
    while k < tokens.len()
        invariant
            k <= tokens.len(),
            words.deep_view() == lower_words(tokens.deep_view()).take(k as int),
        decreases tokens.len() - k,
    {
        let ghost before = words.deep_view();
        let word = to_lower(tokens[k].as_str());
        words.push(word);
        proof {
            assert(tokens.deep_view()[k as int] == tokens[k as int]@);
            assert(words.deep_view() =~= before.push(word@));
            assert(words.deep_view() =~= lower_words(tokens.deep_view()).take(k + 1));
        }
        k += 1;
    }
    proof {
        assert(words.deep_view() =~= lower_words(tokens.deep_view()));
    }
    words
}

/// Renders `tokens` in `snake_case`: each token in lower case, with `_`
/// between neighbours.
pub fn render_snake_case(tokens: &Vec<String>) -> (out: String)
    ensures
        out@ == snake_text(tokens.deep_view()),
{
    let words = lowered_words(tokens);
    proof {
        reveal_strlit("_");
        assert("_"@ =~= seq!['_']);
    }
    join_words(&words, "_")
}

/// Renders `tokens` in `UPPER_SNAKE_CASE`: each token in upper case, with `_`
/// between neighbours.
pub fn render_upper_snake_case(tokens: &Vec<String>) -> (out: String)
    ensures
        out@ == upper_snake_text(tokens.deep_view()),
{
    let mut words: Vec<String> = Vec::new();
    let mut k: usize = 0;
    while k < tokens.len()
        invariant
            k <= tokens.len(),
            words.deep_view() == upper_words(tokens.deep_view()).take(k as int),
        decreases tokens.len() - k,
    {
        let ghost before = words.deep_view();
        let word = to_upper(tokens[k].as_str());
        words.push(word);
        proof {
            assert(tokens.deep_view()[k as int] == tokens[k as int]@);
            assert(words.deep_view() =~= before.push(word@));
            assert(words.deep_view() =~= upper_words(tokens.deep_view()).take(k + 1));
        }
        k += 1;
    }
    proof {
        reveal_strlit("_");
        assert(words.deep_view() =~= upper_words(tokens.deep_view()));
        assert("_"@ =~= seq!['_']);
    }
    join_words(&words, "_")
}

/// Renders `tokens` in `kebab-case`: each token in lower case, with `-`
/// between neighbours.
pub fn render_kebab_case(tokens: &Vec<String>) -> (out: String)
    ensures
        out@ == kebab_text(tokens.deep_view()),
{
    let words = lowered_words(tokens);
    proof {
        reveal_strlit("-");
        assert("-"@ =~= seq!['-']);
    }
    join_words(&words, "-")
}

/// Renders `tokens` in the convention `to`.  `Unknown` has no rendering and
/// gives the empty string.
pub fn render(tokens: &Vec<String>, to: NamingConvention) -> (out: String)
    ensures
        out@ == rendered(tokens.deep_view(), to),
        to == NamingConvention::Unknown ==> out@.len() == 0,
{
    match to {
        NamingConvention::PascalCase => render_pascal_case(tokens),
        NamingConvention::CamelCase => render_camel_case(tokens),
        NamingConvention::SnakeCase => render_snake_case(tokens),
        NamingConvention::KebabCase => render_kebab_case(tokens),
        NamingConvention::UpperSnakeCase => render_upper_snake_case(tokens),
        NamingConvention::Unknown => String::new(),
    }
}

/// Scans `s` and renders its tokens in `PascalCase`.
pub fn to_pascal_case(s: &str) -> (out: String)
    ensures
        out@ == pascal_text(spec_tokenize(s@, true)),
{
    render_pascal_case(&tokenize(s))
}

/// Scans `s` and renders its tokens in `camelCase`.
pub fn to_camel_case(s: &str) -> (out: String)
    ensures
        out@ == camel_text(spec_tokenize(s@, true)),
{
    render_camel_case(&tokenize(s))
}

/// Scans `s` and renders its tokens in `snake_case`.
pub fn to_snake_case(s: &str) -> (out: String)
    ensures
        out@ == snake_text(spec_tokenize(s@, true)),
{
    render_snake_case(&tokenize(s))
}

/// Scans `s` and renders its tokens in `UPPER_SNAKE_CASE`.
pub fn to_upper_snake_case(s: &str) -> (out: String)
    ensures
        out@ == upper_snake_text(spec_tokenize(s@, true)),
{
    render_upper_snake_case(&tokenize(s))
}

/// Scans `s` and renders its tokens in `kebab-case`.
pub fn to_kebab_case(s: &str) -> (out: String)
    ensures
        out@ == kebab_text(spec_tokenize(s@, true)),
{
    render_kebab_case(&tokenize(s))
}

/// Scans `s` and renders its tokens in the convention `to`.  For `Unknown`,
/// which has no rendering, the result is the empty string whatever `s` holds.
pub fn convert_to(s: &str, to: NamingConvention) -> (out: String)
    ensures
        out@ == rendered(spec_tokenize(s@, true), to),
        to == NamingConvention::Unknown ==> out@.len() == 0,
{
    match to {
        NamingConvention::PascalCase => to_pascal_case(s),
        NamingConvention::CamelCase => to_camel_case(s),
        NamingConvention::SnakeCase => to_snake_case(s),
        NamingConvention::KebabCase => to_kebab_case(s),
        NamingConvention::UpperSnakeCase => to_upper_snake_case(s),
        NamingConvention::Unknown => String::new(),
    }
}

} // verus!
