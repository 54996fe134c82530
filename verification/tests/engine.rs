use progest::casing::{to_capitalized, to_lower, to_upper};
use progest::conversion::{
    convert_to, join_words, render, render_camel_case, render_kebab_case, render_pascal_case,
    render_snake_case, render_upper_snake_case, to_camel_case, to_kebab_case, to_pascal_case,
    to_snake_case, to_upper_snake_case,
};
use progest::text::chars_of;
use progest::{
    guess_naming_convention, guess_naming_convention_with, tokenize, tokenize_with,
    NamingConvention,
};

const CONVENTIONS: [NamingConvention; 5] = [
    NamingConvention::PascalCase,
    NamingConvention::CamelCase,
    NamingConvention::SnakeCase,
    NamingConvention::KebabCase,
    NamingConvention::UpperSnakeCase,
];

const SAMPLES: [&str; 14] = [
    "",
    "   ",
    "_-_",
    "word",
    "thisIsHelloWorld-Hello_World Hello world",
    "HTTPServer",
    "parseHTTPResponse",
    "20000101TestName0001",
    "0001 This is test, is it?",
    "snake_case_00",
    "UPPER_SNAKE_CASE",
    "héllo wörld",
    "a_b",
    "x1 2y",
];

fn strings(words: &[&str]) -> Vec<String> {
    words.iter().map(|w| w.to_string()).collect()
}

fn folded(tokens: &[String]) -> Vec<String> {
    tokens.iter().map(|t| t.to_lowercase()).collect()
}

// scanning

#[test]
fn empty_input_has_no_tokens() {
    assert_eq!(tokenize(""), Vec::<String>::new());
    assert_eq!(tokenize_with("", false), Vec::<String>::new());
}

#[test]
fn separators_alone_give_no_tokens() {
    assert_eq!(tokenize(" _-.,;:!?/\\()[]{}"), Vec::<String>::new());
    assert_eq!(tokenize_with("12 34", false), Vec::<String>::new());
}

#[test]
fn no_token_is_empty() {
    for sample in SAMPLES {
        for digits in [true, false] {
            for token in tokenize_with(sample, digits) {
                assert!(!token.is_empty(), "empty token in {:?}", sample);
            }
        }
    }
}

#[test]
fn tokens_keep_their_case_and_order() {
    assert_eq!(
        tokenize("thisIsHelloWorld-Hello_World Hello world"),
        strings(&["this", "Is", "Hello", "World", "Hello", "World", "Hello", "world"])
    );
}

#[test]
fn acronym_takes_the_capital_of_the_next_word() {
    assert_eq!(tokenize("HTTPServer"), strings(&["HTTPS", "erver"]));
    assert_eq!(tokenize("parseHTTPResponse"), strings(&["parse", "HTTPR", "esponse"]));
    assert_eq!(tokenize("AB"), strings(&["AB"]));
    assert_eq!(tokenize("ABc"), strings(&["AB", "c"]));
}

#[test]
fn single_capital_is_a_word() {
    assert_eq!(tokenize("A"), strings(&["A"]));
    assert_eq!(tokenize("aB"), strings(&["a", "B"]));
    assert_eq!(tokenize("A1B"), strings(&["A", "1", "B"]));
}

#[test]
fn digit_runs_are_tokens_of_their_own() {
    assert_eq!(tokenize("abc123def"), strings(&["abc", "123", "def"]));
    assert_eq!(tokenize("00this 02"), strings(&["00", "this", "02"]));
    assert_eq!(tokenize("v2Beta10"), strings(&["v", "2", "Beta", "10"]));
}

#[test]
fn digits_separate_when_disabled() {
    assert_eq!(tokenize_with("abc123def", false), strings(&["abc", "def"]));
    assert_eq!(tokenize_with("00this 02", false), strings(&["this"]));
    assert_eq!(tokenize_with("A1B", false), strings(&["A", "B"]));
}

#[test]
fn tokenize_is_tokenize_with_digits() {
    for sample in SAMPLES {
        assert_eq!(tokenize(sample), tokenize_with(sample, true));
    }
}

#[test]
fn characters_outside_ascii_separate() {
    assert_eq!(tokenize("héllo wörld"), strings(&["h", "llo", "w", "rld"]));
    assert_eq!(tokenize("ÀB"), strings(&["B"]));
    assert_eq!(tokenize("a\u{0663}b"), strings(&["a", "b"]));
    assert_eq!(tokenize("日本語"), Vec::<String>::new());
}

#[test]
fn chars_of_gives_the_characters() {
    assert_eq!(chars_of(""), Vec::<char>::new());
    assert_eq!(chars_of("aß日"), vec!['a', 'ß', '日']);
}

// recognition

#[test]
fn every_text_gets_one_tag() {
    for sample in SAMPLES {
        for digits in [true, false] {
            let tag = guess_naming_convention_with(sample, digits);
            assert!(CONVENTIONS.contains(&tag) || tag == NamingConvention::Unknown);
            assert_eq!(tag, guess_naming_convention_with(sample, digits));
        }
    }
}

#[test]
fn empty_text_is_unknown() {
    assert_eq!(guess_naming_convention(""), NamingConvention::Unknown);
    assert_eq!(guess_naming_convention_with("", false), NamingConvention::Unknown);
}

#[test]
fn single_lower_case_word_is_camel_case() {
    assert_eq!(guess_naming_convention("word"), NamingConvention::CamelCase);
    assert_eq!(guess_naming_convention_with("word", false), NamingConvention::CamelCase);
}

#[test]
fn upper_case_word_is_pascal_case() {
    assert_eq!(guess_naming_convention("WORD"), NamingConvention::PascalCase);
    assert_eq!(guess_naming_convention("W"), NamingConvention::PascalCase);
}

#[test]
fn separators_must_stand_alone_between_groups() {
    assert_eq!(guess_naming_convention("a__b"), NamingConvention::Unknown);
    assert_eq!(guess_naming_convention("_ab"), NamingConvention::Unknown);
    assert_eq!(guess_naming_convention("ab_"), NamingConvention::Unknown);
    assert_eq!(guess_naming_convention("a--b"), NamingConvention::Unknown);
    assert_eq!(guess_naming_convention("-ab"), NamingConvention::Unknown);
    assert_eq!(guess_naming_convention("ab-"), NamingConvention::Unknown);
    assert_eq!(guess_naming_convention("A__B"), NamingConvention::Unknown);
    assert_eq!(guess_naming_convention("_"), NamingConvention::Unknown);
    assert_eq!(guess_naming_convention("a_b-c"), NamingConvention::Unknown);
}

#[test]
fn mixed_case_with_separator_is_unknown() {
    assert_eq!(guess_naming_convention("this_Is-UnknownCase"), NamingConvention::Unknown);
    assert_eq!(guess_naming_convention("Snake_case"), NamingConvention::Unknown);
    assert_eq!(guess_naming_convention("kebab-Case"), NamingConvention::Unknown);
    assert_eq!(guess_naming_convention("hello world"), NamingConvention::Unknown);
    assert_eq!(guess_naming_convention("héllo"), NamingConvention::Unknown);
}

#[test]
fn digits_count_as_letters_of_a_group() {
    assert_eq!(guess_naming_convention("123"), NamingConvention::PascalCase);
    assert_eq!(guess_naming_convention("1abc"), NamingConvention::PascalCase);
    assert_eq!(guess_naming_convention("abc1"), NamingConvention::CamelCase);
    assert_eq!(guess_naming_convention("1_2"), NamingConvention::SnakeCase);
    assert_eq!(guess_naming_convention("1-2"), NamingConvention::KebabCase);
    assert_eq!(guess_naming_convention("A_1"), NamingConvention::UpperSnakeCase);
}

#[test]
fn digits_are_refused_when_disabled() {
    assert_eq!(guess_naming_convention_with("123", false), NamingConvention::Unknown);
    assert_eq!(guess_naming_convention_with("abc1", false), NamingConvention::Unknown);
    assert_eq!(guess_naming_convention_with("PascalCase00", false), NamingConvention::Unknown);
    assert_eq!(guess_naming_convention_with("snake_case_00", false), NamingConvention::Unknown);
    assert_eq!(guess_naming_convention_with("PascalCase", false), NamingConvention::PascalCase);
    assert_eq!(guess_naming_convention_with("camelCase", false), NamingConvention::CamelCase);
    assert_eq!(guess_naming_convention_with("snake_case", false), NamingConvention::SnakeCase);
    assert_eq!(guess_naming_convention_with("kebab-case", false), NamingConvention::KebabCase);
    assert_eq!(guess_naming_convention_with("UPPER_SNAKE", false), NamingConvention::UpperSnakeCase);
}

#[test]
fn earlier_grammar_wins() {
    // matches the grammars of PascalCase and of UPPER_SNAKE_CASE
    assert_eq!(guess_naming_convention("ABC"), NamingConvention::PascalCase);
    // matches the grammars of camelCase, snake_case and kebab-case
    assert_eq!(guess_naming_convention("abc"), NamingConvention::CamelCase);
    // matches the grammars of PascalCase, camelCase, snake_case, kebab-case
    // and UPPER_SNAKE_CASE
    assert_eq!(guess_naming_convention("7"), NamingConvention::PascalCase);
}

// rendering

#[test]
fn unknown_renders_as_nothing() {
    for sample in SAMPLES {
        assert_eq!(convert_to(sample, NamingConvention::Unknown), "");
        assert_eq!(render(&tokenize(sample), NamingConvention::Unknown), "");
    }
    assert_eq!(convert_to("pascalCase", NamingConvention::Unknown), "");
}

#[test]
fn no_tokens_render_as_nothing() {
    for input in ["", "  ", "_-_", "日本語"] {
        assert_eq!(to_pascal_case(input), "");
        assert_eq!(to_camel_case(input), "");
        assert_eq!(to_snake_case(input), "");
        assert_eq!(to_upper_snake_case(input), "");
        assert_eq!(to_kebab_case(input), "");
    }
    for to in CONVENTIONS {
        assert_eq!(render(&Vec::new(), to), "");
    }
}

#[test]
fn one_token_has_no_separator() {
    assert_eq!(to_snake_case("Word"), "word");
    assert_eq!(to_kebab_case("Word"), "word");
    assert_eq!(to_upper_snake_case("Word"), "WORD");
    assert_eq!(to_pascal_case("word"), "Word");
    assert_eq!(to_camel_case("Word"), "word");
}

#[test]
fn literal_conversions() {
    assert_eq!(to_snake_case("snakeCase"), "snake_case");
    assert_eq!(to_pascal_case("kebab-case"), "KebabCase");
    assert_eq!(to_camel_case("UPPER_SNAKE_CASE"), "upperSnakeCase");
    assert_eq!(to_upper_snake_case("upperSnakeCase"), "UPPER_SNAKE_CASE");
    assert_eq!(to_kebab_case("kebabCase"), "kebab-case");
    assert_eq!(to_pascal_case("pascalCase"), "PascalCase");
    assert_eq!(to_camel_case("camel_case"), "camelCase");
}

#[test]
fn acronyms_render_as_words() {
    assert_eq!(to_snake_case("HTTPServer"), "https_erver");
    assert_eq!(to_pascal_case("HTTP_SERVER"), "HttpServer");
    assert_eq!(to_camel_case("HTTP_SERVER"), "httpServer");
}

#[test]
fn convert_to_dispatches() {
    for sample in SAMPLES {
        assert_eq!(convert_to(sample, NamingConvention::PascalCase), to_pascal_case(sample));
        assert_eq!(convert_to(sample, NamingConvention::CamelCase), to_camel_case(sample));
        assert_eq!(convert_to(sample, NamingConvention::SnakeCase), to_snake_case(sample));
        assert_eq!(convert_to(sample, NamingConvention::KebabCase), to_kebab_case(sample));
        assert_eq!(
            convert_to(sample, NamingConvention::UpperSnakeCase),
            to_upper_snake_case(sample)
        );
    }
}

#[test]
fn converting_is_scanning_then_rendering() {
    for sample in SAMPLES {
        let tokens = tokenize(sample);
        assert_eq!(to_pascal_case(sample), render_pascal_case(&tokens));
        assert_eq!(to_camel_case(sample), render_camel_case(&tokens));
        assert_eq!(to_snake_case(sample), render_snake_case(&tokens));
        assert_eq!(to_kebab_case(sample), render_kebab_case(&tokens));
        assert_eq!(to_upper_snake_case(sample), render_upper_snake_case(&tokens));
        for to in CONVENTIONS {
            assert_eq!(convert_to(sample, to), render(&tokens, to));
        }
    }
}

#[test]
fn tokens_scanned_without_digits_can_be_rendered() {
    let tokens = tokenize_with("release2Candidate", false);
    assert_eq!(render_snake_case(&tokens), "release_candidate");
    assert_eq!(render(&tokens, NamingConvention::PascalCase), "ReleaseCandidate");
}

#[test]
fn join_words_puts_the_separator_between() {
    assert_eq!(join_words(&Vec::new(), "_"), "");
    assert_eq!(join_words(&strings(&["a"]), "_"), "a");
    assert_eq!(join_words(&strings(&["a", "b", "c"]), "_"), "a_b_c");
    assert_eq!(join_words(&strings(&["a", "b", "c"]), ""), "abc");
    assert_eq!(join_words(&strings(&["a", "", "c"]), "--"), "a----c");
}

#[test]
fn case_mappings_change_ascii_letters() {
    assert_eq!(to_lower("Hello World 42_XY"), "hello world 42_xy");
    assert_eq!(to_upper("Hello World 42_xy"), "HELLO WORLD 42_XY");
    assert_eq!(to_capitalized("hello world"), "Hello world");
    assert_eq!(to_capitalized("Hello"), "Hello");
    assert_eq!(to_capitalized("42"), "42");
    assert_eq!(to_capitalized(""), "");
    let ascii: String = (0u8..128).map(|b| b as char).collect();
    let lower: String =
        (0u8..128).map(|b| if b.is_ascii_uppercase() { (b + 32) as char } else { b as char }).collect();
    let upper: String =
        (0u8..128).map(|b| if b.is_ascii_lowercase() { (b - 32) as char } else { b as char }).collect();
    assert_eq!(to_lower(&ascii), lower);
    assert_eq!(to_upper(&ascii), upper);
}

#[test]
fn case_mappings_follow_unicode() {
    assert_eq!(to_upper("straße"), "STRASSE");
    assert_eq!(to_lower("ÀÉÎ"), "àéî");
    assert_eq!(to_capitalized("ßa"), "SSa");
    assert_eq!(to_capitalized("élan"), "Élan");
    assert_eq!(render_upper_snake_case(&strings(&["straße", "weg"])), "STRASSE_WEG");
    assert_eq!(render_pascal_case(&strings(&["ÉLAN", "ßa"])), "ÉlanSSa");
    assert_eq!(render_camel_case(&strings(&["ÉLAN", "ßa"])), "élanSSa");
    assert_eq!(render_snake_case(&strings(&["ÀB", "Cd"])), "àb_cd");
    assert_eq!(render_kebab_case(&strings(&["ÀB", "Cd"])), "àb-cd");
}

// scanning and rendering together

#[test]
fn rendered_text_renders_as_itself() {
    assert_eq!(to_snake_case("snake_case"), "snake_case");
    assert_eq!(to_kebab_case("kebab-case"), "kebab-case");
    assert_eq!(to_upper_snake_case("UPPER_SNAKE_CASE"), "UPPER_SNAKE_CASE");
    assert_eq!(to_pascal_case("PascalCase"), "PascalCase");
    assert_eq!(to_camel_case("camelCase"), "camelCase");
    for sample in SAMPLES {
        for to in [
            NamingConvention::SnakeCase,
            NamingConvention::KebabCase,
            NamingConvention::UpperSnakeCase,
        ] {
            let once = convert_to(sample, to);
            assert_eq!(convert_to(&once, to), once);
        }
    }
    for sample in ["thisIsHelloWorld-Hello_World Hello world", "20000101TestName0001", "word"] {
        for to in [NamingConvention::PascalCase, NamingConvention::CamelCase] {
            let once = convert_to(sample, to);
            assert_eq!(convert_to(&once, to), once);
        }
    }
}

#[test]
fn renderings_hold_the_same_tokens_up_to_case() {
    for sample in [
        "thisIsHelloWorld-Hello_World Hello world",
        "20000101TestName0001",
        "HTTPServer",
        "snake_case_00",
        "word",
        "",
    ] {
        let expected = folded(&tokenize(sample));
        for to in CONVENTIONS {
            assert_eq!(folded(&tokenize(&convert_to(sample, to))), expected);
        }
    }
}

#[test]
fn separators_always_keep_the_tokens() {
    for sample in SAMPLES {
        let expected = folded(&tokenize(sample));
        for to in [
            NamingConvention::SnakeCase,
            NamingConvention::KebabCase,
            NamingConvention::UpperSnakeCase,
        ] {
            assert_eq!(folded(&tokenize(&convert_to(sample, to))), expected);
        }
    }
}

#[test]
fn single_letter_runs_into_the_next_word_without_separator() {
    assert_eq!(to_pascal_case("a_b"), "AB");
    assert_eq!(tokenize("AB"), strings(&["AB"]));
    assert_eq!(to_pascal_case("AB"), "Ab");
    assert_eq!(to_camel_case("x_a_b"), "xAB");
    assert_eq!(to_camel_case("xAB"), "xAb");
    // the first word of camelCase is in lower case and stays apart
    assert_eq!(to_camel_case("a_b"), "aB");
    assert_eq!(tokenize("aB"), strings(&["a", "B"]));
}

#[test]
fn digits_run_into_digits_without_separator() {
    assert_eq!(to_pascal_case("1 2"), "12");
    assert_eq!(tokenize("12"), strings(&["12"]));
    assert_eq!(to_snake_case("1 2"), "1_2");
    assert_eq!(tokenize("1_2"), strings(&["1", "2"]));
}
