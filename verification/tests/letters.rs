use progest::conversion::{
    to_camel_case, to_kebab_case, to_pascal_case, to_snake_case, to_upper_snake_case,
};
use progest::{guess_naming_convention, tokenize, NamingConvention};


// snake_case
#[test]
fn snake_to_upper_snake() {
    assert_eq!(to_upper_snake_case("snake_case"), "SNAKE_CASE");
}

#[test]
fn snake_to_kebab() {
    assert_eq!(to_kebab_case("snake_case"), "snake-case");
}

#[test]
fn snake_to_camel() {
    assert_eq!(to_camel_case("snake_case"), "snakeCase");
}

#[test]
fn snake_to_pascal() {
    assert_eq!(to_pascal_case("snake_case"), "SnakeCase");
}

// UPPER_SNAKE_CASE
#[test]
fn upper_snake_to_snake() {
    assert_eq!(
        to_snake_case("UPPER_SNAKE_CASE"),
        "upper_snake_case"
    );
}

#[test]
fn upper_snake_to_kebab() {
    assert_eq!(
        to_kebab_case("UPPER_SNAKE_CASE"),
        "upper-snake-case"
    );
}

#[test]
fn upper_snake_to_camel() {
    assert_eq!(to_camel_case("UPPER_SNAKE_CASE"), "upperSnakeCase");
}

#[test]
fn upper_snake_to_pascal() {
    assert_eq!(
        to_pascal_case("UPPER_SNAKE_CASE"),
        "UpperSnakeCase"
    );
}

// kebab-case
#[test]
fn kebab_to_snake() {
    assert_eq!(to_snake_case("kebab-case"), "kebab_case");
}

#[test]
fn kebab_to_upper_snake() {
    assert_eq!(to_upper_snake_case("kebab-case"), "KEBAB_CASE");
}

#[test]
fn kebab_to_camel() {
    assert_eq!(to_camel_case("kebab-case"), "kebabCase");
}

#[test]
fn kebab_to_pascal() {
    assert_eq!(to_pascal_case("kebab-case"), "KebabCase");
}

// camelCase
#[test]
fn camel_to_snake() {
    assert_eq!(to_snake_case("camelCase"), "camel_case");
}

#[test]
fn camel_to_upper_snake() {
    assert_eq!(to_upper_snake_case("camelCase"), "CAMEL_CASE");
}

#[test]
fn camel_to_kebab() {
    assert_eq!(to_kebab_case("camelCase"), "camel-case");
}

#[test]
fn camel_to_pascal() {
    assert_eq!(to_pascal_case("camelCase"), "CamelCase");
}

// PascalCase
#[test]
fn pascal_to_snake() {
    assert_eq!(to_snake_case("PascalCase"), "pascal_case");
}

#[test]
fn pascal_to_upper_snake() {
    assert_eq!(to_upper_snake_case("PascalCase"), "PASCAL_CASE");
}

#[test]
fn pascal_to_kebab() {
    assert_eq!(to_kebab_case("PascalCase"), "pascal-case");
}

#[test]
fn pascal_to_camel() {
    assert_eq!(to_camel_case("PascalCase"), "pascalCase");
}

// tokenize
#[test]
fn tokenize_complex() {
    assert_eq!(
        tokenize("thisIsHelloWorld-Hello_World Hello world"),
        vec!["this", "Is", "Hello", "World", "Hello", "World", "Hello", "world"]
    );
}

// Complex pattern
#[test]
fn complex_pattern_conversion() {
    let input = "thisIsHelloWorld-Hello_World Hello world";
    assert_eq!(
        to_snake_case(input),
        "this_is_hello_world_hello_world_hello_world"
    );
    assert_eq!(
        to_kebab_case(input),
        "this-is-hello-world-hello-world-hello-world"
    );
    assert_eq!(
        to_camel_case(input),
        "thisIsHelloWorldHelloWorldHelloWorld"
    );
    assert_eq!(
        to_upper_snake_case(input),
        "THIS_IS_HELLO_WORLD_HELLO_WORLD_HELLO_WORLD"
    );
    assert_eq!(
        to_pascal_case(input),
        "ThisIsHelloWorldHelloWorldHelloWorld"
    );
}

// guess_naming_convention
#[test]
fn guess_pascal_case() {
    assert_eq!(
        guess_naming_convention("PascalCase"),
        NamingConvention::PascalCase
    );
}

#[test]
fn guess_camel_case() {
    assert_eq!(
        guess_naming_convention("camelCase"),
        NamingConvention::CamelCase
    );
}

#[test]
fn guess_snake_case() {
    assert_eq!(
        guess_naming_convention("snake_case"),
        NamingConvention::SnakeCase
    );
}

#[test]
fn guess_kebab_case() {
    assert_eq!(
        guess_naming_convention("kebab-case"),
        NamingConvention::KebabCase
    );
}

#[test]
fn guess_upper_camel() {
    assert_eq!(
        guess_naming_convention("UPPER_CAMEL"),
        NamingConvention::UpperSnakeCase
    );
}

#[test]
fn guess_unknown() {
    assert_eq!(
        guess_naming_convention("this_Is-UnknownCase"),
        NamingConvention::Unknown
    );
}
