use progest::conversion::{
    convert_to, to_camel_case, to_kebab_case, to_pascal_case, to_snake_case, to_upper_snake_case,
};
use progest::{guess_naming_convention, tokenize, NamingConvention};

#[test]
fn lib_snake_to_upper_snake() {
    assert_eq!(to_upper_snake_case("snake_case"), "SNAKE_CASE");
    assert_eq!(
        to_upper_snake_case("snake_case_00"),
        "SNAKE_CASE_00"
    );
}

#[test]
fn lib_snake_to_kebab() {
    assert_eq!(to_kebab_case("snake_case"), "snake-case");
    assert_eq!(to_kebab_case("snake_case_00"), "snake-case-00");
}

#[test]
fn lib_snake_to_camel() {
    assert_eq!(to_camel_case("snake_case"), "snakeCase");
    assert_eq!(to_camel_case("snake_case_00"), "snakeCase00");
}

#[test]
fn lib_snake_to_pascal() {
    assert_eq!(to_pascal_case("snake_case"), "SnakeCase");
    assert_eq!(to_pascal_case("snake_case_00"), "SnakeCase00");
}

#[test]
fn lib_upper_snake_to_snake() {
    assert_eq!(
        to_snake_case("UPPER_SNAKE_CASE"),
        "upper_snake_case"
    );
    assert_eq!(
        to_snake_case("UPPER_SNAKE_CASE_00"),
        "upper_snake_case_00"
    );
}

#[test]
fn lib_upper_snake_to_kebab() {
    assert_eq!(
        to_kebab_case("UPPER_SNAKE_CASE"),
        "upper-snake-case"
    );
    assert_eq!(
        to_kebab_case("UPPER_SNAKE_CASE_00"),
        "upper-snake-case-00"
    );
}

#[test]
fn lib_upper_snake_to_camel() {
    assert_eq!(to_camel_case("UPPER_SNAKE_CASE"), "upperSnakeCase");
    assert_eq!(
        to_camel_case("UPPER_SNAKE_CASE_00"),
        "upperSnakeCase00"
    );
}

#[test]
fn lib_upper_snake_to_pascal() {
    assert_eq!(
        to_pascal_case("UPPER_SNAKE_CASE"),
        "UpperSnakeCase"
    );
    assert_eq!(
        to_pascal_case("UPPER_SNAKE_CASE_00"),
        "UpperSnakeCase00"
    );
}

#[test]
fn lib_kebab_to_snake() {
    assert_eq!(to_snake_case("kebab-case"), "kebab_case");
    assert_eq!(to_snake_case("kebab-case-00"), "kebab_case_00");
}

#[test]
fn lib_kebab_to_upper_snake() {
    assert_eq!(to_upper_snake_case("kebab-case"), "KEBAB_CASE");
    assert_eq!(
        to_upper_snake_case("kebab-case-00"),
        "KEBAB_CASE_00"
    );
}

#[test]
fn lib_kebab_to_camel() {
    assert_eq!(to_camel_case("kebab-case"), "kebabCase");
    assert_eq!(to_camel_case("kebab-case-00"), "kebabCase00");
}

#[test]
fn lib_kebab_to_pascal() {
    assert_eq!(to_pascal_case("kebab-case"), "KebabCase");
    assert_eq!(to_pascal_case("kebab-case-00"), "KebabCase00");
}

#[test]
fn lib_camel_to_snake() {
    assert_eq!(to_snake_case("camelCase"), "camel_case");
    assert_eq!(to_snake_case("camelCase00"), "camel_case_00");
}

#[test]
fn lib_camel_to_upper_snake() {
    assert_eq!(to_upper_snake_case("camelCase"), "CAMEL_CASE");
    assert_eq!(
        to_upper_snake_case("camelCase00"),
        "CAMEL_CASE_00"
    );
}

#[test]
fn lib_camel_to_kebab() {
    assert_eq!(to_kebab_case("camelCase"), "camel-case");
    assert_eq!(to_kebab_case("camelCase00"), "camel-case-00");
}

#[test]
fn lib_camel_to_pascal() {
    assert_eq!(to_pascal_case("camelCase"), "CamelCase");
    assert_eq!(to_pascal_case("camelCase00"), "CamelCase00");
}

#[test]
fn lib_pascal_to_snake() {
    assert_eq!(to_snake_case("PascalCase"), "pascal_case");
    assert_eq!(to_snake_case("PascalCase00"), "pascal_case_00");
}

#[test]
fn lib_pascal_to_upper_snake() {
    assert_eq!(to_upper_snake_case("PascalCase"), "PASCAL_CASE");
    assert_eq!(
        to_upper_snake_case("PascalCase00"),
        "PASCAL_CASE_00"
    );
}

#[test]
fn lib_pascal_to_kebab() {
    assert_eq!(to_kebab_case("PascalCase"), "pascal-case");
    assert_eq!(to_kebab_case("PascalCase00"), "pascal-case-00");
}

#[test]
fn lib_pascal_to_camel() {
    assert_eq!(to_camel_case("PascalCase"), "pascalCase");
    assert_eq!(to_camel_case("PascalCase00"), "pascalCase00");
}

#[test]
fn lib_tokenize_complex() {
    assert_eq!(
        tokenize("thisIsHelloWorld-Hello_World Hello world"),
        vec!["this", "Is", "Hello", "World", "Hello", "World", "Hello", "world"]
    );
    assert_eq!(
        tokenize("00thisIsHelloWorld-Hello_World Hello world 02"),
        vec!["00", "this", "Is", "Hello", "World", "Hello", "World", "Hello", "world", "02"]
    );
}

#[test]
fn lib_complex_pattern_conversion() {
    let plain = "thisIsHelloWorld-Hello_World Hello world";
    assert_eq!(
        to_snake_case(plain),
        "this_is_hello_world_hello_world_hello_world"
    );
    assert_eq!(
        to_kebab_case(plain),
        "this-is-hello-world-hello-world-hello-world"
    );
    assert_eq!(
        to_camel_case(plain),
        "thisIsHelloWorldHelloWorldHelloWorld"
    );
    assert_eq!(
        to_upper_snake_case(plain),
        "THIS_IS_HELLO_WORLD_HELLO_WORLD_HELLO_WORLD"
    );
    assert_eq!(
        to_pascal_case(plain),
        "ThisIsHelloWorldHelloWorldHelloWorld"
    );
    let input = "thisIsHelloWorld-Hello_World Hello world00";
    assert_eq!(
        to_snake_case(input),
        "this_is_hello_world_hello_world_hello_world_00"
    );
    assert_eq!(
        to_kebab_case(input),
        "this-is-hello-world-hello-world-hello-world-00"
    );
    assert_eq!(
        to_camel_case(input),
        "thisIsHelloWorldHelloWorldHelloWorld00"
    );
    assert_eq!(
        to_upper_snake_case(input),
        "THIS_IS_HELLO_WORLD_HELLO_WORLD_HELLO_WORLD_00"
    );
    assert_eq!(
        to_pascal_case(input),
        "ThisIsHelloWorldHelloWorldHelloWorld00"
    );
}

#[test]
fn special_pattern_conversion() {
    assert_eq!(
        to_snake_case("20000101TestName0001"),
        "20000101_test_name_0001"
    );
    assert_eq!(
        to_upper_snake_case("20000101TestName0001"),
        "20000101_TEST_NAME_0001"
    );
    assert_eq!(
        to_kebab_case("20000101TestName0001"),
        "20000101-test-name-0001"
    );
    assert_eq!(
        to_camel_case("20000101_test_name_0001"),
        "20000101TestName0001"
    );
    assert_eq!(
        to_pascal_case("20000101_test_name_0001"),
        "20000101TestName0001"
    );

    assert_eq!(
        to_snake_case("0001 This is test, is it?"),
        "0001_this_is_test_is_it"
    );
    assert_eq!(
        to_upper_snake_case("0001 This is test, is it?"),
        "0001_THIS_IS_TEST_IS_IT"
    );
    assert_eq!(
        to_kebab_case("0001 This is test, is it?"),
        "0001-this-is-test-is-it"
    );
    assert_eq!(
        to_camel_case("0001 This is test, is it?"),
        "0001ThisIsTestIsIt"
    );
    assert_eq!(
        to_pascal_case("0001 This is test, is it?"),
        "0001ThisIsTestIsIt"
    );
}

#[test]
fn lib_guess_pascal_case() {
    assert_eq!(
        guess_naming_convention("PascalCase"),
        NamingConvention::PascalCase
    );
    assert_eq!(
        guess_naming_convention("PascalCase00"),
        NamingConvention::PascalCase
    );
}

#[test]
fn lib_guess_camel_case() {
    assert_eq!(
        guess_naming_convention("camelCase"),
        NamingConvention::CamelCase
    );
    assert_eq!(
        guess_naming_convention("camelCase00"),
        NamingConvention::CamelCase
    );
}

#[test]
fn lib_guess_snake_case() {
    assert_eq!(
        guess_naming_convention("snake_case"),
        NamingConvention::SnakeCase
    );
    assert_eq!(
        guess_naming_convention("snake_case_00"),
        NamingConvention::SnakeCase
    );
}

#[test]
fn lib_guess_kebab_case() {
    assert_eq!(
        guess_naming_convention("kebab-case"),
        NamingConvention::KebabCase
    );
    assert_eq!(
        guess_naming_convention("kebab-case-00"),
        NamingConvention::KebabCase
    );
}

#[test]
fn lib_guess_upper_camel() {
    assert_eq!(
        guess_naming_convention("UPPER_CAMEL"),
        NamingConvention::UpperSnakeCase
    );
    assert_eq!(
        guess_naming_convention("UPPER_CAMEL_00"),
        NamingConvention::UpperSnakeCase
    );
}

#[test]
fn lib_guess_unknown() {
    assert_eq!(
        guess_naming_convention("this_Is-UnknownCase"),
        NamingConvention::Unknown
    );
    assert_eq!(
        guess_naming_convention("this_Is-UnknownCase00"),
        NamingConvention::Unknown
    );
}

#[test]
fn convert_to_pascal_case() {
    assert_eq!(
        convert_to("pascalCase", NamingConvention::PascalCase),
        "PascalCase"
    );
}

#[test]
fn convert_to_camel_case() {
    assert_eq!(
        convert_to("CamelCase", NamingConvention::CamelCase),
        "camelCase"
    );
}

#[test]
fn convert_to_snake_case() {
    assert_eq!(
        convert_to("snake_case", NamingConvention::SnakeCase),
        "snake_case"
    );
}

#[test]
fn convert_to_kebab_case() {
    assert_eq!(
        convert_to("kebab-case", NamingConvention::KebabCase),
        "kebab-case"
    );
}

#[test]
fn convert_to_upper_camel() {
    assert_eq!(
        convert_to("UPPER_CAMEL", NamingConvention::UpperSnakeCase),
        "UPPER_CAMEL"
    );
}
