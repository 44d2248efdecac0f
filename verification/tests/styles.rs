use namefmt::case::{apply_style, to_camel_case, to_kebab_case, to_snake_case, NamingStyle};
use namefmt::case_laws::lowers_cleanly_throughout;

#[test]
fn snake_case_splits_at_upper_case() {
    assert_eq!(to_snake_case("MyComponent"), "my_component");
    assert_eq!(apply_style("MyComponent", &NamingStyle::SnakeCase), "my_component");
}

#[test]
fn snake_case_replaces_spaces_and_hyphens() {
    assert_eq!(to_snake_case("my cool-file.txt"), "my_cool_file.txt");
    assert_eq!(to_snake_case("a - b"), "a_b");
    assert_eq!(to_snake_case(" lead"), "lead");
    assert_eq!(to_snake_case("-"), "");
    assert_eq!(to_snake_case(""), "");
}

#[test]
fn snake_case_keeps_other_characters() {
    assert_eq!(to_snake_case("a_b.c9!"), "a_b.c9!");
    assert_eq!(to_snake_case("a__b"), "a__b");
    assert_eq!(to_snake_case("_a"), "_a");
}

#[test]
fn snake_case_adds_no_separator_twice() {
    assert_eq!(to_snake_case("My File"), "my_file");
    assert_eq!(to_snake_case("ABC"), "a_b_c");
    assert_eq!(to_snake_case("a_B"), "a_b");
}

#[test]
fn snake_case_beyond_ascii() {
    assert_eq!(to_snake_case("ÉcoleNormale"), "école_normale");
    assert_eq!(to_snake_case("straßeÄ"), "straße_ä");
}

#[test]
fn kebab_case_splits_at_upper_case() {
    assert_eq!(to_kebab_case("MyComponent"), "my-component");
    assert_eq!(apply_style("MyComponent", &NamingStyle::KebabCase), "my-component");
}

#[test]
fn kebab_case_replaces_spaces_and_underscores() {
    assert_eq!(to_kebab_case("My File.js"), "my-file.js");
    assert_eq!(to_kebab_case("snake_name here"), "snake-name-here");
    assert_eq!(to_kebab_case("a-b"), "a-b");
    assert_eq!(to_kebab_case("a--b"), "a--b");
    assert_eq!(to_kebab_case("_x"), "x");
}

#[test]
fn camel_case_joins_words() {
    assert_eq!(to_camel_case("some-thing"), "someThing");
    assert_eq!(apply_style("some-thing", &NamingStyle::CamelCase), "someThing");
    assert_eq!(to_camel_case("my cool_file-name"), "myCoolFileName");
}

#[test]
fn camel_case_lowers_the_first_word_only() {
    assert_eq!(to_camel_case("HELLO wORLD"), "helloWORLD");
    assert_eq!(to_camel_case("MyComponent"), "mycomponent");
    assert_eq!(to_camel_case("one twoThree"), "oneTwoThree");
}

#[test]
fn camel_case_drops_empty_words() {
    assert_eq!(to_camel_case("a--b__c  d"), "aBCD");
    assert_eq!(to_camel_case("_Foo bar"), "fooBar");
    assert_eq!(to_camel_case("foo_"), "foo");
    assert_eq!(to_camel_case("- _"), "");
    assert_eq!(to_camel_case(""), "");
}

#[test]
fn camel_case_beyond_ascii() {
    assert_eq!(to_camel_case("ÉCOLE école"), "écoleÉcole");
}

#[test]
fn camel_case_is_not_always_idempotent() {
    let once = to_camel_case("some-thing");
    assert_eq!(once, "someThing");
    assert_eq!(to_camel_case(&once), "something");
    let settled = to_camel_case("something");
    assert_eq!(to_camel_case(&settled), settled);
}

#[test]
fn snake_and_kebab_case_are_idempotent() {
    let names = ["MyComponent", "my cool-file.txt", "a__b", "ABC", "x-Y z", "ÉcoleNormale", ""];
    for name in names {
        let snake = to_snake_case(name);
        assert_eq!(to_snake_case(&snake), snake);
        let kebab = to_kebab_case(name);
        assert_eq!(to_kebab_case(&kebab), kebab);
    }
}

#[test]
fn snake_and_kebab_case_are_well_separated() {
    let names = ["MyComponent", "my  cool--file.txt", "ABC", " x-Y z", "A B", "- -a"];
    for name in names {
        let snake = to_snake_case(name);
        assert!(!snake.starts_with('_'));
        assert!(!snake.contains("__"));
    }
    let names = ["MyComponent", "my  cool__file.txt", "ABC", " x_Y z", "A B", "_ _a"];
    for name in names {
        let kebab = to_kebab_case(name);
        assert!(!kebab.starts_with('-'));
        assert!(!kebab.contains("--"));
    }
}

#[test]
fn names_lower_cleanly() {
    let names = ["MyComponent", "plain", "ÉcoleNormale", "ΑΒΓ δ", "İstanbul", "", "a_B-c D"];
    for name in names {
        assert!(lowers_cleanly_throughout(name));
    }
}
