use cargo_craft::helpers::{
    acceptable_crate_name, capitalize_string, into_acceptable_crate_name, into_acceptable_name,
    into_acceptable_package_name, slug, strip_ends, struct_name_from_package_name,
    to_pascal_case, valid_crate_name, valid_package_name, words,
    into_acceptable_error_type_name, normalize_lowered,
};

#[test]
fn test_acceptable_crate_name() {
    assert_eq!(
        acceptable_crate_name("package_name"),
        Err(String::from("\"package_name\" does not appear to be a valid crate name"))
    );
}

#[test]
fn test_valid_package_name() {
    assert_eq!(
        valid_package_name("crate-name"),
        Err(String::from("\"crate-name\" is not a valid package name"))
    );
}

#[test]
fn test_struct_name_from_package_name() {
    let struct_name = struct_name_from_package_name("package_name");
    assert_eq!(struct_name, "PackageName");
}

#[test]
fn struct_name_of_nothing_is_nothing() {
    assert_eq!(struct_name_from_package_name(""), "");
}

#[test]
fn struct_name_skips_empty_segments() {
    assert_eq!(struct_name_from_package_name("a__b"), "AB");
    assert_eq!(struct_name_from_package_name("my_crate2_x"), "MyCrate2X");
}

#[test]
fn normalize_follows_the_four_steps() {
    assert_eq!(into_acceptable_name("Hello World", '-'), "hello-world");
    assert_eq!(into_acceptable_name("123abc", '-'), "abc");
    assert_eq!(into_acceptable_name("--Foo__Bar!", '_'), "foo_bar");
    assert_eq!(into_acceptable_name("a---b", '-'), "a-b");
    assert_eq!(into_acceptable_name("a_b", '-'), "a-b");
    assert_eq!(into_acceptable_name("", '-'), "");
    assert_eq!(into_acceptable_name("!!!", '-'), "");
    assert_eq!(into_acceptable_name("x", '-'), "x");
}

#[test]
fn normalize_strips_one_trailing_character_only() {
    assert_eq!(into_acceptable_name("ab--", '-'), "ab-");
    assert_eq!(into_acceptable_name("ab-", '-'), "ab");
    assert_eq!(into_acceptable_name("a!!b", '-'), "a--b");
    assert_eq!(into_acceptable_name("a--b", '-'), "a-b");
}

#[test]
fn normalize_is_idempotent_on_tidy_results() {
    for raw in ["Hello World", "clap_builder", "My.Crate.Name2", "x", "", "a-b-c"] {
        let once = into_acceptable_name(raw, '-');
        let twice = into_acceptable_name(&once, '-');
        assert_eq!(once, twice);
        assert!(once.chars().all(|c| c.is_ascii_lowercase() || c.is_ascii_digit() || c == '-'));
        assert!(!once.starts_with('-'));
        assert!(!once.ends_with('-'));
    }
}

#[test]
fn normalize_lowercases_beyond_ascii() {
    assert_eq!(into_acceptable_name("\u{212A}elvin", '-'), "kelvin");
    assert_eq!(into_acceptable_name("\u{C9}t\u{E9}", '-'), "t");
    assert_eq!(normalize_lowered("aBc", '-'), "aBc");
}

#[test]
fn crate_and_package_names() {
    assert_eq!(into_acceptable_crate_name("My Crate"), "my-crate");
    assert_eq!(into_acceptable_package_name("My Crate"), "my_crate");
    assert_eq!(into_acceptable_package_name("test-crate-name"), "test_crate_name");
}

#[test]
fn valid_crate_name_normalizes_first() {
    assert_eq!(valid_crate_name("clap_builder"), Ok(String::from("clap-builder")));
    assert_eq!(valid_crate_name("k9"), Ok(String::from("k9")));
    assert_eq!(valid_crate_name("reqwest"), Ok(String::from("reqwest")));
    assert_eq!(valid_crate_name("x"), Err(String::from("\"x\" is not a valid crate name")));
    assert_eq!(valid_crate_name("9"), Err(String::from("\"9\" is not a valid crate name")));
    assert_eq!(
        valid_crate_name("a\"b--"),
        Err(String::from("\"a\\\"b--\" is not a valid crate name"))
    );
}

#[test]
fn crate_name_pattern() {
    assert_eq!(acceptable_crate_name("crate-name"), Ok(String::from("crate-name")));
    assert_eq!(acceptable_crate_name("ab"), Ok(String::from("ab")));
    assert_eq!(acceptable_crate_name("a1"), Ok(String::from("a1")));
    assert_eq!(acceptable_crate_name("a-1-b"), Ok(String::from("a-1-b")));
    assert!(acceptable_crate_name("a").is_err());
    assert!(acceptable_crate_name("a-").is_err());
    assert!(acceptable_crate_name("a--b").is_err());
    assert!(acceptable_crate_name("-ab").is_err());
    assert!(acceptable_crate_name("1ab").is_err());
    assert!(acceptable_crate_name("aB").is_err());
    assert!(acceptable_crate_name("").is_err());
    assert!(acceptable_crate_name("ab\n").is_err());
}

#[test]
fn package_name_pattern() {
    assert_eq!(valid_package_name("package_name"), Ok(String::from("package_name")));
    assert!(valid_package_name("package__name").is_err());
    assert!(valid_package_name("p").is_err());
}

#[test]
fn strip_ends_takes_one_from_each_end() {
    assert_eq!(strip_ends("-crate-name-", "-"), "crate-name");
    assert_eq!(strip_ends("--crate-name--", "-"), "-crate-name-");
    assert_eq!(strip_ends("crate-name", "-"), "crate-name");
    assert_eq!(strip_ends("-", "-"), "");
    assert_eq!(strip_ends("abcab", "ab"), "c");
    assert_eq!(strip_ends("x", ""), "x");
}

#[test]
fn slug_replaces_and_strips() {
    assert_eq!(slug(" crate name ", None), "crate-name");
    assert_eq!(slug("a b", Some("_")), "a_b");
}

#[test]
fn capitalize_string_examples() {
    assert_eq!(capitalize_string(""), "");
    assert_eq!(capitalize_string("g"), "G");
    assert_eq!(capitalize_string("string"), "String");
    assert_eq!(capitalize_string("9lives"), "9lives");
    assert_eq!(capitalize_string("\u{E9}t\u{E9}"), "\u{C9}t\u{E9}");
}

#[test]
fn pascal_case_examples() {
    assert_eq!(to_pascal_case("reqwest"), "Reqwest");
    assert_eq!(to_pascal_case("k9"), "K9");
    assert_eq!(to_pascal_case("clap-builder"), "ClapBuilder");
    assert_eq!(to_pascal_case("hello"), "Hello");
    assert_eq!(to_pascal_case("snake_case"), "Snake_case");
}

#[test]
fn words_are_the_runs_between_words() {
    assert_eq!(words("foo bar"), vec![String::from(" ")]);
    assert_eq!(words("foo"), Vec::<String>::new());
    assert_eq!(words("a, b; c"), vec![String::from(", "), String::from("; ")]);
}

#[test]
fn error_type_name_examples() {
    assert_eq!(into_acceptable_error_type_name("foo"), "");
    assert_eq!(into_acceptable_error_type_name("foo bar"), " ");
}
