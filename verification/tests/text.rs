use rsh::text::{
    char_is_whitespace, chars_of, parse_i32, split_assignment, split_fields, split_qualified,
    str_contains, str_eq, string_of, trim,
};

#[test]
fn trim_removes_one_pair_of_quotes() {
    assert_eq!(trim("\"hello\""), "hello");
    assert_eq!(trim("'a b'"), "a b");
    assert_eq!(trim("plain"), "plain");
    assert_eq!(trim("\"open"), "\"open");
    assert_eq!(trim("'mixed\""), "'mixed\"");
    assert_eq!(trim("\"\"x\"\""), "\"x\"");
}

#[test]
fn trim_of_a_lone_quote_is_empty() {
    assert_eq!(trim("\""), "");
    assert_eq!(trim("'"), "");
    assert_eq!(trim(""), "");
}

#[test]
fn chars_round_trip() {
    let v = chars_of("héllo wörld");
    assert_eq!(v.len(), 11);
    assert_eq!(string_of(&v), "héllo wörld");
}

#[test]
fn str_eq_compares_contents() {
    assert!(str_eq("abc", "abc"));
    assert!(!str_eq("abc", "abd"));
    assert!(!str_eq("abc", "ab"));
    assert!(str_eq("", ""));
}

#[test]
fn assignment_splits_at_first_equals() {
    assert_eq!(split_assignment("X=1"), ("X".to_string(), "1".to_string()));
    assert_eq!(split_assignment("X=a=b"), ("X".to_string(), "a=b".to_string()));
    assert_eq!(split_assignment("X="), ("X".to_string(), "".to_string()));
    assert_eq!(split_assignment("X"), ("X".to_string(), "".to_string()));
    assert_eq!(split_assignment("=v"), ("".to_string(), "v".to_string()));
}

#[test]
fn qualified_names_split_at_double_colon() {
    assert_eq!(split_qualified("ns::name"), Some(("ns".to_string(), "name".to_string())));
    assert_eq!(split_qualified("a::b::c"), Some(("a".to_string(), "b".to_string())));
    assert_eq!(split_qualified("plain"), None);
    assert_eq!(split_qualified("a:b"), None);
    assert_eq!(split_qualified("::x"), Some(("".to_string(), "x".to_string())));
    assert_eq!(split_qualified("x::"), Some(("x".to_string(), "".to_string())));
}

#[test]
fn fields_are_split_at_white_space() {
    assert_eq!(split_fields(&chars_of("ls -l  /tmp")), vec!["ls", "-l", "/tmp"]);
    assert_eq!(split_fields(&chars_of("  lead and trail \t\n")), vec!["lead", "and", "trail"]);
    assert!(split_fields(&chars_of("   ")).is_empty());
    assert!(split_fields(&chars_of("")).is_empty());
}

#[test]
fn white_space_is_the_unicode_set() {
    for c in [' ', '\t', '\n', '\r', '\u{b}', '\u{c}', '\u{85}', '\u{a0}', '\u{2003}', '\u{3000}'] {
        assert!(char_is_whitespace(c));
        assert!(c.is_whitespace());
    }
    for c in ['a', '0', '_', '\u{200b}', '\u{feff}'] {
        assert!(!char_is_whitespace(c));
        assert!(!c.is_whitespace());
    }
}

#[test]
fn contains_finds_a_character() {
    assert!(str_contains("a/b", '/'));
    assert!(!str_contains("ab", '/'));
    assert!(!str_contains("", '/'));
}

#[test]
fn numbers_parse_with_an_optional_sign() {
    assert_eq!(parse_i32("0"), Some(0));
    assert_eq!(parse_i32("42"), Some(42));
    assert_eq!(parse_i32("+7"), Some(7));
    assert_eq!(parse_i32("-7"), Some(-7));
    assert_eq!(parse_i32("007"), Some(7));
    assert_eq!(parse_i32("2147483647"), Some(i32::MAX));
    assert_eq!(parse_i32("-2147483648"), Some(i32::MIN));
}

#[test]
fn numbers_out_of_range_or_malformed_do_not_parse() {
    assert_eq!(parse_i32("2147483648"), None);
    assert_eq!(parse_i32("-2147483649"), None);
    assert_eq!(parse_i32("99999999999999999999999"), None);
    assert_eq!(parse_i32(""), None);
    assert_eq!(parse_i32("-"), None);
    assert_eq!(parse_i32("+"), None);
    assert_eq!(parse_i32("12a"), None);
    assert_eq!(parse_i32(" 1"), None);
    assert_eq!(parse_i32("--1"), None);
}
