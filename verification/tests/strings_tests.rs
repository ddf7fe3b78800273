use workflow_ux::strings::{
    contains_char, decimal_string, find_char, find_str, join_with, list_contains, matches_at,
    remove_str, replace_chars, replace_str, starts_with, str_eq, str_less, substring,
    utf8_len_exceeds,
};

#[test]
fn compares_strings() {
    assert!(str_eq("abc", "abc"));
    assert!(!str_eq("abc", "abd"));
    assert!(!str_eq("abc", "ab"));
    assert!(str_less("ab", "abc"));
    assert!(str_less("abc", "abd"));
    assert!(!str_less("abd", "abc"));
    assert!(!str_less("abc", "abc"));
    assert!(str_less("", "a"));
}

#[test]
fn finds_in_lists() {
    let list = vec!["one".to_string(), "two".to_string()];
    assert!(list_contains(&list, "two"));
    assert!(!list_contains(&list, "three"));
    assert!(!list_contains(&Vec::new(), ""));
}

#[test]
fn joins_with_separator() {
    let ws = vec!["a".to_string(), "bc".to_string(), "d".to_string()];
    assert_eq!(join_with(&ws, ", "), "a, bc, d");
    assert_eq!(join_with(&Vec::new(), ", "), "");
    assert_eq!(join_with(&vec!["x".to_string()], "-"), "x");
}

#[test]
fn finds_substrings() {
    assert!(starts_with("module_register_foo", "module_register_"));
    assert!(!starts_with("mod", "module"));
    assert!(matches_at("hello", "ll", 2));
    assert!(!matches_at("hello", "ll", 3));
    assert!(!matches_at("hello", "lo", 4));
    assert_eq!(find_str("a_wasm_b_wasm", "_wasm"), 1);
    assert_eq!(find_str("abc", "x"), 3);
    assert_eq!(find_str("abc", ""), 0);
}

#[test]
fn replaces_and_removes() {
    assert_eq!(replace_str("a-b-c", "-", "+"), "a+b+c");
    assert_eq!(replace_str("aaa", "aa", "b"), "ba");
    assert_eq!(replace_str("abc", "x", "y"), "abc");
    assert_eq!(remove_str("a_b_c", "_"), "abc");
    assert_eq!(replace_chars("a'b\"c", '\'', '"', "&quot;"), "a&quot;b&quot;c");
}

#[test]
fn finds_characters() {
    assert_eq!(find_char("Libravatar|abc", '|'), 10);
    assert_eq!(find_char("abc", '|'), 3);
    assert!(contains_char("a|b", '|'));
    assert!(!contains_char("ab", '|'));
}

#[test]
fn takes_substrings() {
    assert_eq!(substring("hello world", 6, 11), "world");
    assert_eq!(substring("hello", 2, 2), "");
    assert_eq!(substring("héllo", 1, 3), "él");
}

#[test]
fn measures_utf8_length() {
    assert!(!utf8_len_exceeds("abc", 3));
    assert!(utf8_len_exceeds("abcd", 3));
    // "é" takes two bytes.
    assert!(utf8_len_exceeds("aé", 2));
    assert!(!utf8_len_exceeds("aé", 3));
    assert!(utf8_len_exceeds("€", 2));
}

#[test]
fn writes_decimal_numbers() {
    assert_eq!(decimal_string(0), "0");
    assert_eq!(decimal_string(7), "7");
    assert_eq!(decimal_string(1234567890), "1234567890");
    assert_eq!(decimal_string(u64::MAX), "18446744073709551615");
}
