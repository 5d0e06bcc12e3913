use point_monitor::text::{join_strings, str_contains, str_eq};

#[test]
fn str_eq_compares_whole_texts() {
    assert!(str_eq("abc", "abc"));
    assert!(!str_eq("abc", "abd"));
    assert!(!str_eq("abc", "ab"));
    assert!(str_eq("", ""));
}

#[test]
fn str_contains_finds_substrings() {
    assert!(str_contains("hello world", "lo w"));
    assert!(str_contains("hello", ""));
    assert!(!str_contains("hello", "world"));
    assert!(!str_contains("", "a"));
}

#[test]
fn join_strings_puts_separator_between_parts() {
    let parts = vec!["a".to_string(), "b".to_string(), "c".to_string()];
    assert_eq!(join_strings(&parts, ", "), "a, b, c");
    assert_eq!(join_strings(&Vec::new(), ","), "");
    assert_eq!(join_strings(&vec!["x".to_string()], ","), "x");
}
