use projj::numbers::{decimal_string, parse_usize};
use projj::paths::{file_name, path_join, path_less};

#[test]
fn decimal_strings() {
    assert_eq!(decimal_string(0), "0");
    assert_eq!(decimal_string(7), "7");
    assert_eq!(decimal_string(1234), "1234");
}

#[test]
fn parse_usize_cases() {
    assert_eq!(parse_usize("0"), Some(0));
    assert_eq!(parse_usize("42"), Some(42));
    assert_eq!(parse_usize("+5"), Some(5));
    assert_eq!(parse_usize("+"), None);
    assert_eq!(parse_usize(""), None);
    assert_eq!(parse_usize("-1"), None);
    assert_eq!(parse_usize("1a"), None);
    assert_eq!(parse_usize("99999999999999999999999999"), None);
    assert_eq!(parse_usize(&usize::MAX.to_string()), Some(usize::MAX));
}

#[test]
fn parse_of_decimal_roundtrip() {
    for n in [0usize, 1, 9, 10, 255, 65536, usize::MAX] {
        assert_eq!(parse_usize(&decimal_string(n)), Some(n));
    }
}

#[test]
fn path_join_cases() {
    assert_eq!(path_join("/a", "b"), "/a/b");
    assert_eq!(path_join("/a/", "b"), "/a/b");
    assert_eq!(path_join("/a", "/b"), "/b");
    assert_eq!(path_join("", "b"), "b");
}

#[test]
fn file_name_cases() {
    assert_eq!(file_name("/home/u/code"), Some("code".to_string()));
    assert_eq!(file_name("/home/u/code/"), Some("code".to_string()));
    assert_eq!(file_name("/"), None);
    assert_eq!(file_name("a/.."), None);
    assert_eq!(file_name(""), None);
}

#[test]
fn path_order_by_components() {
    assert!(path_less("/b/a/r", "/b/a-b/r"));
    assert!(!path_less("/b/a-b/r", "/b/a/r"));
    assert!(path_less("/a", "/a/b"));
    assert!(!path_less("/a/b", "/a/b"));
    assert!(path_less("/a//b", "/a/c"));
    assert!(!path_less("/a/./b", "/a/b"));
}
