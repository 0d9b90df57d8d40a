use rustway::text::{
    char_len, chars_of, joined, decimal_string, owned, push_decimal, replace_all, skip_chars,
    starts_with, str_eq,
};

#[test]
fn decimal_string_of_zero_is_one_digit() {
    assert_eq!(decimal_string(0), "0");
}

#[test]
fn decimal_string_writes_every_digit() {
    assert_eq!(decimal_string(7), "7");
    assert_eq!(decimal_string(10), "10");
    assert_eq!(decimal_string(1234567890), "1234567890");
    assert_eq!(decimal_string(u64::MAX), "18446744073709551615");
}

#[test]
fn push_decimal_appends() {
    let mut s = String::from("n=");
    push_decimal(&mut s, 405);
    assert_eq!(s, "n=405");
}

#[test]
fn chars_of_keeps_order_and_unicode() {
    assert_eq!(chars_of("a/é"), vec!['a', '/', 'é']);
    assert_eq!(chars_of(""), Vec::<char>::new());
    assert_eq!(char_len("a/é"), 3);
}

#[test]
fn str_eq_compares_contents() {
    assert!(str_eq("/api", "/api"));
    assert!(!str_eq("/api", "/api/"));
    assert!(!str_eq("/api/", "/api"));
    assert!(!str_eq("/apa", "/api"));
    assert!(str_eq("", ""));
}

#[test]
fn starts_with_is_a_prefix_test() {
    assert!(starts_with("/api/v1/users", "/api"));
    assert!(starts_with("/api", "/api"));
    assert!(starts_with("/api", ""));
    assert!(!starts_with("/ap", "/api"));
    assert!(!starts_with("/other", "/api"));
}

#[test]
fn skip_chars_drops_a_prefix() {
    assert_eq!(skip_chars("/api/v1", 4), "/v1");
    assert_eq!(skip_chars("/api", 4), "");
    assert_eq!(skip_chars("/api", 9), "");
    assert_eq!(skip_chars("é/x", 1), "/x");
}

#[test]
fn concat_and_owned_copy_text() {
    assert_eq!(joined("ab", "cd"), "abcd");
    assert_eq!(owned("xyz"), "xyz");
}

#[test]
fn replace_all_replaces_every_occurrence() {
    assert_eq!(replace_all("http://a/http://b", "http://", "ws://"), "ws://a/ws://b");
    assert_eq!(replace_all("aaa", "aa", "b"), "ba");
    assert_eq!(replace_all("abc", "x", "y"), "abc");
    assert_eq!(replace_all("abc", "", "y"), "abc");
    assert_eq!(replace_all("", "a", "b"), "");
    assert_eq!(replace_all("abab", "ab", ""), "");
}
