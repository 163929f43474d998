use soda_fuzz::text::{
    contains_str, find_from, parse_u16, parse_u64, replace_str, split_str, starts_with_str,
    u16_to_string, u64_to_string,
};

#[test]
fn find_first_occurrence() {
    assert_eq!(find_from("abcabc", "bc", 0), Some(1));
    assert_eq!(find_from("abcabc", "bc", 2), Some(4));
    assert_eq!(find_from("abcabc", "bc", 5), None);
    assert_eq!(find_from("abcabc", "zz", 0), None);
    assert_eq!(find_from("abc", "", 1), Some(1));
}

#[test]
fn contains_and_prefix() {
    assert!(contains_str("http://x/?u={!}", "{!}"));
    assert!(!contains_str("http://x/?u=v", "{!}"));
    assert!(starts_with_str("http://x", "http://"));
    assert!(!starts_with_str("htt", "http://"));
    assert!(!starts_with_str("ftp://x", "http://"));
}

#[test]
fn split_on_delimiter() {
    let parts = split_str("a,b,,c", ",");
    assert_eq!(parts, vec!["a".to_string(), "b".to_string(), "".to_string(), "c".to_string()]);
    let whole = split_str("abc", ",");
    assert_eq!(whole, vec!["abc".to_string()]);
    let lines = split_str("a\r\nb\r\nc", "\r\n");
    assert_eq!(lines, vec!["a".to_string(), "b".to_string(), "c".to_string()]);
    let trailing = split_str("a\nb\n", "\n");
    assert_eq!(trailing, vec!["a".to_string(), "b".to_string(), "".to_string()]);
}

#[test]
fn replace_all_occurrences() {
    assert_eq!(replace_str("x{!}y{!}", "{!}", "Z"), "xZyZ");
    assert_eq!(replace_str("http://x/?u={!}", "{!}", "root"), "http://x/?u=root");
    assert_eq!(replace_str("no token here", "{!}", "root"), "no token here");
}

#[test]
fn decimal_formatting() {
    assert_eq!(u64_to_string(0), "0");
    assert_eq!(u64_to_string(7), "7");
    assert_eq!(u64_to_string(40567), "40567");
    assert_eq!(u64_to_string(u64::MAX), "18446744073709551615");
    assert_eq!(u16_to_string(200), "200");
    assert_eq!(u16_to_string(65535), "65535");
}

#[test]
fn decimal_parsing() {
    assert_eq!(parse_u64("123"), Some(123));
    assert_eq!(parse_u64("0"), Some(0));
    assert_eq!(parse_u64(""), None);
    assert_eq!(parse_u64("12a"), None);
    assert_eq!(parse_u64("-3"), None);
    assert_eq!(parse_u64("18446744073709551615"), Some(u64::MAX));
    assert_eq!(parse_u64("18446744073709551616"), None);
    assert_eq!(parse_u16("200"), Some(200));
    assert_eq!(parse_u16("65536"), None);
    assert_eq!(parse_u16("70000"), None);
}
