use bridgetest::settings::checked_port;
use bridgetest::text::{
    contains_str, ends_with, owned, parse_u32, push_decimal, replace_all, split_fields, starts_with,
    str_eq, strip_prefix,
};

#[test]
fn string_comparisons() {
    assert!(str_eq("abc", "abc"));
    assert!(!str_eq("abc", "abd"));
    assert!(starts_with("NB_slab", "NB_"));
    assert!(!starts_with("N", "NB_"));
    assert!(ends_with("x.b3d", ".b3d"));
    assert!(!ends_with("x.png", ".b3d"));
    assert_eq!(strip_prefix("trade_5", "trade_"), Some("5"));
    assert_eq!(strip_prefix("loom_5", "trade_"), None);
    assert_eq!(owned("héllo"), "héllo");
    assert!(contains_str(&vec![String::from("a"), String::from("b")], "b"));
}

#[test]
fn parse_numbers_like_std() {
    for s in ["0", "42", "+7", "4294967295", "4294967296", "", "+", "-1", "1a", "007"] {
        assert_eq!(parse_u32(s), s.parse::<u32>().ok(), "input {s:?}");
    }
}

#[test]
fn decimals() {
    let mut s = String::from("x");
    push_decimal(&mut s, 0);
    push_decimal(&mut s, 1200);
    assert_eq!(s, "x01200");
}

#[test]
fn replace_like_std() {
    for (s, p, r) in [("aaa", "aa", "b"), ("./a/./b", "./", ""), ("abc", "x", "y"), ("", "a", "b"), ("a-b-c", "-", "/")] {
        assert_eq!(replace_all(s, p, r), s.replace(p, r));
    }
}

#[test]
fn split_on_commas() {
    assert_eq!(split_fields("a=1,,b=2,"), vec![String::from("a=1"), String::from("b=2")]);
    assert!(split_fields("").is_empty());
    assert!(split_fields(",,").is_empty());
}

#[test]
fn port_arguments() {
    assert_eq!(checked_port(30000), Some(30000));
    assert_eq!(checked_port(0), Some(0));
    assert_eq!(checked_port(65535), Some(65535));
    assert_eq!(checked_port(65536), None);
    assert_eq!(checked_port(-1), None);
}

#[test]
fn char_search() {
    assert!(bridgetest::text::contains_char("a@b", '@'));
    assert!(!bridgetest::text::contains_char("ab", '@'));
}
