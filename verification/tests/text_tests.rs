use nodebook::text::{
    fmt_dec, join, parse_u64, push_padded, replace_str, split, split_once, split_whitespace,
    take_first_chars, trim, trim_matching, CharSet,
};

#[test]
fn parse_u64_accepts_digits_and_plus() {
    assert_eq!(parse_u64("42"), Some(42));
    assert_eq!(parse_u64("+7"), Some(7));
    assert_eq!(parse_u64("18446744073709551615"), Some(u64::MAX));
}

#[test]
fn parse_u64_rejects_overflow_and_junk() {
    assert_eq!(parse_u64("18446744073709551616"), None);
    assert_eq!(parse_u64(""), None);
    assert_eq!(parse_u64("+"), None);
    assert_eq!(parse_u64("-1"), None);
    assert_eq!(parse_u64("1a"), None);
}

#[test]
fn split_keeps_empty_pieces() {
    assert_eq!(split("a&&b", '&'), vec!["a".to_string(), String::new(), "b".to_string()]);
    assert_eq!(split("", '&'), vec![String::new()]);
}

#[test]
fn split_once_at_first() {
    assert_eq!(split_once("a=b=c", '='), Some(("a".to_string(), "b=c".to_string())));
    assert_eq!(split_once("abc", '='), None);
}

#[test]
fn whitespace_words_and_join() {
    let ws = split_whitespace("  one\ttwo \n three ");
    assert_eq!(ws, vec!["one".to_string(), "two".to_string(), "three".to_string()]);
    assert_eq!(join(&ws, ", "), "one, two, three");
    assert_eq!(join(&Vec::new(), ", "), "");
}

#[test]
fn trims_and_replaces() {
    assert_eq!(trim("\u{3000} hi \n"), "hi");
    assert_eq!(trim_matching("(\"Artist\")", CharSet::BracketOrQuote), "Artist");
    assert_eq!(replace_str("aaa", "aa", "b"), "ba");
}

#[test]
fn padding_and_decimal() {
    let mut s = String::new();
    push_padded(&mut s, "12", 4, ' ');
    assert_eq!(s, "  12");
    assert_eq!(fmt_dec(0), "0");
    assert_eq!(fmt_dec(1234567890), "1234567890");
}

#[test]
fn unicode_lowercase_and_prefix() {
    assert_eq!(nodebook::bot::word_tag("#ÀBC_Привет!"), Some("àbc_привет".to_string()));
    assert_eq!(take_first_chars("Привет", 3), "При");
    assert_eq!(take_first_chars("ab", 5), "ab");
}
