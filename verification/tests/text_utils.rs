//! The shared text primitives through their public faces: numbers,
//! tokens, searching and trimming.

use android_checker::text::{
    find_char, find_last_char, find_str, join_tokens, parse_dec_tenths,
};

// Only the helpers with a test-friendly exec face are exercised here; the
// parsers in the other test files drive the rest (lines, tokens, number
// reading) end to end.

#[test]
fn decimal_tenths_honor_one_fraction_digit() {
    assert_eq!(parse_dec_tenths("12"), 120);
    assert_eq!(parse_dec_tenths("12.5"), 125);
    assert_eq!(parse_dec_tenths("12.59"), 125);
    assert_eq!(parse_dec_tenths("0.5"), 5);
    assert_eq!(parse_dec_tenths(".5"), 5);
    assert_eq!(parse_dec_tenths("7."), 70);
    assert_eq!(parse_dec_tenths("."), 0);
    assert_eq!(parse_dec_tenths(""), 0);
    assert_eq!(parse_dec_tenths("1a"), 0);
    assert_eq!(parse_dec_tenths("1.2.3"), 0);
}

#[test]
fn searching_finds_first_and_last() {
    assert_eq!(find_char("a=b=c", '='), 1);
    assert_eq!(find_char("abc", '='), 3);
    assert_eq!(find_last_char("a]b]c", ']'), 4);
    assert_eq!(find_last_char("abc", ']'), 0);
    assert_eq!(find_str("hello world", "world"), Some(6));
    assert_eq!(find_str("hello", "xyz"), None);
    assert_eq!(find_str("aaa", "aa"), Some(0));
}

#[test]
fn tokens_join_with_single_spaces() {
    let toks = vec!["a".to_string(), "b".to_string(), "c".to_string()];
    assert_eq!(join_tokens(&toks, 0), "a b c");
    assert_eq!(join_tokens(&toks, 1), "b c");
    assert_eq!(join_tokens(&toks, 3), "");
}
