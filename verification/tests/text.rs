use psroot::paths::{file_name_of, parent_of};
use psroot::show::{bool_text, debug_list, join_texts, pad, repeat_char};
use psroot::text::{
    chars_of, char_is_space, concat2, concat5, contains, decimal_text, ends_with, find_char,
    hex_text, lower, parse_number, rfind_char, same, slice_of, split_char, splitn_char,
    starts_with, string_of, trimmed, trimmed_end_of, trimmed_start_of,
};
use psroot::wide::{encode_utf16, make_unicode_string, to_wide};

fn list(parts: &[&str]) -> Vec<String> {
    parts.iter().map(|s| s.to_string()).collect()
}

#[test]
fn texts_are_taken_apart() {
    assert_eq!(chars_of("a\u{e9}"), vec!['a', '\u{e9}']);
    assert_eq!(string_of(&['a', 'b']), "ab");
    assert_eq!(slice_of(&['a', 'b', 'c'], 1, 3), "bc");
    assert_eq!(split_char("a:b::c", ':'), list(&["a", "b", "", "c"]));
    assert_eq!(split_char("", ':'), list(&[""]));
    assert_eq!(splitn_char("a:b:c", 2, ':'), list(&["a", "b:c"]));
    assert_eq!(find_char(&['a', 'b', 'a'], 'a'), Some(0));
    assert_eq!(rfind_char(&['a', 'b', 'a'], 'a'), Some(2));
    assert_eq!(find_char(&['a'], 'x'), None);
}

#[test]
fn texts_are_compared() {
    assert!(same("ab", "ab"));
    assert!(!same("ab", "Ab"));
    assert!(contains("xaby", "ab"));
    assert!(contains("x", ""));
    assert!(!contains("xay", "ab"));
    assert!(starts_with("abc", "ab"));
    assert!(ends_with("abc", "bc"));
    assert!(!ends_with("c", "bc"));
}

#[test]
fn texts_are_trimmed() {
    assert_eq!(trimmed(" \t a b \u{a0}\n"), "a b");
    assert_eq!(trimmed("  "), "");
    assert_eq!(trimmed_start_of("--x-", '-'), "x-");
    assert_eq!(trimmed_end_of("-x--", '-'), "-x");
    assert!(char_is_space('\u{3000}'));
    assert!(!char_is_space('x'));
    assert_eq!(lower("ABC\u{c9}"), "abc\u{c9}");
    assert_eq!(concat2("a", "b"), "ab");
    assert_eq!(concat5("a", "b", "c", "d", "e"), "abcde");
}

#[test]
fn numbers_are_written_and_read() {
    assert_eq!(decimal_text(0), "0");
    assert_eq!(decimal_text(12045), "12045");
    assert_eq!(hex_text(0xbeef, 8), "0000beef");
    assert_eq!(hex_text(0x12345, 4), "12345");
    assert_eq!(parse_number("12045", 65535), Some(12045));
    assert_eq!(parse_number("+7", 65535), Some(7));
    assert_eq!(parse_number("65536", 65535), None);
    assert_eq!(parse_number("", 65535), None);
    assert_eq!(parse_number("1x", 65535), None);
    assert_eq!(parse_number(&decimal_text(u64::MAX as u128), u64::MAX), Some(u64::MAX));
}

#[test]
fn texts_are_laid_out() {
    assert_eq!(pad("ab", 4), "ab  ");
    assert_eq!(pad("abcde", 4), "abcde");
    assert_eq!(repeat_char('-', 3), "---");
    assert_eq!(join_texts(&list(&["a", "b", "c"]), ", "), "a, b, c");
    assert_eq!(join_texts(&list(&[]), ", "), "");
    assert_eq!(debug_list(&list(&["a", "q\"\n"])), "[\"a\", \"q\\\"\\n\"]");
    assert_eq!(debug_list(&list(&[])), "[]");
    assert_eq!(bool_text(true), "true");
}

#[test]
fn texts_become_code_units() {
    let text = "a\u{20ac}\u{1f600}";
    let units: Vec<u16> = text.encode_utf16().collect();
    assert_eq!(encode_utf16(text), units);
    let mut ended = units.clone();
    ended.push(0);
    assert_eq!(to_wide(text), ended);
    assert_eq!(make_unicode_string(text), (ended, 8, 10));
    assert_eq!(make_unicode_string("").1, 0);
}

#[test]
fn paths_are_taken_apart() {
    assert_eq!(file_name_of("C:\\a\\b.exe"), Some("b.exe".to_string()));
    assert_eq!(file_name_of("C:\\a\\"), Some("a".to_string()));
    assert_eq!(file_name_of("C:\\"), None);
    assert_eq!(parent_of("C:\\a\\b.exe"), Some("C:\\a".to_string()));
    assert_eq!(parent_of("C:\\a"), Some("C:\\".to_string()));
    assert_eq!(parent_of("C:\\"), None);
    assert_eq!(parent_of("a"), Some("".to_string()));
}
