use klawply::decimal::{size_decimal, to_decimal, to_padded};
use klawply::text::{
    blank, chars_of, chained, drop_last_char, same, same_ignoring_case, string_between,
    to_ascii_lower, trim, upper_char, white,
};
use klawply::utf8::{len_bytes, truncate};
use klawply::words::{
    contains, ends_with, find_char, join, rfind_char, split, split_once, starts_with,
    strip_prefix, word_two,
};

#[test]
fn trimming_goes_by_unicode_white_space() {
    assert_eq!(trim("  a b\t\r\n"), "a b");
    assert_eq!(trim("\u{a0}x\u{3000}"), "x");
    assert_eq!(trim(" \n "), "");
    assert!(white('\u{2028}'));
    assert!(!white('\u{200b}'));
    assert!(blank(" \u{85}"));
    assert!(!blank(" ."));
}

#[test]
fn white_space_is_what_std_calls_white_space() {
    for u in 0..0x11_0000u32 {
        if let Some(c) = char::from_u32(u) {
            assert_eq!(white(c), c.is_whitespace());
        }
    }
}

#[test]
fn case_is_folded_for_ascii_only() {
    assert_eq!(to_ascii_lower("ÄBC"), "Äbc");
    assert!(same_ignoring_case("/LOGIN", "/login"));
    assert!(!same_ignoring_case("É", "é"));
    assert_eq!(upper_char('z'), 'Z');
    assert_eq!(upper_char('ß'), 'ß');
}

#[test]
fn last_character_is_dropped() {
    assert_eq!(drop_last_char("añ"), "a");
    assert_eq!(drop_last_char(""), "");
}

#[test]
fn characters_and_ranges() {
    let v = chars_of("héllo");
    assert_eq!(v.len(), 5);
    assert_eq!(string_between(&v, 1, 3), "él");
    assert_eq!(chained("a", "b"), "ab");
    assert!(same("x", "x"));
    assert!(!same("x", "y"));
}

#[test]
fn searching() {
    assert!(contains("response.output_text.delta", "output_text"));
    assert!(contains("abc", ""));
    assert!(!contains("ab", "abc"));
    assert!(starts_with("https://x", "https://"));
    assert!(ends_with("a.delta", "delta"));
    assert!(!ends_with("delta.", "delta"));
    assert_eq!(strip_prefix("data: x", "data:"), Some(" x".to_string()));
    assert_eq!(strip_prefix("datum", "data:"), None);
    let v = chars_of("a{b}c}");
    assert_eq!(find_char(&v, '{'), 1);
    assert_eq!(find_char(&v, '!'), 6);
    assert_eq!(rfind_char(&v, '}'), Some(5));
    assert_eq!(rfind_char(&v, '!'), None);
}

#[test]
fn splitting() {
    assert_eq!(split("a.b..c", '.'), ["a", "b", "", "c"]);
    assert_eq!(split("", '.'), [""]);
    assert_eq!(split_once("k=v=w", '='), Some(("k".to_string(), "v=w".to_string())));
    assert_eq!(split_once("kv", '='), None);
    assert_eq!(word_two("GET  /x HTTP/1.1\r"), Some("/x".to_string()));
    assert_eq!(word_two("GET "), None);
}

#[test]
fn joining() {
    let parts: Vec<String> = vec!["a".into(), "b".into(), "c".into()];
    assert_eq!(join(&parts, ", "), "a, b, c");
    assert_eq!(join(&vec!["a".to_string()], ", "), "a");
    assert_eq!(join(&Vec::new(), ", "), "");
}

#[test]
fn decimal_numbers() {
    assert_eq!(to_decimal(0), "0");
    assert_eq!(to_decimal(u64::MAX), "18446744073709551615");
    assert_eq!(size_decimal(1024), "1024");
    assert_eq!(to_padded(7, 2), "07");
    assert_eq!(to_padded(123, 2), "123");
}

#[test]
fn truncation_keeps_what_fits() {
    assert_eq!(len_bytes("aé€"), 6);
    assert_eq!(truncate("hello", 5), "hello");
    assert_eq!(truncate("hello", 3), "hel…[truncated 2 bytes]");
}

#[test]
fn truncation_never_cuts_a_character() {
    assert_eq!(truncate("aé€", 4), "aé…[truncated 3 bytes]");
    assert_eq!(truncate("aé€", 2), "a…[truncated 5 bytes]");
    assert_eq!(truncate("€", 2), "…[truncated 3 bytes]");
}
