use branchgate::text::{
    ascii_lowercase, chars_of, contains_chars, ends_with, find_char, i64_text, join_chars, lines_of, non_empty_of,
    parse_i64, parse_u32, replace_chars, split_chars, string_of, trim_chars, trim_end_chars,
    trim_str, u64_text, words_of,
};

fn text(cs: &[char]) -> String {
    string_of(cs)
}

fn texts(parts: &[Vec<char>]) -> Vec<String> {
    parts.iter().map(|p| string_of(p)).collect()
}

#[test]
fn string_of_rebuilds_the_text() {
    assert_eq!(string_of(&chars_of("héllo → ✓")), "héllo → ✓");
    assert_eq!(string_of(&[]), "");
}

#[test]
fn trimming_drops_unicode_whitespace_at_both_ends() {
    assert_eq!(text(&trim_str("\u{a0} \t a b \r\n")), "a b");
    assert_eq!(text(&trim_chars(&chars_of("   "))), "");
    assert_eq!(text(&trim_end_chars(&chars_of("a\\b\\\\"), '\\')), "a\\b");
}

#[test]
fn lines_split_at_newlines_and_drop_carriage_returns() {
    assert_eq!(texts(&lines_of(&chars_of("a\r\nb\n\nc"))), vec!["a", "b", "", "c"]);
    assert_eq!(texts(&lines_of(&chars_of("a\n"))), vec!["a"]);
    assert!(lines_of(&chars_of("")).is_empty());
}

#[test]
fn split_and_words() {
    assert_eq!(texts(&split_chars(&chars_of("a\t\tb"), '\t')), vec!["a", "", "b"]);
    assert_eq!(texts(&split_chars(&chars_of(""), ',')), vec![""]);
    assert_eq!(texts(&words_of(&chars_of("  one\ttwo \n three "))), vec!["one", "two", "three"]);
    assert_eq!(texts(&non_empty_of(split_chars(&chars_of("\\a\\\\b\\"), '\\'))), vec!["a", "b"]);
}

#[test]
fn numbers_parse_and_print() {
    assert_eq!(parse_i64(&chars_of("-42")), Some(-42));
    assert_eq!(parse_i64(&chars_of("9223372036854775807")), Some(i64::MAX));
    assert_eq!(parse_i64(&chars_of("9223372036854775808")), None);
    assert_eq!(parse_i64(&chars_of("12a")), None);
    assert_eq!(parse_i64(&chars_of("")), None);
    assert_eq!(parse_u32(&chars_of("4294967295")), Some(u32::MAX));
    assert_eq!(parse_u32(&chars_of("4294967296")), None);
    assert_eq!(parse_u32(&chars_of("-1")), None);
    assert_eq!(u64_text(0), "0");
    assert_eq!(u64_text(1234567890123), "1234567890123");
    assert_eq!(i64_text(-7), "-7");
    assert_eq!(i64_text(i64::MIN), "-9223372036854775808");
}

#[test]
fn small_text_helpers() {
    assert_eq!(text(&ascii_lowercase(&chars_of("AbC-É"))), "abc-É");
    assert_eq!(text(&replace_chars(&chars_of("a/b/c"), '/', '\\')), "a\\b\\c");
    assert_eq!(find_char(&chars_of("ab=c=d"), '='), Some(2));
    assert_eq!(find_char(&chars_of("abc"), '='), None);
    assert!(ends_with(&chars_of("x.BAT"), &chars_of(".BAT")));
    assert!(!ends_with(&chars_of("t"), &chars_of("bat")));
    let parts = vec![chars_of("home"), chars_of("me")];
    assert_eq!(text(&join_chars(&parts, &chars_of("/"))), "home/me");
}

#[test]
fn contains_finds_inner_text() {
    assert!(contains_chars(&chars_of("abcUNIQUEx"), &chars_of("UNIQUE")));
    assert!(contains_chars(&chars_of("abc"), &chars_of("")));
    assert!(!contains_chars(&chars_of("UNIQU"), &chars_of("UNIQUE")));
    assert!(contains_chars(&chars_of("aab"), &chars_of("ab")));
}
