use dljobs::lifecycle::split_string_lines;
use dljobs::numfmt::i32_string;
use dljobs::profiles::parse_profiles;
use dljobs::text::{chars_of, contains_char, remove_all, string_of, trim_spaces};

#[test]
fn profile_listing_is_cleaned() {
    let raw = "\x1b[32m\u{2713} profileA\x1b[0m\nother text\n";
    assert_eq!(parse_profiles(raw), vec!["profileA".to_string()]);
}

#[test]
fn profile_listing_without_marker_is_empty() {
    assert_eq!(parse_profiles("no marks here\nat all\n"), Vec::<String>::new());
    assert_eq!(parse_profiles(""), Vec::<String>::new());
}

#[test]
fn profile_listing_keeps_order_of_marked_lines() {
    let raw = "\u{2713} one\nskip\n\x1b[32m\u{2713} two\x1b[0m\n\u{2713}  three  \n";
    assert_eq!(
        parse_profiles(raw),
        vec!["one".to_string(), "two".to_string(), "three".to_string()]
    );
}

#[test]
fn decimal_rendering_is_exact() {
    assert_eq!(i32_string(0), "0");
    assert_eq!(i32_string(2), "2");
    assert_eq!(i32_string(-1), "-1");
    assert_eq!(i32_string(123), "123");
    assert_eq!(i32_string(-456), "-456");
    assert_eq!(i32_string(i32::MAX), "2147483647");
    assert_eq!(i32_string(i32::MIN), "-2147483648");
}

#[test]
fn lines_split_at_newlines_and_strip_carriage_returns() {
    assert_eq!(
        split_string_lines("a\r\nb\nc"),
        vec!["a".to_string(), "b".to_string(), "c".to_string()]
    );
    assert_eq!(split_string_lines(""), Vec::<String>::new());
    assert_eq!(split_string_lines("\n"), vec!["".to_string()]);
    assert_eq!(split_string_lines("a\r"), vec!["a\r".to_string()]);
    assert_eq!(split_string_lines("a\n\nb"), vec![
        "a".to_string(),
        "".to_string(),
        "b".to_string()
    ]);
}

#[test]
fn removal_is_left_to_right_and_non_overlapping() {
    let s = chars_of("aaa");
    let pat = chars_of("aa");
    assert_eq!(string_of(&remove_all(&s, &pat)), "a");
    let s2 = chars_of("xabcabcx");
    let pat2 = chars_of("abc");
    assert_eq!(string_of(&remove_all(&s2, &pat2)), "xx");
    let s3 = chars_of("plain");
    let pat3 = chars_of("zz");
    assert_eq!(string_of(&remove_all(&s3, &pat3)), "plain");
}

#[test]
fn trimming_strips_both_ends_only() {
    assert_eq!(string_of(&trim_spaces(&chars_of("  a b \t\r\n"))), "a b");
    assert_eq!(string_of(&trim_spaces(&chars_of(""))), "");
    assert_eq!(string_of(&trim_spaces(&chars_of("   "))), "");
    assert_eq!(string_of(&trim_spaces(&chars_of("x"))), "x");
}

#[test]
fn character_search_finds_only_present_characters() {
    let s = chars_of("ab\u{2713}c");
    assert!(contains_char(&s, '\u{2713}'));
    assert!(contains_char(&s, 'a'));
    assert!(!contains_char(&s, 'z'));
    assert!(!contains_char(&chars_of(""), 'a'));
}

#[test]
fn char_round_trip_preserves_text() {
    let text = "mixed \u{2713} unicode \x1b[32m and ascii";
    assert_eq!(string_of(&chars_of(text)), text);
}
