use gal::text::{
    chars_of, decimal_text, has_text, joined, same_text, signed_decimal_text, stands_at,
    text_between, trim, trim_end,
};

#[test]
fn numbers_are_written_in_decimal() {
    assert_eq!(decimal_text(0), "0");
    assert_eq!(decimal_text(9), "9");
    assert_eq!(decimal_text(10), "10");
    assert_eq!(decimal_text(u64::MAX), "18446744073709551615");
}

#[test]
fn negative_numbers_have_a_sign() {
    assert_eq!(signed_decimal_text(-120), "-120");
    assert_eq!(signed_decimal_text(0), "0");
    assert_eq!(signed_decimal_text(i64::MAX), "9223372036854775807");
    assert_eq!(signed_decimal_text(i64::MIN + 1), "-9223372036854775807");
}

#[test]
fn decimals_have_no_more_digits_than_needed() {
    assert_eq!(decimal_text(999).len(), 3);
    assert_eq!(decimal_text(1000).len(), 4);
}

#[test]
fn texts_are_trimmed_of_unicode_white_space() {
    assert_eq!(trim(" \t\u{a0}a b\u{3000}\r\n"), "a b");
    assert_eq!(trim("\u{2003}\u{85}"), "");
    assert_eq!(trim_end("  x \u{2009}"), "  x");
    // The zero width space is no white space.
    assert_eq!(trim("\u{200b}x"), "\u{200b}x");
}

#[test]
fn texts_are_searched() {
    let hay = chars_of("banana");
    assert!(has_text(&hay, &chars_of("nan")));
    assert!(has_text(&hay, &chars_of("ana")));
    assert!(has_text(&hay, &chars_of("")));
    assert!(!has_text(&hay, &chars_of("nab")));
    assert!(!has_text(&chars_of(""), &chars_of("a")));
    assert!(stands_at(&hay, &chars_of("na"), 4));
    assert!(!stands_at(&hay, &chars_of("na"), 5));
}

#[test]
fn texts_are_compared_and_put_together() {
    assert!(same_text("é", "é"));
    assert!(!same_text("e", "é"));
    assert!(!same_text("a", "ab"));
    assert_eq!(joined("⏵", " x"), "⏵ x");
    assert_eq!(text_between(&chars_of("héllo"), 1, 3), "él");
}

#[test]
fn trimmed_texts_stay() {
    let trimmed = trim("\u{2028} a\tb \u{1680}");
    assert_eq!(trimmed, "a\tb");
    assert_eq!(trim(&trimmed), trimmed);
}
