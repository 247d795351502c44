use agentlane::text::{contains, decimal_text, is_blank, signed_decimal_text, truncate};

#[test]
fn short_texts_are_kept() {
    assert_eq!(truncate("abc", 3), "abc");
    assert_eq!(truncate("", 0), "");
}

#[test]
fn long_texts_are_cut_with_an_ellipsis() {
    assert_eq!(truncate("abcd", 3), "abc\u{2026}");
    assert_eq!(truncate("\u{e4}\u{f6}\u{fc}", 2), "\u{e4}\u{f6}\u{2026}");
    assert_eq!(truncate("x", 0), "\u{2026}");
}

#[test]
fn a_mark_past_the_cut_is_kept_by_another_cut() {
    let once = truncate("abcdef", 3);
    assert_eq!(truncate(&once, 3), once);
}

#[test]
fn blank_texts() {
    assert!(is_blank(""));
    assert!(is_blank(" \t\n\u{3000}"));
    assert!(!is_blank(" x "));
}

#[test]
fn numbers_in_decimal() {
    assert_eq!(decimal_text(0), "0");
    assert_eq!(decimal_text(u64::MAX), "18446744073709551615");
    assert_eq!(signed_decimal_text(-1), "-1");
    assert_eq!(signed_decimal_text(i32::MIN), "-2147483648");
}

#[test]
fn looking_for_a_piece() {
    assert!(contains("xpwshy", "pwsh"));
    assert!(!contains("pws", "pwsh"));
    assert!(contains("", ""));
}
