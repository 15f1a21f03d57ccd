use cache_proxy::text::{chars_of, decimal_text, same_text};

#[test]
fn numerals_have_no_leading_zeros() {
    assert_eq!(decimal_text(0), "0");
    assert_eq!(decimal_text(7), "7");
    assert_eq!(decimal_text(9), "9");
    assert_eq!(decimal_text(10), "10");
    assert_eq!(decimal_text(100), "100");
    assert_eq!(decimal_text(12345), "12345");
    assert_eq!(decimal_text(60909), "60909");
    assert_eq!(decimal_text(u16::MAX), "65535");
}

#[test]
fn numerals_agree_with_the_standard_rendering() {
    for n in (0..=u16::MAX).step_by(37) {
        assert_eq!(decimal_text(n), n.to_string());
    }
}

#[test]
fn characters_come_in_order() {
    assert_eq!(chars_of(""), Vec::<char>::new());
    assert_eq!(chars_of("a\u{e9}\u{1F600}z"), vec!['a', '\u{e9}', '\u{1F600}', 'z']);
}

#[test]
fn texts_are_compared_exactly() {
    assert!(same_text("", ""));
    assert!(same_text("host", "host"));
    assert!(!same_text("host", "Host"));
    assert!(!same_text("host", "hos"));
    assert!(!same_text("host", "host "));
}
