use chat_core::text::{join_texts, decimal_string, has_prefix, is_space_char, to_chars};

#[test]
fn decimal_string_writes_numbers() {
    assert_eq!(decimal_string(0), "0");
    assert_eq!(decimal_string(7), "7");
    assert_eq!(decimal_string(10), "10");
    assert_eq!(decimal_string(1234567890), "1234567890");
    assert_eq!(decimal_string(u64::MAX), "18446744073709551615");
}

#[test]
fn decimal_string_agrees_with_std() {
    let mut n: u64 = 1;
    for _ in 0..64 {
        assert_eq!(decimal_string(n), n.to_string());
        assert_eq!(decimal_string(n - 1), (n - 1).to_string());
        n = n.wrapping_mul(2);
    }
    for n in 0..2000u64 {
        assert_eq!(decimal_string(n), n.to_string());
    }
}

#[test]
fn join_texts_puts_two_texts_together() {
    assert_eq!(join_texts("ab", "cd"), "abcd");
    assert_eq!(join_texts("", "cd"), "cd");
    assert_eq!(join_texts("ab", ""), "ab");
}

#[test]
fn to_chars_gives_the_characters() {
    assert_eq!(to_chars("h\u{e9}\u{1f600}!"), vec!['h', '\u{e9}', '\u{1f600}', '!']);
    assert_eq!(to_chars(""), Vec::<char>::new());
}

#[test]
fn has_prefix_tests_the_beginning() {
    assert!(has_prefix("User-12", "User-"));
    assert!(has_prefix("User-", "User-"));
    assert!(has_prefix("anything", ""));
    assert!(!has_prefix("User", "User-"));
    assert!(!has_prefix("user-12", "User-"));
    assert!(!has_prefix("", "User-"));
    assert!(has_prefix("\u{e9}t\u{e9}", "\u{e9}"));
}

#[test]
fn is_space_char_agrees_with_std_on_every_char() {
    for code in 0..=0x10ffffu32 {
        if let Some(c) = char::from_u32(code) {
            assert_eq!(is_space_char(c), c.is_whitespace(), "U+{:04X}", code);
        }
    }
}
