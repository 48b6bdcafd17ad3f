//! The small text functions.

use traffwd::text::{
    characters, decimal_text, equal, equal_ignoring_case, join2, join3, precedes, trim, until,
};

#[test]
fn trimming_takes_any_whitespace() {
    assert_eq!(trim("\u{a0}\u{3000}\u{85} a\u{b}b \u{2028}\u{1680}\r\n"), "a\u{b}b");
    assert_eq!(trim(" \t "), "");
    assert_eq!(trim("\u{200b}x"), "\u{200b}x");
    for code in 0..=0x10ffffu32 {
        if let Some(c) = char::from_u32(code) {
            let text = c.to_string();
            assert_eq!(trim(&text), text.trim());
        }
    }
}

#[test]
fn texts_end_before_the_mark() {
    assert_eq!(until("a;b;c", ';'), "a");
    assert_eq!(until(";b", ';'), "");
    assert_eq!(until("abc", ';'), "abc");
    assert_eq!(until("", ';'), "");
}

#[test]
fn only_ascii_letters_are_equal_in_either_case() {
    assert!(equal_ignoring_case("Text/Event-Stream", "text/event-stream"));
    assert!(!equal_ignoring_case("\u{c9}", "\u{e9}"));
    assert!(!equal_ignoring_case("ab", "abc"));
    assert!(!equal_ignoring_case("@", "`"));
    assert!(equal("http", "http"));
    assert!(!equal("http", "HTTP"));
}

#[test]
fn numbers_are_written_in_decimal() {
    for number in 0..=255u8 {
        assert_eq!(decimal_text(number), number.to_string());
    }
}

#[test]
fn names_are_ordered_as_strings_are() {
    let names = ["", "a", "a-b", "aa", "ab", "b", "x-1", "x-10", "x-2", "\u{e9}", "\u{1f600}"];
    for (i, left) in names.iter().enumerate() {
        for (j, right) in names.iter().enumerate() {
            assert_eq!(precedes(left, right), i < j);
        }
    }
}

#[test]
fn texts_are_joined() {
    assert_eq!(join2("a", "b"), "ab");
    assert_eq!(join3("a", "", "c"), "ac");
    assert_eq!(characters("a\u{e9}"), ['a', '\u{e9}']);
}
