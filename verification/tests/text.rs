use type_lib::text::{join, same_text, trim};

#[test]
fn same_text_compares_character_by_character() {
    assert!(same_text("", ""));
    assert!(same_text("type", "type"));
    assert!(!same_text("type", "typ"));
    assert!(!same_text("type", "typo"));
    assert!(!same_text("", "a"));
    assert!(same_text("h\u{e9}llo", "h\u{e9}llo"));
    assert!(!same_text("h\u{e9}llo", "h\u{e8}llo"));
}

#[test]
fn join_puts_the_separator_between_the_parts() {
    assert_eq!(join(&vec![], ", "), "");
    assert_eq!(join(&vec!["a".to_owned()], ", "), "a");
    assert_eq!(join(&vec!["a".to_owned(), "b".to_owned(), "c".to_owned()], ", "), "a, b, c");
    assert_eq!(join(&vec!["".to_owned(), "".to_owned()], "-"), "-");
    assert_eq!(join(&vec!["x".to_owned(), "y".to_owned()], ""), "xy");
}

#[test]
fn trim_takes_white_space_from_both_ends_only() {
    assert_eq!(trim(""), "");
    assert_eq!(trim("   \n\t "), "");
    assert_eq!(trim("a"), "a");
    assert_eq!(trim("\n\n a b \n c\t\r\n"), "a b \n c");
    assert_eq!(trim("\u{a0}\u{2003}x\u{3000}\u{85}"), "x");
    assert_eq!(trim("\u{200b}x"), "\u{200b}x");
    for text in ["", " a ", "\n\nfoo\n", "\u{b}\u{c}x y\u{2028}\u{2029}", "\u{1680}\u{205f}\u{202f}z"] {
        assert_eq!(trim(text), text.trim(), "{text:?}");
    }
}
