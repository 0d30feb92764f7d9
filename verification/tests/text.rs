use lbry_superpeer::text::{
    decimal_text, from_chars, is_white_space, lower_char, same_chars, same_text, text_contains,
    text_ends_with, text_has_char, to_chars, trim_text,
};

#[test]
fn white_space_is_that_of_unicode() {
    for c in '\0'..=char::MAX {
        assert_eq!(is_white_space(c), c.is_whitespace());
    }
}

#[test]
fn trimming_takes_both_ends() {
    let samples = [
        "", " ", "a", " a", "a ", " a b ", "\t\n x\u{a0}", "\u{3000}\u{2003}", "x\u{200b}", "é ",
    ];
    for s in samples {
        assert_eq!(trim_text(s), s.trim());
    }
}

#[test]
fn decimal_numbers() {
    for n in [0, 7, 10, 99, 100, 4_294_967_296, u64::MAX] {
        assert_eq!(decimal_text(n), n.to_string());
    }
}

#[test]
fn searching() {
    assert!(text_contains("a..b", ".."));
    assert!(text_contains("..", ".."));
    assert!(!text_contains(".a.", ".."));
    assert!(!text_contains(".", ".."));
    assert!(text_contains("abc", ""));
    assert!(text_contains("", ""));
    assert!(text_ends_with("é.wav", ".wav"));
    assert!(text_ends_with(".wav", ".wav"));
    assert!(!text_ends_with("wav", ".wav"));
    assert!(!text_ends_with(".wave", ".wav"));
    assert!(text_has_char("a/b", '/'));
    assert!(!text_has_char("ab", '/'));
}

#[test]
fn comparing_and_converting() {
    assert!(same_text("ticket", "ticket"));
    assert!(!same_text("ticket", "Ticket"));
    assert!(!same_text("ticket", "tickets"));
    let chars = to_chars("aéz");
    assert_eq!(chars, vec!['a', 'é', 'z']);
    assert!(same_chars(&chars, &to_chars("aéz")));
    assert_eq!(from_chars(&chars, 1, 3), "éz");
    assert_eq!(from_chars(&chars, 1, 1), "");
    for c in '\0'..=char::MAX {
        assert_eq!(lower_char(c), c.to_ascii_lowercase());
    }
}
