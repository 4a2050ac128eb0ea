use openc3_cosmos_app::text::{
    ascii_lower, contains, copy_texts, cut_before, ends_with, join, pad_left, pad_right, same, trim,
    white_space, write_decimal,
};

#[test]
fn white_space_is_that_of_unicode() {
    for code in 0..=0x10ffffu32 {
        if let Some(c) = char::from_u32(code) {
            assert_eq!(white_space(c), c.is_whitespace(), "{code:x}");
        }
    }
}

#[test]
fn trimming_is_that_of_the_standard_library() {
    for text in ["", " ", "a", " a", "a ", " a b\t\n", "\u{a0}x\u{3000}", "\r\n", "é "] {
        assert_eq!(trim(text), text.trim());
        assert_eq!(trim(&trim(text)), trim(text));
    }
}

#[test]
fn only_ascii_letters_are_lowered() {
    assert_eq!(ascii_lower("AbC-Z9 É"), "abc-z9 É");
    assert_eq!(ascii_lower("@[`{"), "@[`{");
}

#[test]
fn parts_are_found() {
    assert!(contains("abcabd", "abd"));
    assert!(!contains("abcab", "abd"));
    assert!(contains("abc", ""));
    assert!(!contains("", "a"));
    assert!(ends_with("x.tar.gz", ".tar.gz"));
    assert!(!ends_with(".gz", ".tar.gz"));
    assert!(ends_with("é", ""));
    assert!(same("a", "a") && !same("a", "b"));
}

#[test]
fn texts_are_cut_at_the_first_stop() {
    assert_eq!(cut_before("1.2-3+4", '-', '+'), "1.2");
    assert_eq!(cut_before("one\ntwo", '\n', '\n'), "one");
    assert_eq!(cut_before("none", '-', '+'), "none");
    assert_eq!(cut_before("", '-', '+'), "");
}

#[test]
fn numbers_are_written_in_decimal() {
    for n in [0, 9, 10, 99, 100, 1234567, usize::MAX] {
        assert_eq!(write_decimal(n), n.to_string());
    }
}

#[test]
fn padding_is_that_of_format() {
    for text in ["", "ab", "●é", "much too long"] {
        assert_eq!(pad_right(text, 6), format!("{text:<6}"));
        assert_eq!(pad_left(text, 6), format!("{text:>6}"));
    }
}

#[test]
fn lists_are_joined_and_copied() {
    let list = vec!["a".to_string(), "".to_string(), "c".to_string()];
    assert_eq!(join(&list, ", "), "a, , c");
    assert_eq!(join(&Vec::new(), ", "), "");
    assert_eq!(copy_texts(&list), list);
}
