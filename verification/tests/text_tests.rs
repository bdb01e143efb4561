use jbar::text::{
    chars_of, decimal_string, join_strings, parse_u32, split_lines, split_words, text_contains,
    text_eq, trim_text,
};

fn s(v: &[char]) -> String {
    v.iter().collect()
}

#[test]
fn trimming_unicode_whitespace() {
    assert_eq!(trim_text("\u{3000} a b \t\n"), "a b");
    assert_eq!(trim_text("   "), "");
}

#[test]
fn lines_like_std() {
    for text in ["a\nb", "a\r\nb\n", "\n\nx", "", "one", "x\r"] {
        let got: Vec<String> = split_lines(&chars_of(text)).iter().map(|l| s(l)).collect();
        let want: Vec<String> = text.lines().map(|l| l.to_string()).collect();
        assert_eq!(got, want, "{text:?}");
    }
}

#[test]
fn words_like_std() {
    for text in ["  a  bb\tc ", "", "x", " \n "] {
        let got: Vec<String> = split_words(&chars_of(text)).iter().map(|w| s(w)).collect();
        let want: Vec<String> = text.split_whitespace().map(|w| w.to_string()).collect();
        assert_eq!(got, want, "{text:?}");
    }
}

#[test]
fn numbers_like_std() {
    for text in ["0", "42", "+42", "-1", "", "4294967295", "4294967296", "1a", "+"] {
        assert_eq!(parse_u32(&chars_of(text)), text.parse::<u32>().ok(), "{text:?}");
    }
    assert_eq!(decimal_string(0), "0");
    assert_eq!(decimal_string(u64::MAX), u64::MAX.to_string());
}

#[test]
fn joining_and_searching() {
    let parts = vec!["a".to_string(), "".to_string(), "c".to_string()];
    assert_eq!(join_strings(&parts, ", "), "a, , c");
    assert_eq!(join_strings(&Vec::new(), ","), "");
    assert!(text_contains("Volume: 1 [MUTED]", "[MUTED]"));
    assert!(!text_contains("MUTE", "MUTED"));
    assert!(text_contains("x", ""));
    assert!(text_eq("ä", "ä"));
    assert!(!text_eq("a", "ab"));
    assert_eq!(trim_text(" üb "), "üb");
}
