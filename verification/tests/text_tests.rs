use clocktui::text::{push_decimal, strip_prefix, text_eq, trim, white_space};

#[test]
fn white_space_matches_std() {
    for u in 0u32..=0x10FFFF {
        if let Some(c) = char::from_u32(u) {
            assert_eq!(white_space(c), c.is_whitespace(), "U+{u:04X}");
        }
    }
}

#[test]
fn trim_matches_std() {
    for t in ["", "  ", " a ", "\u{2003}b\u{3000}", "a b", "\t\nx\r\n", "\u{85}y\u{a0}"] {
        assert_eq!(trim(t), t.trim());
    }
}

#[test]
fn decimal_matches_display() {
    for n in [0usize, 7, 10, 99, 100, 12345, usize::MAX] {
        let mut out = String::from("[");
        push_decimal(&mut out, n);
        assert_eq!(out, format!("[{n}"));
    }
}

#[test]
fn prefixes_and_equality() {
    assert_eq!(strip_prefix("--theme=dark", "--theme="), Some("dark".to_string()));
    assert_eq!(strip_prefix("--them", "--theme="), None);
    assert_eq!(strip_prefix("x", ""), Some("x".to_string()));
    assert!(text_eq("é", "é"));
    assert!(!text_eq("a", "ab"));
}
