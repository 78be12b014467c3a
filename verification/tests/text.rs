use reading_bot::text::{is_whitespace, push_i64, push_u64, split, trim_text};

fn u64_text(n: u64) -> String {
    let mut s = String::new();
    push_u64(&mut s, n);
    s
}

#[test]
fn decimal_numbers() {
    assert_eq!(u64_text(0), "0");
    assert_eq!(u64_text(1065), "1065");
    assert_eq!(u64_text(u64::MAX), "18446744073709551615");
    let mut s = "x=".to_string();
    push_i64(&mut s, -42);
    assert_eq!(s, "x=-42");
    let mut s = String::new();
    push_i64(&mut s, i64::MIN);
    assert_eq!(s, "-9223372036854775808");
    let mut s = String::new();
    push_u64(&mut s, 10);
    assert_eq!(s, "10");
}

#[test]
fn split_keeps_empty_pieces() {
    assert_eq!(split("a\nb", '\n'), vec!["a", "b"]);
    assert_eq!(split("", '\n'), vec![""]);
    assert_eq!(split("a\n", '\n'), vec!["a", ""]);
    assert_eq!(split("\n\n", '\n'), vec!["", "", ""]);
    assert_eq!(split("书\n章", '\n'), vec!["书", "章"]);
}

#[test]
fn trim_removes_unicode_white_space() {
    assert_eq!(trim_text("  a b \t\r"), "a b");
    assert_eq!(trim_text("\u{3000}书名\u{00a0}"), "书名");
    assert_eq!(trim_text("   "), "");
    assert_eq!(trim_text(""), "");
    for c in ['\u{0}', 'a', '\u{200b}', '\u{180e}'] {
        assert_eq!(is_whitespace(c), c.is_whitespace());
    }
    for c in [' ', '\n', '\u{85}', '\u{2028}', '\u{205f}', '\u{1680}'] {
        assert!(is_whitespace(c));
        assert_eq!(trim_text(&format!("{c}x{c}")), "x");
    }
}
