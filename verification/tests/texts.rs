use fordocu::text;

fn rows(v: Vec<Vec<char>>) -> Vec<String> {
    v.into_iter().map(|r| r.into_iter().collect()).collect()
}

#[test]
fn white_space_is_that_of_unicode() {
    for n in 0..=0x10ffff_u32 {
        if let Some(c) = char::from_u32(n) {
            assert_eq!(text::white_space(c), c.is_whitespace(), "{:x}", n);
            assert_eq!(text::lower_ascii(c), c.to_ascii_lowercase());
        }
    }
}

#[test]
fn lines_are_split_as_usual() {
    for s in ["", "\n", "a", "a\n", "a\nb", "a\r\nb\r", "\r\n\n\r", "a\rb\n\n", "é\r\r\n"] {
        let expected: Vec<String> = s.lines().map(|l| l.to_string()).collect();
        assert_eq!(rows(text::split_lines(s)), expected, "{:?}", s);
    }
}

#[test]
fn splitting_at_a_character() {
    for s in ["", ":", "a", "a:b", "a::b:", "::"] {
        let cs = text::chars_of(s);
        let expected: Vec<String> = s.split(':').map(|l| l.to_string()).collect();
        assert_eq!(rows(text::split_at_char(&cs, ':')), expected, "{:?}", s);
    }
}

#[test]
fn trimming_both_ends() {
    for s in ["", " ", " a ", "\u{a0}a b\u{3000}\n", "a", "\t\u{2003}"] {
        let cs = text::chars_of(s);
        let got: String = text::trimmed(&cs).iter().collect();
        assert_eq!(got, s.trim());
        let got: String = text::skip_white_space(&cs).iter().collect();
        assert_eq!(got, s.trim_start());
    }
}

#[test]
fn finding_a_text() {
    for (s, p) in [("abcabc", "ca"), ("abc", ""), ("", ""), ("", "a"), ("aab", "ab"), ("éab", "ab")] {
        let cs = text::chars_of(s);
        let expected = s.find(p).map(|i| s[..i].chars().count());
        assert_eq!(text::find(&cs, p), expected);
        assert_eq!(text::contains(s, p), s.contains(p));
        assert_eq!(text::has_prefix(&cs, p), s.starts_with(p));
    }
}

#[test]
fn comparing_texts() {
    assert!(text::same_text("é", "é"));
    assert!(!text::same_text("a", "A"));
    assert!(text::same_text_ignoring_ascii_case("aBé1", "AbÉ1") == "aBé1".eq_ignore_ascii_case("AbÉ1"));
    assert!(text::same_text_ignoring_ascii_case("aB1", "Ab1"));
    assert!(!text::same_text_ignoring_ascii_case("a", "aa"));
}

#[test]
fn numbers_are_written_in_decimal() {
    for n in [0, 7, 10, 19, 100, 4096, u64::MAX] {
        let mut out = "n=".to_string();
        text::push_decimal(&mut out, n);
        assert_eq!(out, format!("n={}", n));
    }
}

#[test]
fn padding_counts_characters() {
    for s in ["", "file", "12345678", "123456789", "é"] {
        let mut out = String::new();
        text::push_padded(&mut out, s, 8);
        assert_eq!(out, format!("{:<8}", s));
    }
}

#[test]
fn joined_lines_read_back() {
    let typed = vec!["first".to_string(), "second".to_string(), "third".to_string()];
    let all = text::joined(&typed, "\n");
    assert_eq!(all, "first\nsecond\nthird");
    assert_eq!(rows(text::split_lines(&all)), typed);
    assert_eq!(text::joined(&Vec::new(), "\n"), "");
}

#[test]
fn terminated_lines_read_back() {
    let written = vec!["".to_string(), "a b".to_string(), "".to_string()];
    let all = text::terminated(&written);
    assert_eq!(all, "\na b\n\n");
    assert_eq!(rows(text::split_lines(&all)), written);
}
