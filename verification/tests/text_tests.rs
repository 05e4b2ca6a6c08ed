use clipimg::text::{
    contains_str, decimal_len, is_blank, is_whitespace_char, push_decimal, push_padded_decimal,
    push_str, rfind_char, starts_with, str_chars, str_eq, str_suffix_from, to_owned_string,
    trim_end_char,
};

#[test]
fn whitespace_agrees_with_std_on_every_char() {
    for u in 0u32..=0x10FFFF {
        if let Some(c) = char::from_u32(u) {
            assert_eq!(is_whitespace_char(c), c.is_whitespace(), "U+{:04X}", u);
        }
    }
}

#[test]
fn blank_strings_agree_with_trim() {
    for s in ["", " ", "\t\n", "\u{3000}", " a ", "x", "\u{200B}", "  \u{A0}"] {
        assert_eq!(is_blank(s), s.trim().is_empty(), "{:?}", s);
    }
}

#[test]
fn trim_end_char_agrees_with_std() {
    for s in ["", "/", "///", "/a/b//", "a/b", "路径/", "/x/"] {
        assert_eq!(trim_end_char(s, '/'), s.trim_end_matches('/'), "{:?}", s);
    }
}

#[test]
fn decimal_rendering() {
    for n in [0u64, 7, 10, 99, 100, 123456789, u64::MAX] {
        let mut s = String::from(">");
        push_decimal(&mut s, n);
        assert_eq!(s, format!(">{}", n));
        assert_eq!(decimal_len(n), n.to_string().len());
    }
    assert_eq!(decimal_len(u64::MAX), 20);
}

#[test]
fn padded_decimal_rendering() {
    let cases: [(u64, usize, &str); 6] =
        [(5, 2, "05"), (5, 1, "5"), (123, 2, "123"), (0, 3, "000"), (7, 0, "7"), (2026, 4, "2026")];
    for (n, w, expected) in cases {
        let mut s = String::new();
        push_padded_decimal(&mut s, n, w);
        assert_eq!(s, expected);
    }
}

#[test]
fn string_helpers() {
    let mut s = String::from("ab");
    push_str(&mut s, "路c");
    assert_eq!(s, "ab路c");
    assert_eq!(to_owned_string("xyz"), "xyz");
    assert_eq!(str_chars("a路b"), vec!['a', '路', 'b']);
    assert!(starts_with("clip_1.png", "clip_"));
    assert!(!starts_with("cli", "clip_"));
    assert!(starts_with("abc", ""));
    assert!(str_eq("路径", "路径"));
    assert!(!str_eq("a", "ab"));
    assert!(contains_str("/workspace/.clip", ".clip"));
    assert!(contains_str("abc", ""));
    assert!(!contains_str("abc", "abd"));
    assert!(!contains_str("", "a"));
}

#[test]
fn rfind_and_suffix_count_characters() {
    assert_eq!(rfind_char("a.b.c", '.'), Some(3));
    assert_eq!(rfind_char("文件.pdf", '.'), Some(2));
    assert_eq!(rfind_char("Makefile", '.'), None);
    assert_eq!(str_suffix_from("文件.pdf", 3), "pdf");
    assert_eq!(str_suffix_from("abc", 3), "");
}
