use arxiv_sniffer::text::{
    decimal_string, is_whitespace_char, join, normalize_spaces, replace, same_text,
    text_less_exec, to_ascii_uppercase, trim,
};

#[test]
fn normalize_spaces_collapses_runs() {
    assert_eq!(normalize_spaces("  Deep \t\n learning  for\u{a0}graphs "), "Deep learning for graphs");
    assert_eq!(normalize_spaces(""), "");
    assert_eq!(normalize_spaces(" \n\t "), "");
    assert_eq!(normalize_spaces("one"), "one");
}

#[test]
fn normalize_spaces_is_idempotent_on_examples() {
    for s in ["  a  b ", "x\u{3000}y", "\u{2028}p\u{2029}q\u{85}", ""] {
        let once = normalize_spaces(s);
        assert_eq!(normalize_spaces(&once), once);
        let expected: Vec<&str> = s.split_whitespace().collect();
        assert_eq!(once, expected.join(" "));
    }
}

#[test]
fn trim_removes_unicode_white_space() {
    assert_eq!(trim("\u{2003} abc \u{3000}"), "abc");
    assert_eq!(trim("a b"), "a b");
    assert_eq!(trim("   "), "");
}

#[test]
fn whitespace_matches_std() {
    for code in 0u32..0x3100 {
        if let Some(c) = char::from_u32(code) {
            assert_eq!(is_whitespace_char(c), c.is_whitespace(), "code point {code:#x}");
        }
    }
}

#[test]
fn replace_matches_std_replace() {
    let cases = [
        ("{a}{a}", "{a}", "x"),
        ("aaa", "aa", "b"),
        ("no placeholder", "{x}", "y"),
        ("{t}{t}", "{t}", "{t}{t}"),
        ("", "{x}", "y"),
    ];
    for (s, p, r) in cases {
        assert_eq!(replace(s, p, r), s.replace(p, r));
    }
}

#[test]
fn decimal_string_formats_numbers() {
    assert_eq!(decimal_string(0), "0");
    assert_eq!(decimal_string(7), "7");
    assert_eq!(decimal_string(1234567890), "1234567890");
    assert_eq!(decimal_string(u64::MAX), u64::MAX.to_string());
}

#[test]
fn ascii_uppercase_keeps_other_chars() {
    assert_eq!(to_ascii_uppercase("relevance_score-é"), "RELEVANCE_SCORE-é");
}

#[test]
fn join_puts_separator_between() {
    let parts = vec!["a".to_string(), "b".to_string(), "c".to_string()];
    assert_eq!(join(&parts, ", "), "a, b, c");
    assert_eq!(join(&Vec::new(), ", "), "");
    assert_eq!(join(&vec!["solo".to_string()], " "), "solo");
}

#[test]
fn text_order_matches_str_order() {
    let words = ["", "a", "ab", "b", "Z", "é", "aé", "a b"];
    for x in words {
        for y in words {
            assert_eq!(text_less_exec(x, y), x < y, "{x:?} < {y:?}");
        }
        assert!(same_text(x, x));
    }
    assert!(!same_text("a", "b"));
}
