use ovk_panel::text::{
    after_first, before_first, decimal, find, lines, parse_u64, split_char, strip_prefix, trim,
};

#[test]
fn trim_removes_surrounding_white_space() {
    assert_eq!(trim("  hello world \t\n"), "hello world");
    assert_eq!(trim("   "), "");
    assert_eq!(trim(""), "");
    assert_eq!(trim("x"), "x");
}

#[test]
fn split_keeps_empty_pieces() {
    assert_eq!(split_char("a\tb\t\tc", '\t'), vec!["a", "b", "", "c"]);
    assert_eq!(split_char("", '\t'), vec![""]);
    assert_eq!(split_char("a\t", '\t'), vec!["a", ""]);
}

#[test]
fn lines_follow_str_lines() {
    for text in ["", "a", "a\n", "a\r\nb", "a\r", "a\n\n", "\n", "x\r\ny\r\n", "one\ntwo\rthree"] {
        let expected: Vec<String> = text.lines().map(|l| l.to_string()).collect();
        assert_eq!(lines(text), expected, "text {:?}", text);
    }
}

#[test]
fn strip_prefix_only_on_a_prefix() {
    assert_eq!(strip_prefix("reply:alice", "reply:"), Some("alice".to_string()));
    assert_eq!(strip_prefix("reply:", "reply:"), Some(String::new()));
    assert_eq!(strip_prefix("rep", "reply:"), None);
    assert_eq!(strip_prefix("prediction:3", "reply:"), None);
}

#[test]
fn decimal_writes_u64() {
    assert_eq!(decimal(0), "0");
    assert_eq!(decimal(7), "7");
    assert_eq!(decimal(1234567890), "1234567890");
    assert_eq!(decimal(u64::MAX), u64::MAX.to_string());
}

#[test]
fn parse_u64_follows_str_parse() {
    for text in ["0", "42", "+42", "+", "", "-1", "-0", "4a", " 4", "18446744073709551615",
        "18446744073709551616", "000123", "99999999999999999999x"]
    {
        assert_eq!(parse_u64(text), text.parse::<u64>().ok(), "text {:?}", text);
    }
}

#[test]
fn decimal_parses_back() {
    for n in [0u64, 1, 9, 10, 99, 100, 4096, u64::MAX - 1, u64::MAX] {
        assert_eq!(parse_u64(&decimal(n)), Some(n));
    }
}

#[test]
fn find_and_split_once() {
    assert_eq!(find("abcabc", "ca"), Some(2));
    assert_eq!(find("abc", "x"), None);
    assert_eq!(find("abc", ""), Some(0));
    assert_eq!(after_first("k=v=w", "="), Some("v=w".to_string()));
    assert_eq!(before_first("k=v=w", "="), "k");
    assert_eq!(before_first("kv", "="), "kv");
    assert_eq!(after_first("kv", "="), None);
    assert_eq!(after_first("Persona — Ada (\"Sage\")", "— "), Some("Ada (\"Sage\")".to_string()));
}

#[test]
fn trim_knows_unicode_white_space() {
    assert_eq!(trim("\u{3000}\u{a0} x y\u{2009}\u{85}"), "x y");
    assert_eq!(trim("\u{200b}x"), "\u{200b}x");
    assert_eq!(trim("\u{b}\u{c}x\u{2028}"), "x");
}
