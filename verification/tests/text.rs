use rustproc::text::{
    contains_str, fmt_i32, fmt_u64, join_strings, pad_left_str, parse_u64, split_lines, split_on_char,
    split_words, str_eq, to_ascii_lower, trim_str,
};

#[test]
fn trimming_uses_unicode_whitespace() {
    assert_eq!(trim_str("  a b \t\n"), "a b");
    assert_eq!(trim_str("\u{2003}x\u{3000}"), "x");
    assert_eq!(trim_str("\u{200b}x"), "\u{200b}x");
    assert_eq!(trim_str(trim_str(" q ")), trim_str(" q "));
}

#[test]
fn lines_follow_str_lines() {
    for s in ["", "a", "a\n", "a\r\nb", "a\n\nb\n", "\n", "x\r", "a\rb\n"] {
        let expected: Vec<String> = s.lines().map(|l| l.to_string()).collect();
        assert_eq!(split_lines(s), expected, "input {:?}", s);
    }
}

#[test]
fn splitting_follows_std() {
    for s in ["", "a,b", "a,,b,", ",", "x"] {
        let expected: Vec<String> = s.split(',').map(|l| l.to_string()).collect();
        assert_eq!(split_on_char(s, ','), expected);
    }
    for s in ["", "  a  b\tc ", "one", " \n "] {
        let expected: Vec<String> = s.split_whitespace().map(|l| l.to_string()).collect();
        assert_eq!(split_words(s), expected);
    }
}

#[test]
fn numbers_follow_std() {
    for s in ["0", "42", "+42", "-1", "", "+", "007", "1a", "18446744073709551615", "18446744073709551616", " 1"] {
        assert_eq!(parse_u64(s), s.parse::<u64>().ok(), "input {:?}", s);
    }
    assert_eq!(fmt_u64(0), "0");
    assert_eq!(fmt_u64(u64::MAX), u64::MAX.to_string());
    assert_eq!(fmt_i32(i32::MIN), i32::MIN.to_string());
    assert_eq!(fmt_i32(-5), "-5");
    assert_eq!(pad_left_str("7", 4), "   7");
    assert_eq!(to_ascii_lower("0xABc-É"), "0xabc-É");
}

#[test]
fn joining_and_equality() {
    assert_eq!(join_strings(&vec![], "\n"), "");
    assert_eq!(join_strings(&vec!["a".to_string(), "b".to_string()], ", "), "a, b");
    assert!(str_eq("abc", "abc"));
    assert!(!str_eq("abc", "abd"));
    assert!(!str_eq("ab", "abc"));
}

#[test]
fn substring_search() {
    assert!(contains_str("coretemp package id 0", "package"));
    assert!(contains_str("abc", ""));
    assert!(contains_str("abc", "abc"));
    assert!(!contains_str("ab", "abc"));
    assert!(!contains_str("a-b-c", "abc"));
    assert!(contains_str("aab", "ab"));
}
