use todo_app::text::{
    chars_of, i32_text, i64_text, is_whitespace, parse_i32, parse_usize, remove_white_space,
    same_text, split_chars, starts_with, string_of, u64_text, usize_text,
};

#[test]
fn decimal_writing() {
    assert_eq!(u64_text(0), "0");
    assert_eq!(u64_text(1234567890), "1234567890");
    assert_eq!(u64_text(u64::MAX), "18446744073709551615");
    assert_eq!(usize_text(47), "47");
    assert_eq!(i32_text(-2147483648), "-2147483648");
    assert_eq!(i32_text(2147483647), "2147483647");
    assert_eq!(i64_text(i64::MIN), i64::MIN.to_string());
    assert_eq!(i64_text(-7), "-7");
}

#[test]
fn integer_parsing_follows_str_parse() {
    for s in ["0", "42", "+42", "-42", "", "+", "-", "4a", "2147483647", "2147483648", "-2147483648",
        "-2147483649", "007", " 1", "99999999999999999999999"] {
        assert_eq!(parse_i32(s), s.parse::<i32>().ok(), "i32 {s:?}");
        assert_eq!(parse_usize(s), s.parse::<usize>().ok(), "usize {s:?}");
    }
    assert_eq!(parse_usize("18446744073709551615"), Some(usize::MAX));
    assert_eq!(parse_usize("18446744073709551616"), None);
}

#[test]
fn string_helpers() {
    assert_eq!(todo_app::text::concat("ab", "cd"), "abcd");
    assert!(same_text("привет", "привет"));
    assert!(!same_text("a", "ab"));
    assert!(starts_with("/api/v1/tasks", "/api"));
    assert!(starts_with("x", ""));
    assert!(!starts_with("/ap", "/api"));
    assert_eq!(string_of(&chars_of("héllo")), "héllo");
}

#[test]
fn split_like_str_split() {
    for s in ["a,b", "", ",", "a,,b,", "abc"] {
        let parts: Vec<String> = split_chars(&chars_of(s), ',').iter().map(|p| string_of(p)).collect();
        let expected: Vec<String> = s.split(',').map(|p| p.to_string()).collect();
        assert_eq!(parts, expected);
    }
}

#[test]
fn whitespace_matches_char_is_whitespace() {
    for u in 0u32..0x3100 {
        if let Some(c) = char::from_u32(u) {
            assert_eq!(is_whitespace(c), c.is_whitespace(), "{u:#x}");
        }
    }
    assert_eq!(string_of(&remove_white_space(&chars_of(" a b\t,\u{3000}c\n"))), "ab,c");
}
