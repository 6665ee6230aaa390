use mpvrc::text::{
    decimal_string, eq_ignore_ascii_case, is_whitespace, parse_i32, parse_usize, split_str,
    split_whitespace, starts_with, trim,
};

#[test]
fn trimming_matches_std() {
    for s in ["", "  ", " a b ", "\u{3000}x\u{85}", "\tq\n", "no"] {
        assert_eq!(trim(s), s.trim());
    }
}

#[test]
fn white_space_matches_std() {
    for c in ['\t', '\n', '\u{b}', '\u{c}', '\r', ' ', '\u{85}', '\u{a0}', '\u{1680}', '\u{2000}', '\u{200a}', '\u{2028}', '\u{2029}', '\u{202f}', '\u{205f}', '\u{3000}', 'a', '\u{200b}', '\u{1f}'] {
        assert_eq!(is_whitespace(c), c.is_whitespace());
    }
}

#[test]
fn splitting_matches_std() {
    for s in ["", "a", "  a  b\tc\n", "\u{a0}x\u{2003}y"] {
        let ours = split_whitespace(s);
        let std: Vec<&str> = s.split_whitespace().collect();
        assert_eq!(ours, std);
    }
    for (s, sep) in [("a\r\nb\r\n\r\nc", "\r\n"), ("a\r\n\r\n\r\nb", "\r\n\r\n"), ("", " "), ("x  y", " "), ("aaa", "aa")] {
        let ours = split_str(s, sep);
        let std: Vec<&str> = s.split(sep).collect();
        assert_eq!(ours, std);
    }
}

#[test]
fn numbers_match_std() {
    for s in ["0", "+5", "-0", "", "+", "12a", "18446744073709551615", "18446744073709551616", "007"] {
        assert_eq!(parse_usize(s), s.parse::<usize>().ok());
    }
    for s in ["-2147483648", "2147483647", "2147483648", "-2147483649", "-", "+-1", "-12", "+3"] {
        assert_eq!(parse_i32(s), s.parse::<i32>().ok());
    }
    for n in [0u64, 9, 10, 99, 100, 12345, u64::MAX] {
        assert_eq!(decimal_string(n), n.to_string());
        assert_eq!(parse_usize(&decimal_string(n)), Some(n as usize));
    }
}

#[test]
fn comparisons() {
    assert!(eq_ignore_ascii_case("ExIt", "exit"));
    assert!(!eq_ignore_ascii_case("exit ", "exit"));
    assert!(!eq_ignore_ascii_case("É", "é"));
    assert!(starts_with("Authorization: x", "Authorization:"));
    assert!(!starts_with("Auth", "Authorization:"));
}

#[test]
fn joined_words_split_back() {
    let words = vec!["set".to_string(), "volume".to_string(), "50".to_string()];
    assert_eq!(split_whitespace(&words.join(" ")), words);
    for w in split_whitespace(" \t a\u{2003}bb  c \n") {
        assert!(!w.is_empty());
        assert!(!w.chars().any(char::is_whitespace));
    }
}
