use ruos::text::{decimal_string, parse_i64_chars, parse_u32_chars, parse_u64_chars, signed_decimal_string, str_contains, trim_str};

fn cs(s: &str) -> Vec<char> {
    s.chars().collect()
}

#[test]
fn numbers_parse_like_std() {
    for s in ["0", "+7", "42", "-1", "", "+", "1 ", "18446744073709551615", "18446744073709551616", "007", "4294967295", "4294967296", "-9223372036854775808", "9223372036854775807", "9223372036854775808", "-", "--1", "+-1", "١٢"] {
        assert_eq!(parse_u64_chars(&cs(s)), s.parse::<u64>().ok(), "u64 {s:?}");
        assert_eq!(parse_u32_chars(&cs(s)), s.parse::<u32>().ok(), "u32 {s:?}");
        assert_eq!(parse_i64_chars(&cs(s)), s.parse::<i64>().ok(), "i64 {s:?}");
    }
}

#[test]
fn numbers_print_like_std() {
    for n in [0u64, 9, 10, 99, 100, 12345, u64::MAX] {
        assert_eq!(decimal_string(n), n.to_string());
    }
    for n in [0i64, -1, 17, i64::MIN, i64::MAX] {
        assert_eq!(signed_decimal_string(n), n.to_string());
    }
}

#[test]
fn trim_like_std() {
    for s in ["  a b  ", "\u{3000}x\u{2009}", "\n\t", "", "\u{85}y\u{a0}", "z"] {
        assert_eq!(trim_str(s), s.trim());
    }
    assert!(str_contains("abcabd", "abd"));
    assert!(!str_contains("abc", "abcd"));
    assert!(str_contains("abc", ""));
}
