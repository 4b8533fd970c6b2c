use er_controls::text::{parse_i32, split_spaces, str_eq, strip_prefix};

#[test]
fn parse_decimal_numbers() {
    assert_eq!(parse_i32("123", 10), Some(123));
    assert_eq!(parse_i32("+7", 10), Some(7));
    assert_eq!(parse_i32("-0", 10), Some(0));
    assert_eq!(parse_i32("-42", 10), Some(-42));
    assert_eq!(parse_i32("2147483647", 10), Some(i32::MAX));
    assert_eq!(parse_i32("-2147483648", 10), Some(i32::MIN));
}

#[test]
fn parse_rejects_malformed_numbers() {
    assert_eq!(parse_i32("", 10), None);
    assert_eq!(parse_i32("-", 10), None);
    assert_eq!(parse_i32("+", 10), None);
    assert_eq!(parse_i32("12a", 10), None);
    assert_eq!(parse_i32("2147483648", 10), None);
    assert_eq!(parse_i32("-2147483649", 10), None);
    assert_eq!(parse_i32("99999999999999999999", 10), None);
    assert_eq!(parse_i32(" 1", 10), None);
}

#[test]
fn parse_matches_std_on_samples() {
    for s in ["0", "-1", "+15", "1f", "FF", "-80000000", "7fffffff", "80000000", "x", "", "-", "ff_"] {
        assert_eq!(parse_i32(s, 16), i32::from_str_radix(s, 16).ok(), "radix 16: {s}");
        assert_eq!(parse_i32(s, 10), s.parse::<i32>().ok(), "radix 10: {s}");
    }
}

#[test]
fn parse_hexadecimal_numbers() {
    assert_eq!(parse_i32("1A", 16), Some(26));
    assert_eq!(parse_i32("1a", 16), Some(26));
    assert_eq!(parse_i32("g", 16), None);
}

#[test]
fn string_equality() {
    assert!(str_eq("next", "next"));
    assert!(!str_eq("next", "prev"));
    assert!(!str_eq("next", "nex"));
    assert!(str_eq("", ""));
}

#[test]
fn prefix_stripping() {
    assert_eq!(strip_prefix("to_5", "to_"), Some("5"));
    assert_eq!(strip_prefix("to_", "to_"), Some(""));
    assert_eq!(strip_prefix("t", "to_"), None);
    assert_eq!(strip_prefix("cast_1", "to_"), None);
}

#[test]
fn split_at_spaces_keeps_empty_pieces() {
    assert_eq!(split_spaces("a  b"), vec!["a".to_string(), "".to_string(), "b".to_string()]);
    assert_eq!(split_spaces(""), vec!["".to_string()]);
    assert_eq!(split_spaces("LShift ^A"), vec!["LShift".to_string(), "^A".to_string()]);
    assert_eq!(split_spaces(" "), vec!["".to_string(), "".to_string()]);
}

#[test]
fn split_then_join_gives_the_text_back() {
    for s in ["", "a", "a b", " a  b ", "   "] {
        assert_eq!(split_spaces(s).join(" "), s);
    }
}
