use flowstation::number::{
    ascii_alnum, decimal_of, digit, floor_div, parse_signed, parse_unsigned, power_of_two,
    signed_decimal_of,
};
use flowstation::text::{
    ends_with, has_char, has_text, lines, replace, same, split, split_once, starts_with, to_lower,
    trim,
};

#[test]
fn texts_are_trimmed() {
    assert_eq!(trim("  a b \r\n"), "a b");
    assert_eq!(trim("\u{3000}x\u{a0}"), "x");
    assert_eq!(trim(" \t "), "");
    assert_eq!(trim("x"), "x");
    for s in ["", " ", "a", "\u{85}a\u{2009}", "\u{200b}a", "a\u{1680} b\u{205f}"] {
        assert_eq!(trim(s), s.trim());
    }
}

#[test]
fn letters_become_lower_case() {
    assert_eq!(to_lower("Content-LENGTH [Äé]"), "content-length [Äé]");
}

#[test]
fn texts_are_split() {
    assert_eq!(split("a&&b", '&'), vec!["a", "", "b"]);
    assert_eq!(split("", '&'), vec![""]);
    assert_eq!(
        split_once("a=b=c", '='),
        Some(("a".to_string(), "b=c".to_string()))
    );
    assert_eq!(split_once("abc", '='), None);
    assert_eq!(lines("a\r\nb\n\nc"), vec!["a", "b", "", "c"]);
    assert_eq!(lines("a\n"), vec!["a"]);
    assert!(lines("").is_empty());
    for s in ["x\r", "x\r\n\r\ny\r", "\n", "\r\n", "a\rb\nc"] {
        assert_eq!(lines(s), s.lines().map(|l| l.to_string()).collect::<Vec<_>>());
    }
}

#[test]
fn texts_are_searched() {
    assert!(same("é", "é") && !same("a", "ab"));
    assert!(starts_with("abc", "ab") && starts_with("abc", "") && !starts_with("ab", "abc"));
    assert!(ends_with("abc", "bc") && !ends_with("bc", "abc"));
    assert!(has_char("a/b", '/') && !has_char("ab", '/'));
    assert!(has_text("GET /ws HTTP", "/ws") && has_text("x", "") && !has_text("/w", "/ws"));
}

#[test]
fn texts_are_replaced() {
    assert_eq!(replace("a{{V}}b{{V}}", "{{V}}", "1.2"), "a1.2b1.2");
    assert_eq!(replace("aaa", "aa", "b"), "ba");
    assert_eq!(replace("", "a", "b"), "");
}

#[test]
fn numbers_are_written_and_read() {
    assert_eq!(decimal_of(0), "0");
    assert_eq!(decimal_of(u128::MAX), "340282366920938463463374607431768211455");
    assert_eq!(signed_decimal_of(-1), "-1");
    assert_eq!(signed_decimal_of(i64::MIN), "-9223372036854775808");
    assert_eq!(parse_unsigned("+0042", 100), Some(42));
    assert_eq!(parse_unsigned("101", 100), None);
    assert_eq!(parse_unsigned("18446744073709551615", u64::MAX), Some(u64::MAX));
    assert_eq!(parse_unsigned("18446744073709551616", u64::MAX), None);
    assert_eq!(parse_unsigned("", 100), None);
    assert_eq!(parse_unsigned("+", 100), None);
    assert_eq!(parse_unsigned("-1", 100), None);
    assert_eq!(parse_signed("-9223372036854775808"), Some(i64::MIN));
    assert_eq!(parse_signed("9223372036854775808"), None);
    assert_eq!(parse_signed("-"), None);
    assert_eq!(parse_signed("--1"), None);
    for s in ["12", "+12", "-12", "1 2", "", "-0", "9223372036854775807"] {
        assert_eq!(parse_signed(s), s.parse::<i64>().ok());
    }
}

#[test]
fn numbers_have_their_properties() {
    assert!(digit('7') && !digit('a'));
    assert!(ascii_alnum('Z') && ascii_alnum('0') && !ascii_alnum('-') && !ascii_alnum('é'));
    for n in 0..5000u64 {
        assert_eq!(power_of_two(n), n.is_power_of_two());
    }
    assert!(power_of_two(1 << 63) && !power_of_two(u64::MAX));
    assert_eq!(floor_div(7, 4), 1);
    assert_eq!(floor_div(-1, 4), -1);
    assert_eq!(floor_div(-8, 4), -2);
    assert_eq!(floor_div(i64::MIN, 1), i64::MIN);
}
