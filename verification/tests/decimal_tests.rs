use tg_adapter::decimal::{i32_to_decimal, i64_to_decimal, parse_i32, parse_i64, u64_to_decimal};

#[test]
fn renders_integers_like_to_string() {
    assert_eq!(u64_to_decimal(0), "0");
    assert_eq!(u64_to_decimal(10), "10");
    assert_eq!(u64_to_decimal(u64::MAX), u64::MAX.to_string());
    assert_eq!(i64_to_decimal(-1), "-1");
    assert_eq!(i64_to_decimal(i64::MIN), i64::MIN.to_string());
    assert_eq!(i64_to_decimal(i64::MAX), i64::MAX.to_string());
    assert_eq!(i32_to_decimal(-2147483648), "-2147483648");
    assert_eq!(i32_to_decimal(905), "905");
}

#[test]
fn parses_integers_like_str_parse() {
    for s in ["", "-", "+", "12a", " 1", "1 ", "--1", "+-1", "9223372036854775808", "-9223372036854775809", "99999999999999999999999", "١٢"] {
        assert_eq!(parse_i64(s), s.parse::<i64>().ok(), "input {s:?}");
    }
    for s in ["0", "007", "+7", "-0", "9223372036854775807", "-9223372036854775808", "-100123"] {
        assert_eq!(parse_i64(s), s.parse::<i64>().ok(), "input {s:?}");
        assert!(parse_i64(s).is_some());
    }
    for s in ["2147483647", "-2147483648", "2147483648", "-2147483649", "12", "x", ""] {
        assert_eq!(parse_i32(s), s.parse::<i32>().ok(), "input {s:?}");
    }
}

#[test]
fn rendering_then_parsing_gives_the_number_back() {
    for n in [0i64, 1, -1, 42, -100123, i64::MAX, i64::MIN, 1_000_000_007] {
        assert_eq!(parse_i64(&i64_to_decimal(n)), Some(n));
    }
    for n in [0i32, i32::MAX, i32::MIN, -77] {
        assert_eq!(parse_i32(&i32_to_decimal(n)), Some(n));
    }
}
