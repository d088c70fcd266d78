use api_manager::config::{parse_environment, Environment};
use api_manager::fixed::{format_fixed4, parse_fixed4};

#[test]
fn parse_plain_decimals() {
    assert_eq!(parse_fixed4("0.0000"), Some(0));
    assert_eq!(parse_fixed4("2.5"), Some(25000));
    assert_eq!(parse_fixed4("2.5000"), Some(25000));
    assert_eq!(parse_fixed4("0"), Some(0));
    assert_eq!(parse_fixed4("10"), Some(100000));
    assert_eq!(parse_fixed4("0.0001"), Some(1));
    assert_eq!(parse_fixed4(".5"), Some(5000));
    assert_eq!(parse_fixed4("3."), Some(30000));
}

#[test]
fn parse_truncates_extra_fraction_digits() {
    assert_eq!(parse_fixed4("1.23456"), Some(12345));
    assert_eq!(parse_fixed4("0.99999"), Some(9999));
}

#[test]
fn parse_rejects_other_shapes() {
    assert_eq!(parse_fixed4(""), None);
    assert_eq!(parse_fixed4("."), None);
    assert_eq!(parse_fixed4("-1"), None);
    assert_eq!(parse_fixed4("1e3"), None);
    assert_eq!(parse_fixed4("1.2.3"), None);
    assert_eq!(parse_fixed4("1,5"), None);
    assert_eq!(parse_fixed4(" 1"), None);
}

#[test]
fn parse_rejects_overflow() {
    assert_eq!(parse_fixed4("99999999999999999999999999"), None);
}

#[test]
fn format_renders_four_decimals() {
    assert_eq!(format_fixed4(0), "0.0000");
    assert_eq!(format_fixed4(25000), "2.5000");
    assert_eq!(format_fixed4(1), "0.0001");
    assert_eq!(format_fixed4(123456789), "12345.6789");
}

#[test]
fn parse_format_round_trip() {
    for v in [0u64, 1, 9999, 10000, 25000, 123456789] {
        assert_eq!(parse_fixed4(&format_fixed4(v)), Some(v));
    }
}

#[test]
fn environment_words_parse_case_insensitively() {
    assert_eq!(parse_environment("development"), Ok(Environment::Development));
    assert_eq!(parse_environment("PRODUCTION"), Ok(Environment::Production));
    assert_eq!(parse_environment("Testing"), Ok(Environment::Testing));
    assert_eq!(parse_environment("staging"), Err("staging".to_string()));
}
