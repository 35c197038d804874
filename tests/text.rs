use rres::parse_res;
use rres::text::{parse_u16, starts_with, str_eq, u16_to_decimal};
use rres::RresError;

#[test]
fn forced_resolution_parses() {
    assert_eq!(parse_res("1920x1080"), Ok((1920, 1080)));
    assert_eq!(parse_res("+800x600"), Ok((800, 600)));
    assert_eq!(parse_res("0x65535"), Ok((0, 65535)));
}

#[test]
fn forced_resolution_rejects_malformed() {
    assert_eq!(parse_res("1920"), Err(RresError::Parse));
    assert_eq!(parse_res("1920x"), Err(RresError::Parse));
    assert_eq!(parse_res("x1080"), Err(RresError::Parse));
    assert_eq!(parse_res("1920x1080x1"), Err(RresError::Parse));
    assert_eq!(parse_res("65536x1"), Err(RresError::Parse));
    assert_eq!(parse_res("-1x1"), Err(RresError::Parse));
    assert_eq!(parse_res("19 20x1080"), Err(RresError::Parse));
}

#[test]
fn u16_parse_matches_std() {
    for s in ["0", "7", "+12", "65535", "65536", "", "+", "++1", "1a", "00042", "999999"] {
        assert_eq!(parse_u16(s), s.parse::<u16>().ok(), "{}", s);
    }
}

#[test]
fn u16_decimal_matches_std() {
    for n in [0u16, 5, 10, 99, 100, 1477, 65535] {
        assert_eq!(u16_to_decimal(n), n.to_string());
    }
}

#[test]
fn string_comparisons() {
    assert!(str_eq("card0", "card0"));
    assert!(!str_eq("card0", "card1"));
    assert!(!str_eq("card", "card0"));
    assert!(starts_with("card0", "card"));
    assert!(!starts_with("renderD128", "card"));
    assert!(!starts_with("car", "card"));
}
