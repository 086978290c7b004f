use pomodoro::parse::parse_u32;

#[test]
fn parses_plain_number() {
    assert_eq!(parse_u32("25"), Some(25));
}

#[test]
fn parses_number_with_surrounding_whitespace() {
    assert_eq!(parse_u32(" 42\n"), Some(42));
    assert_eq!(parse_u32("\t7 \r\n"), Some(7));
}

#[test]
fn parses_number_with_leading_plus() {
    assert_eq!(parse_u32("+5"), Some(5));
}

#[test]
fn parses_zero() {
    assert_eq!(parse_u32("0"), Some(0));
    assert_eq!(parse_u32("000"), Some(0));
}

#[test]
fn parses_largest_value() {
    assert_eq!(parse_u32("4294967295"), Some(u32::MAX));
}

#[test]
fn rejects_value_above_u32() {
    assert_eq!(parse_u32("4294967296"), None);
    assert_eq!(parse_u32("99999999999999999999"), None);
}

#[test]
fn rejects_empty_and_blank_input() {
    assert_eq!(parse_u32(""), None);
    assert_eq!(parse_u32("   \n"), None);
    assert_eq!(parse_u32("+"), None);
}

#[test]
fn rejects_non_numeric_input() {
    assert_eq!(parse_u32("fail"), None);
    assert_eq!(parse_u32("12a"), None);
    assert_eq!(parse_u32("-3"), None);
    assert_eq!(parse_u32("1 2"), None);
}
