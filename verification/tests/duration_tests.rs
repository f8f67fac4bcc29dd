use rustway::duration::{parse_duration, InvalidFormat};

#[test]
fn parses_seconds_minutes_hours() {
    assert_eq!(parse_duration("30s"), Ok(30));
    assert_eq!(parse_duration("5m"), Ok(300));
    assert_eq!(parse_duration("1h"), Ok(3600));
    assert_eq!(parse_duration("0s"), Ok(0));
}

#[test]
fn trims_white_space() {
    assert_eq!(parse_duration("  15m\t\n"), Ok(900));
    assert_eq!(parse_duration("\u{3000}2h\u{a0}"), Ok(7200));
}

#[test]
fn rejects_empty_input() {
    assert_eq!(parse_duration(""), Err(InvalidFormat::Empty));
    assert_eq!(parse_duration("   "), Err(InvalidFormat::Empty));
}

#[test]
fn rejects_unknown_unit() {
    assert_eq!(parse_duration("10d"), Err(InvalidFormat::Unit));
    assert_eq!(parse_duration("10"), Err(InvalidFormat::Unit));
    assert_eq!(parse_duration("10\u{e9}"), Err(InvalidFormat::Unit));
}

#[test]
fn rejects_non_numeric_prefix() {
    assert_eq!(parse_duration("abcs"), Err(InvalidFormat::Number));
    assert_eq!(parse_duration("s"), Err(InvalidFormat::Number));
    assert_eq!(parse_duration("-5s"), Err(InvalidFormat::Number));
    assert_eq!(parse_duration("1 0s"), Err(InvalidFormat::Number));
    assert_eq!(parse_duration("1.5h"), Err(InvalidFormat::Number));
    assert_eq!(parse_duration("xx"), Err(InvalidFormat::Number));
}

#[test]
fn accepts_a_leading_plus() {
    assert_eq!(parse_duration("+7s"), Ok(7));
    assert_eq!(parse_duration("+s"), Err(InvalidFormat::Number));
    assert_eq!(parse_duration("++7s"), Err(InvalidFormat::Number));
}

#[test]
fn rejects_spans_beyond_64_bits() {
    assert_eq!(parse_duration("18446744073709551615s"), Ok(u64::MAX));
    assert_eq!(parse_duration("18446744073709551616s"), Err(InvalidFormat::Number));
    assert_eq!(parse_duration("18446744073709551615m"), Err(InvalidFormat::Number));
    assert_eq!(parse_duration("5124095576030431h"), Ok(5124095576030431 * 3600));
    assert_eq!(parse_duration("5124095576030432h"), Err(InvalidFormat::Number));
}

#[test]
fn describes_each_fault() {
    assert_eq!(InvalidFormat::Empty.message(), "Empty duration");
    assert_eq!(InvalidFormat::Number.message(), "Invalid number in duration");
    assert_eq!(InvalidFormat::Unit.message(), "Invalid duration unit");
}
