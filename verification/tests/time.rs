use arp_scan::time::format_milliseconds;
use arp_scan::time::parse_to_milliseconds;

#[test]
fn should_parse_milliseconds() {
    assert_eq!(parse_to_milliseconds("1000"), Ok(1000));
}

#[test]
fn should_parse_seconds() {
    assert_eq!(parse_to_milliseconds("5s"), Ok(5000));
}

#[test]
fn should_parse_minutes() {
    assert_eq!(parse_to_milliseconds("3m"), Ok(180_000));
}

#[test]
fn should_parse_hours() {
    assert_eq!(parse_to_milliseconds("2h"), Ok(7_200_000));
}

#[test]
fn should_deny_negative() {
    assert_eq!(parse_to_milliseconds("-45"), Err("invalid milliseconds"));
}

#[test]
fn should_deny_floating_numbers() {
    assert_eq!(parse_to_milliseconds("3.235"), Err("invalid milliseconds"));
}

#[test]
fn should_deny_invalid_characters() {
    assert_eq!(parse_to_milliseconds("3z"), Err("invalid milliseconds"));
}

#[test]
fn should_display_milliseconds() {
    assert_eq!(format_milliseconds(500), "500ms".to_string());
}

#[test]
fn should_display_seconds() {
    assert_eq!(format_milliseconds(2500), "2s".to_string());
}

#[test]
fn should_display_minutes() {
    assert_eq!(format_milliseconds(300_000), "5m".to_string());
}

#[test]
fn should_display_hours() {
    assert_eq!(format_milliseconds(4_200_000), "1h".to_string());
}
