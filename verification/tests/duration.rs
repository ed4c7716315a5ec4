use std::time::Duration;

use gwt_sweep::duration::{format_duration, parse_duration_spec};

#[test]
fn parses_duration_specs() {
    assert_eq!(
        Duration::from_secs(parse_duration_spec("3").unwrap()),
        Duration::from_secs(259_200)
    );
    assert_eq!(
        Duration::from_secs(parse_duration_spec("2w").unwrap()),
        Duration::from_secs(1_209_600)
    );
    assert_eq!(
        Duration::from_secs(parse_duration_spec("12h").unwrap()),
        Duration::from_secs(43_200)
    );
    assert!(parse_duration_spec("hours").is_err());
}

#[test]
fn parses_every_unit_spelling_in_any_case() {
    for (text, seconds) in [
        ("1d", 86_400),
        ("1day", 86_400),
        ("2 days", 172_800),
        ("1W", 604_800),
        ("3weeks", 1_814_400),
        ("1hr", 3_600),
        ("2Hours", 7_200),
        ("5m", 300),
        ("5min", 300),
        ("5mins", 300),
        ("1minute", 60),
        ("10MINUTES", 600),
        ("7s", 7),
        ("7sec", 7),
        ("7secs", 7),
        ("1second", 1),
        ("30seconds", 30),
        ("  4h \t", 14_400),
        ("007s", 7),
        ("0", 0),
    ] {
        assert_eq!(parse_duration_spec(text), Ok(seconds), "{text}");
    }
}

#[test]
fn rejects_malformed_durations_with_their_messages() {
    assert_eq!(
        parse_duration_spec("   "),
        Err("duration must not be empty".to_owned())
    );
    assert_eq!(
        parse_duration_spec("h3"),
        Err("duration must start with a number".to_owned())
    );
    assert_eq!(
        parse_duration_spec("3x"),
        Err("duration suffix must be one of s, m, h, d, or w; bare numbers mean days".to_owned())
    );
    assert_eq!(
        parse_duration_spec("99999999999999999999s"),
        Err("invalid duration number: number too large to fit in target type".to_owned())
    );
    assert_eq!(
        parse_duration_spec("18446744073709551615w"),
        Err("duration is too large".to_owned())
    );
    assert_eq!(
        parse_duration_spec("18446744073709551615s"),
        Ok(18_446_744_073_709_551_615)
    );
}

#[test]
fn trims_unicode_white_space() {
    assert_eq!(parse_duration_spec("\u{3000}2d\u{a0}"), Ok(172_800));
    assert_eq!(parse_duration_spec("3\u{2003}h"), Ok(10_800));
}

#[test]
fn formats_in_the_largest_whole_unit() {
    assert_eq!(format_duration(0), "0w");
    assert_eq!(format_duration(1_209_600), "2w");
    assert_eq!(format_duration(259_200), "3d");
    assert_eq!(format_duration(43_200), "12h");
    assert_eq!(format_duration(300), "5m");
    assert_eq!(format_duration(61), "61s");
    assert_eq!(format_duration(u64::MAX), "18446744073709551615s");
}

#[test]
fn formatted_durations_parse_back() {
    for seconds in [0, 1, 59, 60, 3_599, 3_600, 86_400, 90_000, 604_800, 1_209_600, u64::MAX] {
        assert_eq!(parse_duration_spec(&format_duration(seconds)), Ok(seconds));
    }
}
