use gcups::duration::{parse_duration_arg, parse_duration_nanos};
use std::time::Duration;

#[test]
fn duration_plain_number_is_seconds() {
    assert_eq!(parse_duration_arg("30").unwrap(), Duration::from_secs(30));
    assert_eq!(
        parse_duration_arg("0.5").unwrap(),
        Duration::from_millis(500)
    );
}

#[test]
fn duration_with_units() {
    assert_eq!(
        parse_duration_arg("500ms").unwrap(),
        Duration::from_millis(500)
    );
    assert_eq!(parse_duration_arg("1s").unwrap(), Duration::from_secs(1));
    assert_eq!(
        parse_duration_arg("2.5s").unwrap(),
        Duration::from_millis(2500)
    );
    assert_eq!(parse_duration_arg("5m").unwrap(), Duration::from_secs(300));
    assert_eq!(parse_duration_arg("1h").unwrap(), Duration::from_secs(3600));
}

#[test]
fn duration_trims_whitespace() {
    assert_eq!(
        parse_duration_arg("  250ms ").unwrap(),
        Duration::from_millis(250)
    );
}

#[test]
fn duration_rejects_bad_input() {
    assert!(parse_duration_arg("").is_err());
    assert!(parse_duration_arg("abc").is_err());
    assert!(parse_duration_arg("10x").is_err());
    assert!(parse_duration_arg("-1s").is_err());
    assert!(parse_duration_arg("inf").is_err());
}

#[test]
fn duration_error_messages() {
    assert_eq!(parse_duration_arg(" \t ").unwrap_err(), "empty duration");
    assert_eq!(
        parse_duration_arg("abc").unwrap_err(),
        "invalid number \"\": cannot parse float from empty string"
    );
    assert_eq!(
        parse_duration_arg("1.2.3s").unwrap_err(),
        "invalid number \"1.2.3\": invalid float literal"
    );
    assert_eq!(
        parse_duration_arg(".s").unwrap_err(),
        "invalid number \".\": invalid float literal"
    );
    assert_eq!(
        parse_duration_arg("10x").unwrap_err(),
        "unknown unit \"x\" (expected ms, s, m, h)"
    );
    assert_eq!(
        parse_duration_arg("3 s").unwrap_err(),
        "unknown unit \" s\" (expected ms, s, m, h)"
    );
}

#[test]
fn duration_fractions_and_points() {
    assert_eq!(parse_duration_arg("1.").unwrap(), Duration::from_secs(1));
    assert_eq!(parse_duration_arg(".25").unwrap(), Duration::from_millis(250));
    assert_eq!(parse_duration_arg("1.5m").unwrap(), Duration::from_secs(90));
    assert_eq!(parse_duration_arg("0.001ms").unwrap(), Duration::from_nanos(1000));
    assert_eq!(parse_duration_arg("0.0000000019").unwrap(), Duration::from_nanos(2));
    assert_eq!(parse_duration_arg("007").unwrap(), Duration::from_secs(7));
    assert_eq!(parse_duration_arg("0.1h").unwrap(), Duration::from_secs(360));
}

#[test]
fn duration_too_large_is_reported() {
    assert_eq!(parse_duration_nanos("18446744073709551616"), Ok(None));
    assert_eq!(
        parse_duration_nanos("18446744073709551615.999999999"),
        Ok(Some(18_446_744_073_709_551_615_999_999_999))
    );
    assert_eq!(parse_duration_nanos("5124095576030432h"), Ok(None));
    assert_eq!(parse_duration_nanos("99999999999999999999999999999999999999999ms"), Ok(None));
    assert_eq!(parse_duration_nanos("2ms"), Ok(Some(2_000_000)));
    assert!(parse_duration_nanos("99x").is_err());
}

#[test]
fn bare_number_reads_as_seconds() {
    for n in ["0", "30", "2.5", ".5", "7.", "00.250"] {
        assert_eq!(parse_duration_nanos(n), parse_duration_nanos(&format!("{n}s")));
    }
    assert_eq!(parse_duration_nanos("2.5"), Ok(Some(2_500_000_000)));
}

#[test]
fn duration_rounds_to_nearest_nanosecond() {
    assert_eq!(parse_duration_nanos("0.0000000009999s"), Ok(Some(1)));
    assert_eq!(parse_duration_nanos("0.0000000004999s"), Ok(Some(0)));
    assert_eq!(parse_duration_nanos("0.0000000005s"), Ok(Some(1)));
    assert_eq!(parse_duration_nanos("1.0000000014"), Ok(Some(1_000_000_001)));
    assert_eq!(parse_duration_nanos("0.0000000000005ms"), Ok(Some(0)));
    assert_eq!(parse_duration_nanos("0.0000005ms"), Ok(Some(1)));
    assert_eq!(parse_duration_nanos("0.33333333333333333333m"), Ok(Some(20_000_000_000)));
    assert_eq!(
        parse_duration_arg("2.9999999996").unwrap(),
        Duration::from_secs(3)
    );
}
