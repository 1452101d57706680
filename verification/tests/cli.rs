use gcups::cli::{bit_diff, parse_u8, status_exit_code};
use gcups::status::StatusFlags;

#[test]
fn register_byte_round_trips_all_flags() {
    for reg in 0u8..=255u8 {
        let s = StatusFlags {
            beeper_on: reg & 1 == 1,
            shutdown_active: (reg >> 1) & 1 == 1,
            test_in_progress: (reg >> 2) & 1 == 1,
            offline: (reg >> 3) & 1 == 1,
            ups_fault: (reg >> 4) & 1 == 1,
            bypass_or_boost: (reg >> 5) & 1 == 1,
            battery_low: (reg >> 6) & 1 == 1,
            utility_fail: (reg >> 7) & 1 == 1,
        };
        assert_eq!(s.register_byte(), reg, "mismatch at reg=0b{reg:08b}");
        assert_eq!(StatusFlags::from_register(reg), s);
    }
}

#[test]
fn bit_diff_empty_when_unchanged() {
    assert_eq!(bit_diff(None, 0b00001000), "");
    assert_eq!(bit_diff(Some(0b00001000), 0b00001000), "");
}

#[test]
fn bit_diff_names_flipped_bits() {
    // utility_fail 0→1, shutdown_active 0→1
    let d = bit_diff(Some(0b00001000), 0b10001010);
    assert!(d.contains("utility_fail 0→1"), "got: {d}");
    assert!(d.contains("shutdown_active 0→1"), "got: {d}");
    assert_eq!(d, "  [shutdown_active 0→1, utility_fail 0→1]");
    assert_eq!(bit_diff(Some(0b1), 0b0), "  [beeper_on 1→0]");
}

#[test]
fn exit_codes_follow_priority() {
    let flags = |reg: u8| StatusFlags::from_register(reg);
    assert_eq!(status_exit_code(&flags(0b0000_1001)), 0);
    assert_eq!(status_exit_code(&flags(0b1000_1001)), 1);
    assert_eq!(status_exit_code(&flags(0b1100_1001)), 2);
    assert_eq!(status_exit_code(&flags(0b1101_1001)), 3);
}

#[test]
fn parse_u8_accepts_hex_and_decimal() {
    assert_eq!(parse_u8("0x0d").unwrap(), 13);
    assert_eq!(parse_u8("0XFF").unwrap(), 255);
    assert_eq!(parse_u8("3").unwrap(), 3);
    assert_eq!(parse_u8("0x").unwrap_err(), "invalid hex: cannot parse integer from empty string");
    assert_eq!(parse_u8("256").unwrap_err(), "invalid number: number too large to fit in target type");
    assert_eq!(parse_u8("0x1g").unwrap_err(), "invalid hex: invalid digit found in string");
    assert_eq!(parse_u8("").unwrap_err(), "invalid number: cannot parse integer from empty string");
}
