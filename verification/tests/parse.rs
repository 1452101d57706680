use gcups::cypress_t::{decode_cypress_t, parse_cypress_t_fields, parse_cypress_t_reading};
use gcups::report::{current_report_fields, nominal_report_fields, parse_register};
use gcups::status::StatusFlags;
use gcups::wire::{decode_ascii_response, response_payload};
use gcups::Error;

const OFFICIAL_T_FRAME: [u8; 28] = [
    b'#', 0x75, 0x01, b' ', 0x6c, b' ', 0x00, 0x01, b' ', 0x6c, b' ', 0x00, b' ', 0x60, 0x0b,
    b' ', 0x12, 0xc0, 0x00, b' ', 0xe6, b' ', 0x1e, b' ', 0x0b, b' ', 0x03, b'\r',
];

#[test]
fn parse_nominal_typical() {
    let f = nominal_report_fields("#230.0 008 24.00 50.0\r").unwrap();
    assert_eq!(f, vec!["230.0", "008", "24.00", "50.0"]);
    assert_eq!(f[0].parse::<f64>().unwrap(), 230.0);
    assert_eq!(f[1].parse::<f64>().unwrap(), 8.0);
    assert_eq!(f[2].parse::<f64>().unwrap(), 24.0);
    assert_eq!(f[3].parse::<f64>().unwrap(), 50.0);
}

#[test]
fn parse_nominal_missing_prefix() {
    assert!(nominal_report_fields("230.0 008 24.00 50.0").is_err());
}

#[test]
fn nominal_report_errors_carry_report_and_detail() {
    match nominal_report_fields("  230.0 008\r") {
        Err(Error::Parse { report_id, detail }) => {
            assert_eq!(report_id, 0x0d);
            assert_eq!(detail, "missing '#' prefix in \"230.0 008\"");
        }
        other => panic!("unexpected {other:?}"),
    }
    match nominal_report_fields("#230.0 008 24.00") {
        Err(Error::Parse { report_id, detail }) => {
            assert_eq!(report_id, 0x0d);
            assert_eq!(detail, "expected 4 fields, got 3 in \"#230.0 008 24.00\"");
        }
        other => panic!("unexpected {other:?}"),
    }
    assert!(matches!(
        nominal_report_fields("UPS No Ack\r"),
        Err(Error::NotAcknowledged { report_id: 0x0d })
    ));
}

#[test]
fn parse_current_mains_present() {
    let f = current_report_fields("(228.2 000.5 226.9 017 50.0 27.4 --.- 00001001\r").unwrap();
    assert_eq!(f.len(), 8);
    assert_eq!(f[0].parse::<f64>().unwrap(), 228.2);
    assert_eq!(f[3].parse::<f64>().unwrap(), 17.0);
    assert!(f[6].parse::<f64>().is_err()); // temperature absent
    let s = StatusFlags::from_register(parse_register(&f[7]).unwrap());
    assert!(s.beeper_on);
    assert!(s.offline); // line-interactive topology
    assert!(!s.utility_fail); // mains present
    assert!(!s.battery_low);
}

#[test]
fn parse_current_on_battery() {
    let f = current_report_fields("(000.0 238.1 228.0 001 00.0 25.7 --.- 10001001\r").unwrap();
    assert_eq!(f[0].parse::<f64>().unwrap(), 0.0);
    let s = StatusFlags::from_register(parse_register(&f[7]).unwrap());
    assert!(s.offline);
    assert!(s.utility_fail); // mains failed
}

#[test]
fn parse_current_online_ups() {
    let f = current_report_fields("(230.0 000.0 230.0 010 50.0 2.10 25.0 00000001\r").unwrap();
    let s = StatusFlags::from_register(parse_register(&f[7]).unwrap());
    assert!(!s.offline);
    assert_eq!(f[6].parse::<f64>().unwrap(), 25.0);
}

#[test]
fn parse_register_errors() {
    assert_eq!(parse_register("00001001").unwrap(), 9);
    assert_eq!(parse_register("+11111111").unwrap(), 255);
    match parse_register("100000000") {
        Err(Error::Parse { report_id, detail }) => {
            assert_eq!(report_id, 0x03);
            assert_eq!(
                detail,
                "cannot parse register (\"100000000\"): number too large to fit in target type"
            );
        }
        other => panic!("unexpected {other:?}"),
    }
    match parse_register("0012") {
        Err(Error::Parse { detail, .. }) => assert_eq!(
            detail,
            "cannot parse register (\"0012\"): invalid digit found in string"
        ),
        other => panic!("unexpected {other:?}"),
    }
}

#[test]
fn parse_cypress_t_current_official_example() {
    // Official GCUPS 1.1.11 example:
    // UPSLM360 #7501 6c 0001 6c 00 600b 12c000 e6 1e 0b 03
    let s = parse_cypress_t_reading(&OFFICIAL_T_FRAME).unwrap();
    assert_eq!(s.nominal.input_voltage, 230);
    assert_eq!(s.nominal.battery_voltage, 12);
    assert_eq!(s.nominal.input_frequency, 50);
    let input_voltage =
        (s.input_voltage_numerator * s.input_voltage_multiplier) as f64 / 51.0 / 256.0;
    assert!((input_voltage - 247.78).abs() < 0.01);
    let frequency = s.frequency_numerator as f64 / s.frequency_divisor as f64;
    assert!((frequency - 49.98).abs() < 0.01);
    let battery = (s.battery_voltage_numerator * s.battery_voltage_multiplier) as f64 / 510.0;
    assert!((battery - 13.53).abs() < 0.01);
    assert!(s.flags.beeper_on);
    assert!(s.flags.shutdown_active);
    assert!(s.flags.offline);
    assert!(!s.flags.utility_fail);
}

#[test]
fn cypress_t_fields_of_official_example() {
    let f = parse_cypress_t_fields(&OFFICIAL_T_FRAME).unwrap();
    assert_eq!(
        f,
        [0x7501, 0x6c, 0x0001, 0x6c, 0x00, 0x600b, 0x12c000, 0xe6, 0x1e, 0x0b, 0x03]
    );
    assert_eq!(
        decode_cypress_t(&OFFICIAL_T_FRAME),
        "#7501 6c 0001 6c 00 600b 12c000 e6 1e 0b 03\r"
    );
}

#[test]
fn parse_cypress_t_current_handles_escaped_field_separator() {
    // Some Cypress T units escape a separator as `0x28 0x04` (`0x20`) and
    // may also leave an adjacent literal space.
    let raw = [
        b'#', 0x6b, 0x01, b' ', 0x6c, b' ', 0x6b, 0x01, 0x28, 0x04, b' ', 0x6c, b' ', 0x00, b' ',
        0x5f, 0xf6, b' ', 0x13, 0x12, 0xd0, b' ', 0xdd, b' ', 0x3c, b' ', 0x09, b' ', 0x23, b'\r',
    ];
    let s = parse_cypress_t_reading(&raw).unwrap();
    let output =
        (s.output_voltage_numerator * s.output_voltage_multiplier) as f64 / 51.0 / 256.0;
    assert!((output - 226.60).abs() < 0.01);
    // Line-interactive topology: the battery voltage is used as reported.
    assert!(s.flags.offline);
    let battery = (s.battery_voltage_numerator * s.battery_voltage_multiplier) as f64 / 510.0;
    assert!((battery - 26.0).abs() < 0.01);
}

#[test]
fn parse_cypress_t_current_rejects_extra_non_separator_bytes() {
    let raw = [
        b'#', 0x6b, 0x01, b' ', 0x6c, b' ', 0x6b, 0x01, 0x7f, b' ', 0x6c, b' ', 0x00, b' ', 0x5f,
        0xf6, b' ', 0x13, 0x12, 0xd0, b' ', 0xdd, b' ', 0x3c, b' ', 0x09, b' ', 0x23, b'\r',
    ];
    assert!(parse_cypress_t_reading(&raw).is_err());
    match parse_cypress_t_fields(&raw) {
        Err(Error::Parse { report_id, detail }) => {
            assert_eq!(report_id, 0x03);
            assert_eq!(
                detail,
                "missing Cypress T separator before field F in \"#6b01 6c 6b017f 6c 00 5ff6 1312d0 dd 3c 09 23\\r\""
            );
        }
        other => panic!("unexpected {other:?}"),
    }
}

#[test]
fn cypress_t_rejections_name_the_fault() {
    let detail = |raw: &[u8]| match parse_cypress_t_fields(raw) {
        Err(Error::Parse { detail, .. }) => detail,
        other => panic!("unexpected {other:?}"),
    };
    assert_eq!(detail(b"X\r"), "missing '#' prefix in Cypress T response \"58\\r\"");
    assert_eq!(
        detail(b"#\x01"),
        "short Cypress T response while reading field AB in \"#01\""
    );
    assert_eq!(
        detail(b"#\x01\x28"),
        "truncated Cypress T escape while reading field AB in \"#01\""
    );
    assert_eq!(
        detail(b"#\x01 "),
        "short Cypress T field AB: separator at byte 1 in \"#01 \""
    );
    let mut long = OFFICIAL_T_FRAME.to_vec();
    long.insert(27, b' ');
    assert_eq!(
        detail(&long),
        "extra Cypress T bytes before terminator at offset 27 in \"#7501 6c 0001 6c 00 600b 12c000 e6 1e 0b 03 \\r\""
    );
}

#[test]
fn cypress_t_escapes_decode_data_bytes() {
    // 0x28 0x01 stands for 0x11 inside a field.
    let mut raw = OFFICIAL_T_FRAME.to_vec();
    raw.splice(1..3, [0x28, 0x01, 0x01]);
    let f = parse_cypress_t_fields(&raw).unwrap();
    assert_eq!(f[0], 0x1101);
}

#[test]
fn cypress_t_nominal_rejects_unknown_voltage_selector() {
    let mut raw = OFFICIAL_T_FRAME.to_vec();
    raw[26] = 0x07;
    match parse_cypress_t_reading(&raw) {
        Err(Error::Parse { report_id, detail }) => {
            assert_eq!(report_id, 0x03);
            assert_eq!(
                detail,
                "unsupported Cypress T nominal input-voltage selector 0x07"
            );
        }
        other => panic!("unexpected {other:?}"),
    }
    raw[26] = 0xe4; // 240 V, 48 V battery, 60 Hz
    let s = parse_cypress_t_reading(&raw).unwrap();
    assert_eq!(s.nominal.input_voltage, 240);
    assert_eq!(s.nominal.battery_voltage, 48);
    assert_eq!(s.nominal.input_frequency, 60);
}

#[test]
fn raw_report_dump_round_trips_through_t_parser() {
    let frame: &[u8] = &OFFICIAL_T_FRAME;
    // Byte-faithful `raw` output stays decodable as a real status frame.
    assert!(parse_cypress_t_reading(response_payload(frame)).is_ok());
    // The text-decoding path drops NULs and re-encodes high bytes to UTF-8,
    // corrupting the frame past recovery.
    let mangled = decode_ascii_response(frame).into_bytes();
    assert!(parse_cypress_t_reading(&mangled).is_err());
}

#[test]
fn cypress_t_ignores_bytes_after_terminator() {
    let mut raw = OFFICIAL_T_FRAME.to_vec();
    raw.extend_from_slice(b"junk\x28");
    assert_eq!(
        parse_cypress_t_fields(&raw).unwrap(),
        parse_cypress_t_fields(&OFFICIAL_T_FRAME).unwrap()
    );
}
