use gcups::wire::{
    cypress_packet, cypress_report, decode_ascii_response, decode_string_descriptor,
    descriptor_payload, descriptor_w_value, response_payload, REPORT_CANCEL_SHUTDOWN_RESTORE,
    REPORT_CANCEL_TEST, REPORT_CURRENT_PARAMS, REPORT_LONG_TEST, REPORT_NOMINAL_PARAMS,
    REPORT_PROTOCOL,
};
use gcups::Error;

#[test]
fn cypress_report_mapping_uses_megatec_commands() {
    let current = cypress_report(REPORT_CURRENT_PARAMS).unwrap();
    assert_eq!(current.command, b"QS\r");
    assert!(current.expects_reply);

    let nominal = cypress_report(REPORT_NOMINAL_PARAMS).unwrap();
    assert_eq!(nominal.command, b"F\r");
    assert!(nominal.expects_reply);

    let long_test = cypress_report(REPORT_LONG_TEST).unwrap();
    assert_eq!(long_test.command, b"T\r");
    assert!(!long_test.expects_reply);

    let cancel_test = cypress_report(REPORT_CANCEL_TEST).unwrap();
    assert_eq!(cancel_test.command, b"C\r");
    assert!(!cancel_test.expects_reply);

    let cancel = cypress_report(REPORT_CANCEL_SHUTDOWN_RESTORE).unwrap();
    assert_eq!(cancel.command, b"C\r");
    assert!(!cancel.expects_reply);

    let protocol = cypress_report(REPORT_PROTOCOL).unwrap();
    assert_eq!(protocol.command, b"M\r");
    assert!(protocol.expects_reply);
}

#[test]
fn cypress_report_rejects_unknown_report() {
    assert!(matches!(
        cypress_report(0x08),
        Err(Error::UnsupportedReport { report_id: 0x08 })
    ));
    assert!(matches!(
        cypress_report(0x99),
        Err(Error::UnsupportedReport { report_id: 0x99 })
    ));
}

#[test]
fn ascii_response_decode_stops_at_carriage_return() {
    let s = decode_ascii_response(b"(ACK\r\0\0ignored");
    assert_eq!(s, "(ACK\r");
}

#[test]
fn ascii_response_without_terminator_keeps_everything_but_nuls() {
    assert_eq!(decode_ascii_response(b"A\0B"), "AB");
    assert_eq!(decode_ascii_response(b""), "");
}

#[test]
fn string_descriptor_decode() {
    // Real capture: report 0x0d -> "#230.0 008 24.00 50.0\r"
    let raw: &[u8] = &[
        46, 3, // bLength=46, bDescriptorType=3
        35, 0, 50, 0, 51, 0, 48, 0, 46, 0, 48, 0, 32, 0, 48, 0, 48, 0, 56, 0, 32, 0, 50, 0, 52,
        0, 46, 0, 48, 0, 48, 0, 32, 0, 53, 0, 48, 0, 46, 0, 48, 0, 13, 0,
    ];
    let s = decode_string_descriptor(raw);
    assert_eq!(s, "#230.0 008 24.00 50.0\r");
}

#[test]
fn string_descriptor_decode_handles_short_input() {
    // Fewer than 2 header bytes, or a header pointing past the end, must
    // return empty rather than panic on the index.
    assert_eq!(decode_string_descriptor(&[]), "");
    assert_eq!(decode_string_descriptor(&[46]), "");
    assert_eq!(decode_string_descriptor(&[46, 3]), "");
}

#[test]
fn descriptor_payload_is_byte_faithful() {
    // Low bytes carry a NUL (0x00) and a high byte (0xf6); both must survive
    // verbatim, while the text decode drops the NUL and balloons 0xf6 into
    // two UTF-8 bytes.
    let raw: &[u8] = &[8, 3, 0x23, 0, 0x00, 0, 0xf6, 0];
    assert_eq!(descriptor_payload(raw), vec![0x23, 0x00, 0xf6]);
    assert_eq!(decode_string_descriptor(raw), "#\u{f6}");
    assert_eq!(descriptor_payload(&[]), Vec::<u8>::new());
    assert_eq!(descriptor_payload(&[46, 3]), Vec::<u8>::new());
}

#[test]
fn descriptor_payload_takes_odd_trailing_byte() {
    // An odd-length descriptor still yields the low byte of the last unit.
    assert_eq!(descriptor_payload(&[5, 3, 0x41, 0, 0x42]), vec![0x41, 0x42]);
}

#[test]
fn response_payload_preserves_binary_cypress_t_frame() {
    // Documented Cypress T QS frame: contains four NULs and high bytes. The
    // lossy ASCII decode corrupts it; the raw payload must return it verbatim.
    let frame: &[u8] = &[
        b'#', 0x75, 0x01, b' ', 0x6c, b' ', 0x00, 0x01, b' ', 0x6c, b' ', 0x00, b' ', 0x60,
        0x0b, b' ', 0x12, 0xc0, 0x00, b' ', 0xe6, b' ', 0x1e, b' ', 0x0b, b' ', 0x03, b'\r',
    ];
    assert_eq!(response_payload(frame), frame);
    // Stops at the first carriage return, keeping trailing junk out.
    assert_eq!(response_payload(b"#\0\x01\xc0\rtail"), b"#\0\x01\xc0\r");
    // The text path drops the NULs, so its byte length no longer matches.
    assert_ne!(decode_ascii_response(frame).into_bytes().len(), frame.len());
}

#[test]
fn cypress_packet_pads_short_commands_to_one_packet() {
    assert_eq!(cypress_packet(b"QS\r"), vec![b'Q', b'S', b'\r', 0, 0, 0, 0, 0]);
    assert_eq!(cypress_packet(b"S.5R0000\r"), b"S.5R0000\r".to_vec());
}

#[test]
fn descriptor_w_value_selects_string_descriptor() {
    assert_eq!(descriptor_w_value(0x0d), 0x030d);
    assert_eq!(descriptor_w_value(0x00), 0x0300);
}
