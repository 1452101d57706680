use gcups::command::{command_wire, prolific_fixed_report, serial_query_command, CommandWire};
use gcups::report::{
    clean_report_text, cypress_command_ack, cypress_protocol_marker, descriptor_command_ack,
    model_from_info, parse_cypress_protocol_marker, qs_protocol, CypressProtocol,
};
use gcups::wire::{
    REPORT_CANCEL_SHUTDOWN, REPORT_CANCEL_SHUTDOWN_RESTORE, REPORT_CANCEL_SHUTDOWN_RETURN,
    REPORT_PROTOCOL, REPORT_SHORT_TEST,
};
use gcups::{Error, UpsTransport};

#[test]
fn serial_cancel_variants_map_to_generic_cancel() {
    assert_eq!(
        serial_query_command(REPORT_CANCEL_SHUTDOWN).unwrap(),
        Some(b"C\r".to_vec())
    );
    assert_eq!(
        serial_query_command(REPORT_CANCEL_SHUTDOWN_RESTORE).unwrap(),
        Some(b"C\r".to_vec())
    );
    assert_eq!(
        serial_query_command(REPORT_CANCEL_SHUTDOWN_RETURN).unwrap(),
        Some(b"C\r".to_vec())
    );
}

#[test]
fn serial_commands_and_fixed_reports() {
    assert_eq!(serial_query_command(0x05).unwrap(), Some(b"TL\r".to_vec()));
    assert_eq!(serial_query_command(0x0b).unwrap(), Some(b"CT\r".to_vec()));
    assert_eq!(serial_query_command(REPORT_PROTOCOL).unwrap(), None);
    assert!(matches!(
        serial_query_command(0x08),
        Err(Error::UnsupportedReport { report_id: 0x08 })
    ));
    assert_eq!(prolific_fixed_report(0x01), Some("Prolific"));
    assert_eq!(prolific_fixed_report(0x02), Some("prolific"));
    assert_eq!(prolific_fixed_report(0x03), None);
}

#[test]
fn command_wire_per_transport() {
    assert!(matches!(
        command_wire(UpsTransport::Descriptor, 0x07).unwrap(),
        CommandWire::DescriptorRead(0x07)
    ));
    match command_wire(UpsTransport::CypressHid, 0x07).unwrap() {
        CommandWire::CypressWrite(c) => assert_eq!(c, b"Q\r"),
        other => panic!("unexpected {other:?}"),
    }
    match command_wire(UpsTransport::ProlificSerial, 0x04).unwrap() {
        CommandWire::SerialWrite(c) => assert_eq!(c, b"T\r"),
        other => panic!("unexpected {other:?}"),
    }
    assert!(matches!(
        command_wire(UpsTransport::ProlificSerial, REPORT_PROTOCOL),
        Err(Error::UnsupportedReport { report_id: 0x01 })
    ));
}

#[test]
fn cypress_t_commands_are_always_acknowledged() {
    // T sub-protocol is fire-and-forget: no reply, or any reply, is success.
    assert!(cypress_command_ack(REPORT_SHORT_TEST, CypressProtocol::T, None).is_ok());
    assert!(cypress_command_ack(REPORT_SHORT_TEST, CypressProtocol::T, Some("garbage")).is_ok());
}

#[test]
fn cypress_v_command_ack_accepts_ack_and_silence() {
    assert!(cypress_command_ack(REPORT_SHORT_TEST, CypressProtocol::V, None).is_ok());
    assert!(cypress_command_ack(REPORT_SHORT_TEST, CypressProtocol::V, Some("ACK\r")).is_ok());
    assert!(cypress_command_ack(REPORT_SHORT_TEST, CypressProtocol::V, Some("(ACK")).is_ok());
    assert!(cypress_command_ack(REPORT_SHORT_TEST, CypressProtocol::V, Some(" \r\n")).is_ok());
}

#[test]
fn cypress_v_command_ack_rejects_other_reply() {
    assert!(matches!(
        cypress_command_ack(REPORT_SHORT_TEST, CypressProtocol::V, Some("NAK")),
        Err(Error::NotAcknowledged { report_id }) if report_id == REPORT_SHORT_TEST
    ));
    assert!(cypress_command_ack(REPORT_SHORT_TEST, CypressProtocol::V, Some("AC")).is_err());
}

#[test]
fn descriptor_command_ack_needs_the_ack_string() {
    assert!(descriptor_command_ack(0x04, "UPS No Ack\r").is_ok());
    assert!(matches!(
        descriptor_command_ack(0x04, "#230.0"),
        Err(Error::NotAcknowledged { report_id: 0x04 })
    ));
}

#[test]
fn cypress_protocol_marker_parsing() {
    assert_eq!(parse_cypress_protocol_marker("V\r").unwrap(), CypressProtocol::V);
    assert_eq!(parse_cypress_protocol_marker("T").unwrap(), CypressProtocol::T);
    assert!(matches!(
        parse_cypress_protocol_marker("X"),
        Err(Error::Parse { .. })
    ));
    match parse_cypress_protocol_marker(" X\r") {
        Err(Error::Parse { report_id, detail }) => {
            assert_eq!(report_id, 0x02);
            assert_eq!(detail, "unknown Cypress sub-protocol marker \"X\"");
        }
        other => panic!("unexpected {other:?}"),
    }
}

#[test]
fn report_metadata_text_strips_control_terminators() {
    assert_eq!(clean_report_text("V\r"), "V");
    assert_eq!(clean_report_text("\n\t#2000VA\r\n"), "#2000VA");
    assert!(!clean_report_text("T\r").contains('\r'));
}

#[test]
fn model_from_info_drops_hash_and_padding() {
    assert_eq!(model_from_info("#                2000VA\r"), "2000VA");
    assert_eq!(model_from_info("\0##  1000VA  \0"), "1000VA");
}

#[test]
fn cypress_protocol_marker_formats_for_status_metadata() {
    assert_eq!(cypress_protocol_marker(CypressProtocol::T), "T");
    assert_eq!(cypress_protocol_marker(CypressProtocol::V), "V");
}

#[test]
fn qs_reply_reveals_protocol() {
    assert_eq!(qs_protocol(b"(228.2"), CypressProtocol::V);
    assert_eq!(qs_protocol(b"#\x75"), CypressProtocol::T);
    assert_eq!(qs_protocol(b""), CypressProtocol::T);
}
