use gcups::transfer::{
    check_descriptor_reply, check_write, cypress_reply_push, serial_order_ack,
    serial_order_ack_text, serial_query_reply, serial_raw_reply, serial_read_step,
};
use gcups::Error;

#[test]
fn descriptor_reply_needs_a_header() {
    assert!(matches!(
        check_descriptor_reply(0x03, 1),
        Err(Error::ResponseTooShort { report_id: 0x03, len: 1 })
    ));
    assert!(matches!(
        check_descriptor_reply(0x0c, 0),
        Err(Error::ResponseTooShort { report_id: 0x0c, len: 0 })
    ));
    assert!(check_descriptor_reply(0x03, 2).is_ok());
}

#[test]
fn short_write_is_reported() {
    assert!(matches!(
        check_write(0x04, 3, 8),
        Err(Error::ShortWrite { report_id: 0x04, len: 3, expected: 8 })
    ));
    assert!(check_write(0x04, 8, 8).is_ok());
}

#[test]
fn cypress_reply_collects_packets_until_cr() {
    let mut reply = Vec::new();
    assert_eq!(cypress_reply_push(&mut reply, b"(230.0 2", 0x03).unwrap(), false);
    assert_eq!(cypress_reply_push(&mut reply, b"29.0\r", 0x03).unwrap(), true);
    assert_eq!(reply, b"(230.0 229.0\r");
}

#[test]
fn cypress_reply_empty_packet_is_too_short() {
    let mut reply = b"(23".to_vec();
    assert!(matches!(
        cypress_reply_push(&mut reply, b"", 0x03),
        Err(Error::ResponseTooShort { report_id: 0x03, len: 3 })
    ));
    assert_eq!(reply, b"(23");
}

#[test]
fn cypress_reply_stops_when_buffer_is_full() {
    let mut reply = vec![b'x'; 88];
    assert_eq!(cypress_reply_push(&mut reply, b"yyyyyyyy", 0x03).unwrap(), true);
    assert_eq!(reply.len(), 96);
    let mut reply = vec![b'x'; 80];
    assert_eq!(cypress_reply_push(&mut reply, b"yyyyyyyy", 0x03).unwrap(), false);
}

#[test]
fn serial_read_steps() {
    let mut reply = Vec::new();
    assert!(!serial_read_step(&mut reply, Some(b"(22"), 10, 3000));
    assert!(!serial_read_step(&mut reply, Some(b""), 20, 3000));
    assert!(serial_read_step(&mut reply, Some(b"8.1\r"), 30, 3000));
    assert_eq!(reply, b"(228.1\r");

    let mut empty = Vec::new();
    assert!(!serial_read_step(&mut empty, None, 100, 1000));
    assert!(serial_read_step(&mut empty, None, 1000, 1000));
    let mut partial = b"(2".to_vec();
    assert!(serial_read_step(&mut partial, None, 100, 1000));
    assert!(serial_read_step(&mut partial, Some(b"3"), 5000, 1000));
    assert_eq!(partial, b"(23");
}

#[test]
fn serial_query_reply_decodes_or_fails() {
    assert!(matches!(
        serial_query_reply(0x0d, b""),
        Err(Error::ResponseTooShort { report_id: 0x0d, len: 0 })
    ));
    assert_eq!(serial_query_reply(0x0d, b"#230.0 8\r").unwrap(), "#230.0 8\r");
    assert_eq!(serial_query_reply(0x0d, b"a\xffb").unwrap(), "a\u{fffd}b");
}

#[test]
fn serial_orders_accept_silence_and_ack() {
    assert!(serial_order_ack(0x04, b"").is_ok());
    assert!(serial_order_ack(0x04, b" \r\n").is_ok());
    assert!(serial_order_ack(0x04, b"UPS No Ack\r").is_ok());
    assert!(matches!(
        serial_order_ack(0x04, b"NAK\r"),
        Err(Error::NotAcknowledged { report_id: 0x04 })
    ));
    assert!(serial_order_ack_text(0x08, "  UPS No Ack ").is_ok());
    assert!(serial_order_ack_text(0x08, "X").is_err());
}

#[test]
fn serial_raw_reply_is_verbatim_through_cr() {
    assert!(matches!(
        serial_raw_reply(0x03, b""),
        Err(Error::ResponseTooShort { report_id: 0x03, len: 0 })
    ));
    assert_eq!(serial_raw_reply(0x03, b"(1\x00\xff\rtail").unwrap(), b"(1\x00\xff\r");
    assert_eq!(serial_raw_reply(0x03, b"abc").unwrap(), b"abc");
}
