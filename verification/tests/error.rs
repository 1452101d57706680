use gcups::{DeviceSelector, Error};

#[test]
fn error_messages() {
    assert_eq!(
        Error::DeviceNotFound.message(),
        "UPS not found (supported VID:PID: 0001:0000, 09d6:0001, 0665:5161, 067b:2303). Is it plugged in?"
    );
    assert_eq!(
        Error::DeviceNotFoundBySelector {
            selector: DeviceSelector::with_location(0x0665, 0x5161, 1, 4)
        }
        .message(),
        "no UPS matches selector 0665:5161@001:004"
    );
    assert_eq!(
        Error::AmbiguousDeviceAuto { count: 2 }.message(),
        "2 supported UPS devices connected; use `gcups list` and pass `--device <selector>`"
    );
    assert_eq!(
        Error::AmbiguousDeviceSelector {
            selector: DeviceSelector::new(0x067b, 0x2303),
            count: 12
        }
        .message(),
        "12 UPS devices match selector 067b:2303; use the BUS:ADDR selector from `gcups list`"
    );
    assert_eq!(
        Error::Usb { detail: "Operation timed out".to_string() }.message(),
        "USB error: Operation timed out"
    );
    assert_eq!(
        Error::UnsupportedReport { report_id: 0x0c }.message(),
        "Report 0x0c is not supported by this UPS transport"
    );
    assert_eq!(
        Error::NotAcknowledged { report_id: 0x1a }.message(),
        "UPS did not acknowledge request for report 0x1a"
    );
    assert_eq!(
        Error::ResponseTooShort { report_id: 0x03, len: 0 }.message(),
        "Response too short for report 0x03: 0 bytes"
    );
    assert_eq!(
        Error::ShortWrite { report_id: 0xf8, len: 3, expected: 8 }.message(),
        "Short USB write for report 0xf8: wrote 3 of 8 bytes"
    );
    assert_eq!(
        Error::Parse { report_id: 0x0d, detail: "missing '#' prefix in \"x\"".to_string() }.message(),
        "Parse error for report 0x0d: missing '#' prefix in \"x\""
    );
    assert_eq!(
        Error::Serial { detail: "gone".to_string() }.message(),
        "Serial error: gone"
    );
}
