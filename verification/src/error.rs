//! Errors of the library, and the message each one reads as.

use vstd::prelude::*;
use crate::device::{DeviceSelector, selector_text};
use crate::text::{decimal, hex2, push_decimal, push_hex2};

verus! {

/// Everything that can go wrong talking to a UPS.
#[derive(Debug)]
pub enum Error {
    /// No supported UPS is connected.
    DeviceNotFound,
    /// No connected UPS matches the selector.
    DeviceNotFoundBySelector { selector: DeviceSelector },
    /// More than one supported UPS is connected and none was selected.
    AmbiguousDeviceAuto { count: usize },
    /// More than one connected UPS matches the selector.
    AmbiguousDeviceSelector { selector: DeviceSelector, count: usize },
    /// The USB layer failed; `detail` is its message.
    Usb { detail: String },
    /// The transport has no such report.
    UnsupportedReport { report_id: u8 },
    /// The UPS did not acknowledge a request.
    NotAcknowledged { report_id: u8 },
    /// The reply is shorter than the report needs.
    ResponseTooShort { report_id: u8, len: usize },
    /// Fewer bytes than requested were written.
    ShortWrite { report_id: u8, len: usize, expected: usize },
    /// The reply could not be parsed.
    Parse { report_id: u8, detail: String },
    /// The serial layer failed.
    Serial { detail: String },
}

/// The message of an error: report IDs as `0x` and two lowercase hex
/// digits, counts and lengths in decimal, selectors as `to_string` prints
/// them.
pub open spec fn error_message(e: Error) -> Seq<char> {
    match e {
        Error::DeviceNotFound =>
            "UPS not found (supported VID:PID: 0001:0000, 09d6:0001, 0665:5161, 067b:2303). Is it plugged in?"@,
        Error::DeviceNotFoundBySelector { selector } => "no UPS matches selector "@ + selector_text(
            selector@,
        ),
        Error::AmbiguousDeviceAuto { count } => decimal(count as nat)
            + " supported UPS devices connected; use `gcups list` and pass `--device <selector>`"@,
        Error::AmbiguousDeviceSelector { selector, count } => decimal(count as nat)
            + " UPS devices match selector "@ + selector_text(selector@)
            + "; use the BUS:ADDR selector from `gcups list`"@,
        Error::Usb { detail } => "USB error: "@ + detail@,
        Error::UnsupportedReport { report_id } => "Report 0x"@ + hex2(report_id)
            + " is not supported by this UPS transport"@,
        Error::NotAcknowledged { report_id } => "UPS did not acknowledge request for report 0x"@
            + hex2(report_id),
        Error::ResponseTooShort { report_id, len } => "Response too short for report 0x"@ + hex2(
            report_id,
        ) + ": "@ + decimal(len as nat) + " bytes"@,
        Error::ShortWrite { report_id, len, expected } => "Short USB write for report 0x"@ + hex2(
            report_id,
        ) + ": wrote "@ + decimal(len as nat) + " of "@ + decimal(expected as nat) + " bytes"@,
        Error::Parse { report_id, detail } => "Parse error for report 0x"@ + hex2(report_id)
            + ": "@ + detail@,
        Error::Serial { detail } => "Serial error: "@ + detail@,
    }
}

impl Error {
    /// The message that describes this error.
    pub fn message(&self) -> (s: String)
        ensures
            s@ == error_message(*self),
    {
        let mut s = String::new();
        match self {
            Error::DeviceNotFound => {
                s.append(
                    "UPS not found (supported VID:PID: 0001:0000, 09d6:0001, 0665:5161, 067b:2303). Is it plugged in?",
                );
            },
            Error::DeviceNotFoundBySelector { selector } => {
                s.append("no UPS matches selector ");
                s.append(selector.to_string().as_str());
            },
            Error::AmbiguousDeviceAuto { count } => {
                push_decimal(&mut s, *count as u64);
                s.append(
                    " supported UPS devices connected; use `gcups list` and pass `--device <selector>`",
                );
            },
            Error::AmbiguousDeviceSelector { selector, count } => {
                push_decimal(&mut s, *count as u64);
                s.append(" UPS devices match selector ");
                s.append(selector.to_string().as_str());
                s.append("; use the BUS:ADDR selector from `gcups list`");
            },
            Error::Usb { detail } => {
                s.append("USB error: ");
                s.append(detail.as_str());
            },
            Error::UnsupportedReport { report_id } => {
                s.append("Report 0x");
                push_hex2(&mut s, *report_id);
                s.append(" is not supported by this UPS transport");
            },
            Error::NotAcknowledged { report_id } => {
                s.append("UPS did not acknowledge request for report 0x");
                push_hex2(&mut s, *report_id);
            },
            Error::ResponseTooShort { report_id, len } => {
                s.append("Response too short for report 0x");
                push_hex2(&mut s, *report_id);
                s.append(": ");
                push_decimal(&mut s, *len as u64);
                s.append(" bytes");
            },
            Error::ShortWrite { report_id, len, expected } => {
                s.append("Short USB write for report 0x");
                push_hex2(&mut s, *report_id);
                s.append(": wrote ");
                push_decimal(&mut s, *len as u64);
                s.append(" of ");
                push_decimal(&mut s, *expected as u64);
                s.append(" bytes");
            },
            Error::Parse { report_id, detail } => {
                s.append("Parse error for report 0x");
                push_hex2(&mut s, *report_id);
                s.append(": ");
                s.append(detail.as_str());
            },
            Error::Serial { detail } => {
                s.append("Serial error: ");
                s.append(detail.as_str());
            },
        }
        s
    }
}

} // verus!
