//! Framing of the three transports: descriptor and reply payloads.

use vstd::prelude::*;
use crate::error::Error;
use crate::text::{push_char, find_cr, cr_end, through_first_cr, lemma_cr_end_bounds, CR};

verus! {

/// bmRequestType of the descriptor read: IN | Standard | Device.
pub const BM_REQUEST_TYPE: u8 = 0x80;
/// bRequest of the descriptor read: GET_DESCRIPTOR.
pub const B_REQUEST: u8 = 0x06;
/// High byte of wValue: descriptor type 3 (STRING).
pub const DESC_TYPE_STRING: u16 = 0x0300;
/// wIndex: interface 0.
pub const W_INDEX: u16 = 0x00;
/// Largest descriptor payload a device returns.
pub const BUF_SIZE: usize = 96;
/// bmRequestType of a Cypress command: OUT | Class | Interface.
pub const CYPRESS_SET_REPORT_REQUEST_TYPE: u8 = 0x21;
/// bRequest of a Cypress command: SET_REPORT.
pub const CYPRESS_SET_REPORT: u8 = 0x09;
/// wValue of a Cypress command sent as an output report.
pub const CYPRESS_OUTPUT_REPORT: u16 = 0x0200;
/// wValue of a Cypress command sent as a feature report (the fallback).
pub const CYPRESS_FEATURE_REPORT: u16 = 0x0300;
/// Interrupt IN endpoint of Cypress replies.
pub const CYPRESS_INTERRUPT_IN: u8 = 0x81;
/// Size of one Cypress HID packet.
pub const CYPRESS_PACKET_SIZE: usize = 8;
/// Longest Megatec command (with its terminator).
pub const MEGATEC_MAX_COMMAND_LEN: usize = 10;

/// Report IDs: the descriptor indices of the MEC0003 transport, and the
/// logical IDs the other transports map to commands.
pub const REPORT_PROTOCOL: u8 = 0x01;
pub const REPORT_PROTOCOL_VERSION: u8 = 0x02;
pub const REPORT_CURRENT_PARAMS: u8 = 0x03;
pub const REPORT_SHORT_TEST: u8 = 0x04;
pub const REPORT_LONG_TEST: u8 = 0x05;
pub const REPORT_BEEPER_TOGGLE: u8 = 0x07;
pub const REPORT_SHUTDOWN: u8 = 0x08;
pub const REPORT_CANCEL_SHUTDOWN: u8 = 0x0a;
pub const REPORT_CANCEL_TEST: u8 = 0x0b;
pub const REPORT_INFO: u8 = 0x0c;
pub const REPORT_NOMINAL_PARAMS: u8 = 0x0d;
pub const REPORT_SHUTDOWN_RESTORE: u8 = 0x10;
pub const REPORT_CANCEL_SHUTDOWN_RESTORE: u8 = 0x1a;
pub const REPORT_CANCEL_SHUTDOWN_RETURN: u8 = 0x2a;

/// A Cypress command and whether the device answers it with data.
#[derive(Clone, Debug)]
pub struct CypressReport {
    pub command: Vec<u8>,
    pub expects_reply: bool,
}

/// The Cypress command of a logical report: `M`, `QS` and `F` are queries;
/// `T`, `Q` and `C` are commands without a data reply.
pub open spec fn spec_cypress_report(report_id: u8) -> Option<(Seq<u8>, bool)> {
    if report_id == REPORT_PROTOCOL || report_id == REPORT_PROTOCOL_VERSION || report_id
        == REPORT_INFO {
        Some((seq![0x4du8, CR], true))
    } else if report_id == REPORT_CURRENT_PARAMS {
        Some((seq![0x51u8, 0x53u8, CR], true))
    } else if report_id == REPORT_NOMINAL_PARAMS {
        Some((seq![0x46u8, CR], true))
    } else if report_id == REPORT_SHORT_TEST || report_id == REPORT_LONG_TEST {
        Some((seq![0x54u8, CR], false))
    } else if report_id == REPORT_BEEPER_TOGGLE {
        Some((seq![0x51u8, CR], false))
    } else if report_id == REPORT_CANCEL_SHUTDOWN || report_id == REPORT_CANCEL_SHUTDOWN_RESTORE
        || report_id == REPORT_CANCEL_SHUTDOWN_RETURN || report_id == REPORT_CANCEL_TEST {
        Some((seq![0x43u8, CR], false))
    } else {
        None
    }
}

/// The Megatec command set the Cypress transport speaks: `M` (protocol
/// marker), `QS` (live readings) and `F` (rated values) are queries with a
/// reply; `T` (battery test), `Q` (beeper) and `C` (cancel) are orders
/// without one; every command ends in a carriage return; no other report has
/// a command.
pub proof fn law_cypress_megatec_commands(report_id: u8)
    ensures
        (report_id == 0x01 || report_id == 0x02 || report_id == 0x0c) ==> spec_cypress_report(
            report_id,
        ) == Some((seq!['M' as u8, '\r' as u8], true)),
        report_id == 0x03 ==> spec_cypress_report(report_id) == Some(
            (seq!['Q' as u8, 'S' as u8, '\r' as u8], true),
        ),
        report_id == 0x0d ==> spec_cypress_report(report_id) == Some((seq!['F' as u8, '\r' as u8], true)),
        (report_id == 0x04 || report_id == 0x05) ==> spec_cypress_report(report_id) == Some(
            (seq!['T' as u8, '\r' as u8], false),
        ),
        report_id == 0x07 ==> spec_cypress_report(report_id) == Some((seq!['Q' as u8, '\r' as u8], false)),
        (report_id == 0x0a || report_id == 0x0b || report_id == 0x1a || report_id == 0x2a)
            ==> spec_cypress_report(report_id) == Some((seq!['C' as u8, '\r' as u8], false)),
        !(report_id == 0x01 || report_id == 0x02 || report_id == 0x03 || report_id == 0x04
            || report_id == 0x05 || report_id == 0x07 || report_id == 0x0a || report_id == 0x0b
            || report_id == 0x0c || report_id == 0x0d || report_id == 0x1a || report_id == 0x2a)
            ==> spec_cypress_report(report_id) is None,
{
    assert('M' as u8 == 0x4d && 'Q' as u8 == 0x51 && 'S' as u8 == 0x53 && 'F' as u8 == 0x46);
    assert('T' as u8 == 0x54 && 'C' as u8 == 0x43 && '\r' as u8 == 0x0d);
}

/// Maps a logical report to its Cypress command; other reports are
/// `UnsupportedReport`.
pub fn cypress_report(report_id: u8) -> (r: Result<CypressReport, Error>)
    ensures
        match spec_cypress_report(report_id) {
            Some((command, expects_reply)) => r matches Ok(rep) && rep.command@ == command
                && rep.expects_reply == expects_reply,
            None => r matches Err(Error::UnsupportedReport { report_id: id }) && id == report_id,
        },
{
    if report_id == REPORT_PROTOCOL || report_id == REPORT_PROTOCOL_VERSION || report_id
        == REPORT_INFO {
        Ok(CypressReport { command: vec![0x4du8, CR], expects_reply: true })
    } else if report_id == REPORT_CURRENT_PARAMS {
        Ok(CypressReport { command: vec![0x51u8, 0x53u8, CR], expects_reply: true })
    } else if report_id == REPORT_NOMINAL_PARAMS {
        Ok(CypressReport { command: vec![0x46u8, CR], expects_reply: true })
    } else if report_id == REPORT_SHORT_TEST || report_id == REPORT_LONG_TEST {
        Ok(CypressReport { command: vec![0x54u8, CR], expects_reply: false })
    } else if report_id == REPORT_BEEPER_TOGGLE {
        Ok(CypressReport { command: vec![0x51u8, CR], expects_reply: false })
    } else if report_id == REPORT_CANCEL_SHUTDOWN || report_id == REPORT_CANCEL_SHUTDOWN_RESTORE
        || report_id == REPORT_CANCEL_SHUTDOWN_RETURN || report_id == REPORT_CANCEL_TEST {
        Ok(CypressReport { command: vec![0x43u8, CR], expects_reply: false })
    } else {
        Err(Error::UnsupportedReport { report_id })
    }
}

/// The HID packet of a Cypress command: the command zero-padded to at least
/// one packet (8 bytes).
pub open spec fn spec_cypress_packet(command: Seq<u8>) -> Seq<u8> {
    if command.len() >= CYPRESS_PACKET_SIZE {
        command
    } else {
        command + Seq::new((CYPRESS_PACKET_SIZE - command.len()) as nat, |i: int| 0u8)
    }
}

/// Builds the HID packet of a Cypress command (at most 10 bytes).
pub fn cypress_packet(command: &[u8]) -> (p: Vec<u8>)
    requires
        command@.len() <= MEGATEC_MAX_COMMAND_LEN,
    ensures
        p@ == spec_cypress_packet(command@),
{
    let mut p: Vec<u8> = Vec::new();
    let mut i: usize = 0;
    while i < command.len()
        invariant
            i <= command@.len(),
            p@ == command@.take(i as int),
        decreases command@.len() - i,
    {
        p.push(command[i]);
        assert(command@.take(i + 1) == command@.take(i as int).push(command@[i as int]));
        i = i + 1;
    }
    assert(command@.take(command@.len() as int) == command@);
    while p.len() < CYPRESS_PACKET_SIZE
        invariant
            command@.len() <= p@.len() <= (if command@.len() >= 8 { command@.len() } else { 8 }),
            p@.take(command@.len() as int) == command@,
            forall|j: int| command@.len() <= j < p@.len() ==> p@[j] == 0u8,
        decreases CYPRESS_PACKET_SIZE - p.len(),
    {
        p.push(0u8);
    }
    assert(p@ =~= spec_cypress_packet(command@));
    p
}

/// wValue of the descriptor read for report `index`.
pub fn descriptor_w_value(index: u8) -> (w: u16)
    ensures
        w == 0x0300 + index,
{
    DESC_TYPE_STRING + index as u16
}

/// The payload of a USB string descriptor: the low byte of each UTF-16LE code
/// unit after the 2-byte header.
pub open spec fn spec_descriptor_payload(raw: Seq<u8>) -> Seq<u8> {
    if raw.len() <= 2 {
        Seq::empty()
    } else {
        Seq::new(((raw.len() - 1) / 2) as nat, |i: int| raw[2 + 2 * i])
    }
}

/// Byte-faithful descriptor payload: NULs and bytes `>= 0x80` are kept.
pub fn descriptor_payload(raw: &[u8]) -> (p: Vec<u8>)
    ensures
        p@ == spec_descriptor_payload(raw@),
{
    let mut p: Vec<u8> = Vec::new();
    if raw.len() <= 2 {
        return p;
    }
    let n = (raw.len() - 1) / 2;
    let mut i: usize = 0;
    while i < n
        invariant
            raw@.len() > 2,
            raw@.len() == raw.len(),
            n == (raw.len() - 1) / 2,
            i <= n,
            p@ == spec_descriptor_payload(raw@).take(i as int),
        decreases n - i,
    {
        assert(2 + 2 * i < raw.len());
        p.push(raw[2 + 2 * i]);
        assert(spec_descriptor_payload(raw@).take(i + 1) == spec_descriptor_payload(raw@).take(
            i as int,
        ).push(raw@[2 + 2 * i]));
        i = i + 1;
    }
    assert(spec_descriptor_payload(raw@).take(n as int) == spec_descriptor_payload(raw@));
    p
}

/// Decodes a USB string descriptor to text: the payload with NULs dropped and
/// each byte taken as the character of that code.
pub fn decode_string_descriptor(raw: &[u8]) -> (s: String)
    ensures
        s@ == latin1_text(spec_descriptor_payload(raw@)),
{
    let payload = descriptor_payload(raw);
    let mut out = String::new();
    let mut i: usize = 0;
    while i < payload.len()
        invariant
            i <= payload@.len(),
            out@ == latin1_text(payload@.take(i as int)),
        decreases payload@.len() - i,
    {
        let b = payload[i];
        assert(payload@.take(i + 1).drop_last() == payload@.take(i as int));
        if b != 0 {
            push_char(&mut out, b as char);
        }
        i = i + 1;
    }
    assert(payload@.take(payload@.len() as int) == payload@);
    out
}

/// Byte-faithful reply payload: every byte through the first carriage return.
pub fn response_payload(raw: &[u8]) -> (p: &[u8])
    ensures
        p@ == through_first_cr(raw@),
{
    let end = match find_cr(raw) {
        Some(i) => i + 1,
        None => raw.len(),
    };
    let p = vstd::slice::slice_subrange(raw, 0, end);
    assert(p@ =~= through_first_cr(raw@));
    p
}

/// Bytes decoded to text: NUL bytes dropped, every other byte taken as the
/// character of that code.
pub open spec fn latin1_text(s: Seq<u8>) -> Seq<char>
    decreases s.len(),
{
    if s.len() == 0 {
        Seq::empty()
    } else if s.last() == 0 {
        latin1_text(s.drop_last())
    } else {
        latin1_text(s.drop_last()).push(s.last() as char)
    }
}

/// Decodes the reply of the Cypress and serial transports to text.
pub fn decode_ascii_response(raw: &[u8]) -> (s: String)
    ensures
        s@ == latin1_text(through_first_cr(raw@)),
{
    let end = match find_cr(raw) {
        Some(i) => i + 1,
        None => raw.len(),
    };
    let mut out = String::new();
    let mut i: usize = 0;
    while i < end
        invariant
            end == cr_end(raw@),
            end <= raw@.len(),
            i <= end,
            out@ == latin1_text(raw@.take(i as int)),
        decreases end - i,
    {
        let b = raw[i];
        assert(raw@.take(i + 1).drop_last() == raw@.take(i as int));
        if b != 0 {
            push_char(&mut out, b as char);
        }
        i = i + 1;
    }
    assert(through_first_cr(raw@) == raw@.take(end as int));
    out
}

} // verus!
