//! What goes on the wire for a command or a shutdown, per transport.

use vstd::prelude::*;
use crate::device::UpsTransport;
use crate::error::Error;
use crate::shutdown::{ShutdownDelay, DescriptorShutdownDelay, MegatecShutdownDelay,
    ProlificShutdownDelay, descriptor_delays, megatec_delays, pick_index, megatec_code,
    megatec_command, prolific_shutdown_command, prolific_restore_command, spec_delay_for};
use crate::text::CR;
use crate::wire::{cypress_report, spec_cypress_report, REPORT_PROTOCOL, REPORT_PROTOCOL_VERSION,
    REPORT_CURRENT_PARAMS, REPORT_INFO, REPORT_NOMINAL_PARAMS, REPORT_SHORT_TEST, REPORT_LONG_TEST,
    REPORT_BEEPER_TOGGLE, REPORT_CANCEL_SHUTDOWN, REPORT_CANCEL_SHUTDOWN_RESTORE,
    REPORT_CANCEL_SHUTDOWN_RETURN, REPORT_CANCEL_TEST, REPORT_SHUTDOWN, REPORT_SHUTDOWN_RESTORE};
use vstd::utf8::encode_utf8;

verus! {

/// The serial (Prolific, Q1) command of a logical report: `None` for the
/// protocol reports, which the serial transport answers itself.
pub open spec fn spec_serial_command(report_id: u8) -> Option<Option<Seq<u8>>> {
    if report_id == REPORT_CURRENT_PARAMS {
        Some(Some(seq![0x51u8, 0x31u8, CR]))
    } else if report_id == REPORT_INFO {
        Some(Some(seq![0x49u8, CR]))
    } else if report_id == REPORT_NOMINAL_PARAMS {
        Some(Some(seq![0x46u8, CR]))
    } else if report_id == REPORT_SHORT_TEST {
        Some(Some(seq![0x54u8, CR]))
    } else if report_id == REPORT_LONG_TEST {
        Some(Some(seq![0x54u8, 0x4cu8, CR]))
    } else if report_id == REPORT_BEEPER_TOGGLE {
        Some(Some(seq![0x51u8, CR]))
    } else if report_id == REPORT_CANCEL_SHUTDOWN || report_id == REPORT_CANCEL_SHUTDOWN_RESTORE
        || report_id == REPORT_CANCEL_SHUTDOWN_RETURN {
        Some(Some(seq![0x43u8, CR]))
    } else if report_id == REPORT_CANCEL_TEST {
        Some(Some(seq![0x43u8, 0x54u8, CR]))
    } else if report_id == REPORT_PROTOCOL || report_id == REPORT_PROTOCOL_VERSION {
        Some(None)
    } else {
        None
    }
}

/// Maps a logical report to its serial command; reports the serial transport
/// has no command for are `UnsupportedReport`. All three cancel reports send
/// the plain `C` cancel.
pub fn serial_query_command(report_id: u8) -> (r: Result<Option<Vec<u8>>, Error>)
    ensures
        match spec_serial_command(report_id) {
            Some(Some(c)) => r matches Ok(Some(v)) && v@ == c,
            Some(None) => r matches Ok(None),
            None => r == Err::<Option<Vec<u8>>, Error>(Error::UnsupportedReport { report_id }),
        },
{
    if report_id == REPORT_CURRENT_PARAMS {
        Ok(Some(vec![0x51u8, 0x31u8, CR]))
    } else if report_id == REPORT_INFO {
        Ok(Some(vec![0x49u8, CR]))
    } else if report_id == REPORT_NOMINAL_PARAMS {
        Ok(Some(vec![0x46u8, CR]))
    } else if report_id == REPORT_SHORT_TEST {
        Ok(Some(vec![0x54u8, CR]))
    } else if report_id == REPORT_LONG_TEST {
        Ok(Some(vec![0x54u8, 0x4cu8, CR]))
    } else if report_id == REPORT_BEEPER_TOGGLE {
        Ok(Some(vec![0x51u8, CR]))
    } else if report_id == REPORT_CANCEL_SHUTDOWN || report_id == REPORT_CANCEL_SHUTDOWN_RESTORE
        || report_id == REPORT_CANCEL_SHUTDOWN_RETURN {
        Ok(Some(vec![0x43u8, CR]))
    } else if report_id == REPORT_CANCEL_TEST {
        Ok(Some(vec![0x43u8, 0x54u8, CR]))
    } else if report_id == REPORT_PROTOCOL || report_id == REPORT_PROTOCOL_VERSION {
        Ok(None)
    } else {
        Err(Error::UnsupportedReport { report_id })
    }
}

/// The text the serial transport gives for the protocol reports itself.
pub fn prolific_fixed_report(report_id: u8) -> (r: Option<&'static str>)
    ensures
        r matches Some(s) ==> (report_id == REPORT_PROTOCOL && s@ == "Prolific"@) || (report_id
            == REPORT_PROTOCOL_VERSION && s@ == "prolific"@),
        r is None <==> report_id != REPORT_PROTOCOL && report_id != REPORT_PROTOCOL_VERSION,
{
    if report_id == REPORT_PROTOCOL {
        Some("Prolific")
    } else if report_id == REPORT_PROTOCOL_VERSION {
        Some("prolific")
    } else {
        None
    }
}

/// One transfer that carries a command.
#[derive(Clone, Debug)]
pub enum CommandWire {
    /// Read the string descriptor at this index (MEC0003).
    DescriptorRead(u8),
    /// Write this Megatec command as a HID report (Cypress).
    CypressWrite(Vec<u8>),
    /// Write these bytes to the serial port (Prolific).
    SerialWrite(Vec<u8>),
}

/// The transfer of command report `report_id` on `transport`.
pub open spec fn command_wire_ok(transport: UpsTransport, report_id: u8, r: Result<CommandWire, Error>) -> bool {
    match transport {
        UpsTransport::Descriptor => r matches Ok(CommandWire::DescriptorRead(i)) && i == report_id,
        UpsTransport::CypressHid => match spec_cypress_report(report_id) {
            Some((c, _)) => r matches Ok(CommandWire::CypressWrite(v)) && v@ == c,
            None => r == Err::<CommandWire, Error>(Error::UnsupportedReport { report_id }),
        },
        UpsTransport::ProlificSerial => match spec_serial_command(report_id) {
            Some(Some(c)) => r matches Ok(CommandWire::SerialWrite(v)) && v@ == c,
            _ => r == Err::<CommandWire, Error>(Error::UnsupportedReport { report_id }),
        },
    }
}

/// How a command report is sent on `transport`.
pub fn command_wire(transport: UpsTransport, report_id: u8) -> (r: Result<CommandWire, Error>)
    ensures
        command_wire_ok(transport, report_id, r),
{
    match transport {
        UpsTransport::Descriptor => Ok(CommandWire::DescriptorRead(report_id)),
        UpsTransport::CypressHid => {
            let report = cypress_report(report_id)?;
            Ok(CommandWire::CypressWrite(report.command))
        },
        UpsTransport::ProlificSerial => match serial_query_command(report_id)? {
            Some(c) => Ok(CommandWire::SerialWrite(c)),
            None => Err(Error::UnsupportedReport { report_id }),
        },
    }
}

/// A shutdown: the delay the UPS will apply, the logical report, and the
/// transfer that requests it.
#[derive(Clone, Debug)]
pub struct ShutdownPlan {
    pub delay: ShutdownDelay,
    pub report_id: u8,
    pub wire: CommandWire,
}

/// The plan of a shutdown after `req` seconds on `transport`; with
/// `stay_off` the output stays off, else it is restored on mains return.
pub open spec fn shutdown_plan_ok(transport: UpsTransport, req: u64, stay_off: bool, p: ShutdownPlan) -> bool {
    &&& p.delay@ == spec_delay_for(req, transport)
    &&& match transport {
        UpsTransport::Descriptor => {
            let i = pick_index(descriptor_delays(), req);
            let id = if stay_off {
                0x18 + 16 * i
            } else {
                0x10 + 16 * i
            };
            &&& p.report_id == id
            &&& p.wire matches CommandWire::DescriptorRead(x) && x == id
        },
        UpsTransport::CypressHid => {
            &&& p.report_id == (if stay_off { REPORT_SHUTDOWN } else { REPORT_SHUTDOWN_RESTORE })
            &&& p.wire matches CommandWire::CypressWrite(v) && v@ == megatec_command(
                megatec_code(pick_index(megatec_delays(), req)),
                stay_off,
            )
        },
        UpsTransport::ProlificSerial => {
            &&& p.report_id == (if stay_off { REPORT_SHUTDOWN } else { REPORT_SHUTDOWN_RESTORE })
            &&& p.wire matches CommandWire::SerialWrite(v) && v@ == encode_utf8(
                if stay_off {
                    prolific_shutdown_command(req / 60)
                } else {
                    prolific_restore_command(req / 60)
                },
            )
        },
    }
}

fn prefix_to_vec(buf: &[u8; 10], len: usize) -> (v: Vec<u8>)
    requires
        len <= 10,
    ensures
        v@ == buf@.take(len as int),
{
    let mut v: Vec<u8> = Vec::new();
    let mut i: usize = 0;
    while i < len
        invariant
            i <= len <= 10,
            v@ == buf@.take(i as int),
        decreases len - i,
    {
        v.push(buf[i]);
        assert(buf@.take(i + 1) == buf@.take(i as int).push(buf@[i as int]));
        i = i + 1;
    }
    v
}

/// Plans a shutdown after `requested_secs` seconds.
pub fn plan_shutdown(transport: UpsTransport, requested_secs: u64, stay_off: bool) -> (p: ShutdownPlan)
    ensures
        shutdown_plan_ok(transport, requested_secs, stay_off, p),
{
    match transport {
        UpsTransport::Descriptor => {
            let sd = DescriptorShutdownDelay::from_secs(requested_secs);
            let id = if stay_off {
                sd.shutdown_report
            } else {
                sd.restore_report
            };
            ShutdownPlan { delay: sd.delay, report_id: id, wire: CommandWire::DescriptorRead(id) }
        },
        UpsTransport::CypressHid => {
            let sd = MegatecShutdownDelay::from_secs(requested_secs);
            let mut buf = [0u8; 10];
            let len = sd.write_shutdown_command(&mut buf, stay_off);
            let command = prefix_to_vec(&buf, len);
            let id = if stay_off {
                REPORT_SHUTDOWN
            } else {
                REPORT_SHUTDOWN_RESTORE
            };
            ShutdownPlan { delay: sd.delay, report_id: id, wire: CommandWire::CypressWrite(command) }
        },
        UpsTransport::ProlificSerial => {
            let sd = ProlificShutdownDelay::from_secs(requested_secs);
            let text = if stay_off {
                sd.shutdown_command()
            } else {
                sd.shutdown_restore_command()
            };
            let bytes = vstd::slice::slice_to_vec(text.as_str().as_bytes());
            let id = if stay_off {
                REPORT_SHUTDOWN
            } else {
                REPORT_SHUTDOWN_RESTORE
            };
            ShutdownPlan { delay: sd.delay, report_id: id, wire: CommandWire::SerialWrite(bytes) }
        },
    }
}

} // verus!
