//! Shutdown delays: each transport supports its own grid of delays, and a
//! requested delay is quantized to the greatest supported step that does not
//! exceed it (or to the smallest step when the request is shorter than all).

use vstd::prelude::*;
use crate::device::UpsTransport;
use crate::text::{push_char, push_decimal, decimal, CR};
use core::time::Duration;

verus! {

/// Whole seconds of a duration: std `Duration::as_secs`.
pub uninterp spec fn duration_whole_secs(d: Duration) -> u64;

/// Sub-second nanoseconds of a duration: what std `Duration::subsec_nanos` reports.
pub uninterp spec fn duration_subsec_nanos(d: Duration) -> u32;

/// std `Duration::as_secs`: the whole seconds of `d`.
#[verifier::external_body]
pub(crate) fn duration_as_secs(d: Duration) -> (s: u64)
    ensures
        s == duration_whole_secs(d),
{
    d.as_secs()
}

/// std `Duration::new` with `nanos` below one second: the duration of `secs`
/// seconds and `nanos` nanoseconds (std documents that it only carries
/// `nanos` over into seconds when it is a second or more).
#[verifier::external_body]
pub(crate) fn duration_new(secs: u64, nanos: u32) -> (d: Duration)
    requires
        nanos < 1_000_000_000,
    ensures
        duration_whole_secs(d) == secs,
        duration_subsec_nanos(d) == nanos,
{
    Duration::new(secs, nanos)
}

/// A shutdown delay a transport supports.
#[derive(Clone, Copy, Debug, PartialEq, Eq, Structural)]
pub struct ShutdownDelay {
    secs: u64,
}

impl View for ShutdownDelay {
    type V = u64;

    /// The delay in seconds.
    closed spec fn view(&self) -> u64 {
        self.secs
    }
}

/// Index of the entry a request selects in a delay table: the last entry
/// that does not exceed `req`, or the first entry when none does.
pub open spec fn pick_index(t: Seq<u64>, req: u64) -> int
    decreases t.len(),
{
    if t.len() <= 1 {
        0
    } else if t.last() <= req {
        t.len() - 1
    } else {
        pick_index(t.drop_last(), req)
    }
}

/// Delays of the MEC0003 descriptor transport, ascending.
pub open spec fn descriptor_delays() -> Seq<u64> {
    Seq::new(14, |i: int| descriptor_step(i))
}

/// Step `i` of the descriptor grid: 30, 35, 40, 47, 53, 60 s, then 2..9 min.
pub open spec fn descriptor_step(i: int) -> u64 {
    if i == 0 {
        30
    } else if i == 1 {
        35
    } else if i == 2 {
        40
    } else if i == 3 {
        47
    } else if i == 4 {
        53
    } else {
        (60 * (i - 4)) as u64
    }
}

/// Delays of the Cypress (Megatec) transport, ascending: 12..54 s in tenths
/// of a minute, then whole minutes up to 10.
pub open spec fn megatec_delays() -> Seq<u64> {
    Seq::new(18, |i: int| megatec_step(i))
}

/// Step `i` of the Megatec grid: 12, 18, ..., 54 s, then 1..10 min.
pub open spec fn megatec_step(i: int) -> u64 {
    if i < 8 {
        (12 + 6 * i) as u64
    } else {
        (60 * (i - 7)) as u64
    }
}

/// The delay a Prolific serial device applies: whole minutes of the request.
pub open spec fn prolific_delay(req: u64) -> u64 {
    ((req / 60) * 60) as u64
}

/// The delay `transport` applies when `req` seconds are requested.
pub open spec fn spec_delay_for(req: u64, transport: UpsTransport) -> u64 {
    match transport {
        UpsTransport::Descriptor => descriptor_delays()[pick_index(descriptor_delays(), req)],
        UpsTransport::CypressHid => megatec_delays()[pick_index(megatec_delays(), req)],
        UpsTransport::ProlificSerial => prolific_delay(req),
    }
}

pub proof fn lemma_pick_index_bounds(t: Seq<u64>, req: u64)
    requires
        t.len() > 0,
    ensures
        0 <= pick_index(t, req) < t.len(),
    decreases t.len(),
{
    if t.len() > 1 && t.last() > req {
        lemma_pick_index_bounds(t.drop_last(), req);
    }
}

/// Exec lookup into `descriptor_delays`.
fn descriptor_delay_at(i: usize) -> (d: u64)
    requires
        i < 14,
    ensures
        d == descriptor_delays()[i as int],
{
    if i == 0 {
        30
    } else if i == 1 {
        35
    } else if i == 2 {
        40
    } else if i == 3 {
        47
    } else if i == 4 {
        53
    } else {
        60 * (i as u64 - 4)
    }
}

/// Exec lookup into `megatec_delays`.
fn megatec_delay_at(i: usize) -> (d: u64)
    requires
        i < 18,
    ensures
        d == megatec_delays()[i as int],
{
    if i < 8 {
        12 + 6 * i as u64
    } else {
        60 * (i as u64 - 7)
    }
}

/// Index of the descriptor entry that `req` selects.
fn descriptor_index(req: u64) -> (i: usize)
    ensures
        i == pick_index(descriptor_delays(), req),
        i < 14,
{
    let mut best: usize = 0;
    let mut i: usize = 1;
    while i < 14
        invariant
            1 <= i <= 14,
            best == pick_index(descriptor_delays().take(i as int), req),
            best < i,
        decreases 14 - i,
    {
        assert(descriptor_delays().take(i + 1).drop_last() == descriptor_delays().take(i as int));
        if descriptor_delay_at(i) <= req {
            best = i;
        }
        i = i + 1;
    }
    assert(descriptor_delays().take(14) == descriptor_delays());
    best
}

/// Index of the Megatec entry that `req` selects.
fn megatec_index(req: u64) -> (i: usize)
    ensures
        i == pick_index(megatec_delays(), req),
        i < 18,
{
    let mut best: usize = 0;
    let mut i: usize = 1;
    while i < 18
        invariant
            1 <= i <= 18,
            best == pick_index(megatec_delays().take(i as int), req),
            best < i,
        decreases 18 - i,
    {
        assert(megatec_delays().take(i + 1).drop_last() == megatec_delays().take(i as int));
        if megatec_delay_at(i) <= req {
            best = i;
        }
        i = i + 1;
    }
    assert(megatec_delays().take(18) == megatec_delays());
    best
}

impl ShutdownDelay {
    /// The delay `transport` applies when `requested_secs` seconds are
    /// requested: the greatest supported step not above the request, or the
    /// smallest step; whole minutes on the Prolific serial transport.
    pub fn from_secs(requested_secs: u64, transport: UpsTransport) -> (d: Self)
        ensures
            d@ == spec_delay_for(requested_secs, transport),
    {
        match transport {
            UpsTransport::Descriptor => DescriptorShutdownDelay::from_secs(requested_secs).delay,
            UpsTransport::CypressHid => MegatecShutdownDelay::from_secs(requested_secs).delay,
            UpsTransport::ProlificSerial => ProlificShutdownDelay::from_secs(requested_secs).delay,
        }
    }

    /// The delay `transport` applies when `requested` is requested.
    pub fn from_duration(requested: Duration, transport: UpsTransport) -> (d: Self)
        ensures
            d@ == spec_delay_for(duration_whole_secs(requested), transport),
    {
        Self::from_secs(duration_as_secs(requested), transport)
    }

    /// The delay the UPS will use, in seconds.
    pub fn secs(&self) -> (s: u64)
        ensures
            s == self@,
    {
        self.secs
    }

    /// The delay the UPS will use.
    pub fn actual_delay(&self) -> (d: Duration)
        ensures
            duration_whole_secs(d) == self@,
            duration_subsec_nanos(d) == 0,
    {
        duration_new(self.secs, 0)
    }

    /// The delay as text, e.g. `30s`.
    pub fn display(&self) -> (s: String)
        ensures
            s@ == decimal(self@ as nat).push('s'),
    {
        let mut s = String::new();
        push_decimal(&mut s, self.secs);
        push_char(&mut s, 's');
        s
    }
}

/// A step of the MEC0003 descriptor grid with the two report IDs that
/// trigger it: shutting down and staying off, or restoring on mains return.
#[derive(Clone, Copy, Debug, PartialEq, Eq, Structural)]
pub struct DescriptorShutdownDelay {
    pub delay: ShutdownDelay,
    pub shutdown_report: u8,
    pub restore_report: u8,
}

impl DescriptorShutdownDelay {
    /// The step `requested_secs` selects. Step `i` is triggered by report
    /// `0x18 + 16 i` (stay off) or `0x10 + 16 i` (restore).
    pub fn from_secs(requested_secs: u64) -> (d: Self)
        ensures
            d.delay@ == descriptor_delays()[pick_index(descriptor_delays(), requested_secs)],
            d.shutdown_report == 0x18 + 16 * pick_index(descriptor_delays(), requested_secs),
            d.restore_report == 0x10 + 16 * pick_index(descriptor_delays(), requested_secs),
    {
        let i = descriptor_index(requested_secs);
        DescriptorShutdownDelay {
            delay: ShutdownDelay { secs: descriptor_delay_at(i) },
            shutdown_report: 0x18 + 16 * i as u8,
            restore_report: 0x10 + 16 * i as u8,
        }
    }

    /// The step `requested` selects.
    pub fn from_duration(requested: Duration) -> (d: Self)
        ensures
            d.delay@ == descriptor_delays()[pick_index(descriptor_delays(), duration_whole_secs(requested))],
            d.shutdown_report == 0x18 + 16 * pick_index(descriptor_delays(), duration_whole_secs(requested)),
            d.restore_report == 0x10 + 16 * pick_index(descriptor_delays(), duration_whole_secs(requested)),
    {
        Self::from_secs(duration_as_secs(requested))
    }
}

/// How a Megatec shutdown command encodes its delay.
#[derive(Clone, Copy, Debug, PartialEq, Eq, Structural)]
pub enum MegatecDelayCode {
    /// `S.n`: n tenths of a minute.
    Tenths(u8),
    /// `Snn`: whole minutes, two digits.
    Minutes(u8),
}

/// A step of the Cypress (Megatec) grid and its code.
#[derive(Clone, Copy, Debug, PartialEq, Eq, Structural)]
pub struct MegatecShutdownDelay {
    pub delay: ShutdownDelay,
    pub code: MegatecDelayCode,
}

/// Code of Megatec step `i`: tenths 2..9, then minutes 1..10.
pub open spec fn megatec_code(i: int) -> MegatecDelayCode {
    if i < 8 {
        MegatecDelayCode::Tenths((i + 2) as u8)
    } else {
        MegatecDelayCode::Minutes((i - 7) as u8)
    }
}

/// The Megatec shutdown command: `S`, the delay code, `R0000` when the output
/// stays off, and a carriage return.
pub open spec fn megatec_command(code: MegatecDelayCode, stay_off: bool) -> Seq<u8> {
    let delay = match code {
        MegatecDelayCode::Tenths(t) => seq![0x2eu8, (0x30 + t) as u8],
        MegatecDelayCode::Minutes(m) => seq![(0x30 + m / 10) as u8, (0x30 + m % 10) as u8],
    };
    let suffix = if stay_off {
        seq![0x52u8, 0x30u8, 0x30u8, 0x30u8, 0x30u8]
    } else {
        Seq::empty()
    };
    seq![0x53u8] + delay + suffix + seq![CR]
}

impl MegatecShutdownDelay {
    /// The step `requested_secs` selects.
    pub fn from_secs(requested_secs: u64) -> (d: Self)
        ensures
            d.delay@ == megatec_delays()[pick_index(megatec_delays(), requested_secs)],
            d.code == megatec_code(pick_index(megatec_delays(), requested_secs)),
            d.code matches MegatecDelayCode::Tenths(t) ==> 2 <= t <= 9,
            d.code matches MegatecDelayCode::Minutes(m) ==> 1 <= m <= 10,
    {
        let i = megatec_index(requested_secs);
        let code = if i < 8 {
            MegatecDelayCode::Tenths(i as u8 + 2)
        } else {
            MegatecDelayCode::Minutes(i as u8 - 7)
        };
        MegatecShutdownDelay { delay: ShutdownDelay { secs: megatec_delay_at(i) }, code }
    }

    /// The step `requested` selects.
    pub fn from_duration(requested: Duration) -> (d: Self)
        ensures
            d.delay@ == megatec_delays()[pick_index(megatec_delays(), duration_whole_secs(requested))],
            d.code == megatec_code(pick_index(megatec_delays(), duration_whole_secs(requested))),
    {
        Self::from_secs(duration_as_secs(requested))
    }

    /// Writes the shutdown command for this step into `buf` and gives its
    /// length; the rest of `buf` is left as it was.
    pub fn write_shutdown_command(&self, buf: &mut [u8; 10], stay_off: bool) -> (len: usize)
        requires
            self.code matches MegatecDelayCode::Tenths(t) ==> t <= 207,
        ensures
            len <= 10,
            final(buf)@.take(len as int) == megatec_command(self.code, stay_off),
            final(buf)@.skip(len as int) == old(buf)@.skip(len as int),
    {
        let ghost start = buf@;
        let mut len: usize = 0;
        buf[len] = 0x53;
        len += 1;
        match self.code {
            MegatecDelayCode::Tenths(tenths) => {
                buf[len] = 0x2e;
                len += 1;
                buf[len] = 0x30 + tenths;
                len += 1;
            },
            MegatecDelayCode::Minutes(minutes) => {
                buf[len] = 0x30 + minutes / 10;
                len += 1;
                buf[len] = 0x30 + minutes % 10;
                len += 1;
            },
        }
        if stay_off {
            buf[len] = 0x52;
            buf[len + 1] = 0x30;
            buf[len + 2] = 0x30;
            buf[len + 3] = 0x30;
            buf[len + 4] = 0x30;
            len += 5;
        }
        buf[len] = CR;
        len += 1;
        assert(buf@.take(len as int) =~= megatec_command(self.code, stay_off));
        assert(buf@.skip(len as int) =~= start.skip(len as int));
        len
    }
}

/// A Prolific serial delay: whole minutes of the request.
#[derive(Clone, Copy, Debug, PartialEq, Eq, Structural)]
pub struct ProlificShutdownDelay {
    pub delay: ShutdownDelay,
    pub minutes: u64,
}

/// `S<minutes>\r`: shut down after the delay.
pub open spec fn prolific_shutdown_command(minutes: u64) -> Seq<char> {
    seq!['S'] + decimal(minutes as nat) + seq!['\r']
}

/// `S<minutes>R<minutes>\r`: shut down, restore after the same delay.
pub open spec fn prolific_restore_command(minutes: u64) -> Seq<char> {
    seq!['S'] + decimal(minutes as nat) + seq!['R'] + decimal(minutes as nat) + seq!['\r']
}

impl ProlificShutdownDelay {
    /// The delay `requested_secs` selects: its whole minutes.
    pub fn from_secs(requested_secs: u64) -> (d: Self)
        ensures
            d.minutes == requested_secs / 60,
            d.delay@ == prolific_delay(requested_secs),
    {
        let minutes = requested_secs / 60;
        ProlificShutdownDelay { delay: ShutdownDelay { secs: minutes * 60 }, minutes }
    }

    /// The shutdown command.
    pub fn shutdown_command(&self) -> (s: String)
        ensures
            s@ == prolific_shutdown_command(self.minutes),
    {
        let mut s = String::new();
        push_char(&mut s, 'S');
        push_decimal(&mut s, self.minutes);
        push_char(&mut s, '\r');
        s
    }

    /// The shutdown-and-restore command.
    pub fn shutdown_restore_command(&self) -> (s: String)
        ensures
            s@ == prolific_restore_command(self.minutes),
    {
        let mut s = String::new();
        push_char(&mut s, 'S');
        push_decimal(&mut s, self.minutes);
        push_char(&mut s, 'R');
        push_decimal(&mut s, self.minutes);
        push_char(&mut s, '\r');
        s
    }
}


/// Whether `s` seconds is a delay `transport` supports.
pub open spec fn supported_step(transport: UpsTransport, s: u64) -> bool {
    match transport {
        UpsTransport::Descriptor => descriptor_delays().contains(s),
        UpsTransport::CypressHid => megatec_delays().contains(s),
        UpsTransport::ProlificSerial => s % 60 == 0,
    }
}

/// The shortest delay `transport` supports.
pub open spec fn smallest_step(transport: UpsTransport) -> u64 {
    match transport {
        UpsTransport::Descriptor => 30,
        UpsTransport::CypressHid => 12,
        UpsTransport::ProlificSerial => 0,
    }
}

pub open spec fn ascending(t: Seq<u64>) -> bool {
    forall|i: int, j: int| 0 <= i < j < t.len() ==> t[i] < t[j]
}

/// In an ascending table the picked entry is the greatest one not above the
/// request, or the first entry.
proof fn lemma_pick_greatest(t: Seq<u64>, req: u64)
    requires
        t.len() > 0,
        ascending(t),
    ensures
        0 <= pick_index(t, req) < t.len(),
        t[pick_index(t, req)] <= req || pick_index(t, req) == 0,
        forall|j: int| pick_index(t, req) < j < t.len() ==> t[j] > req,
    decreases t.len(),
{
    if t.len() > 1 && t.last() > req {
        let u = t.drop_last();
        assert(ascending(u));
        lemma_pick_greatest(u, req);
        assert forall|j: int| pick_index(t, req) < j < t.len() implies t[j] > req by {
            if j < t.len() - 1 {
                assert(t[j] == u[j]);
            }
        }
    }
}

proof fn lemma_tables_ascending()
    ensures
        ascending(descriptor_delays()),
        ascending(megatec_delays()),
{
    assert(ascending(descriptor_delays())) by {
        let t = descriptor_delays();
        assert forall|i: int, j: int| 0 <= i < j < t.len() implies t[i] < t[j] by {
            assert(t[i] == descriptor_step(i) && t[j] == descriptor_step(j));
        }
    }
    assert(ascending(megatec_delays())) by {
        let t = megatec_delays();
        assert forall|i: int, j: int| 0 <= i < j < t.len() implies t[i] < t[j] by {
            assert(t[i] == megatec_step(i) && t[j] == megatec_step(j));
        }
    }
}

/// The delay a transport applies is a delay it supports; it does not exceed
/// the request unless the request is below the smallest step, in which case
/// it is that step; and every supported delay not above the request is at
/// most the applied one (it is the greatest such step).
pub proof fn law_shutdown_delay_greatest_step(req: u64, transport: UpsTransport)
    ensures
        supported_step(transport, spec_delay_for(req, transport)),
        spec_delay_for(req, transport) <= req || (req < smallest_step(transport)
            && spec_delay_for(req, transport) == smallest_step(transport)),
        forall|s: u64|
            supported_step(transport, s) && s <= req ==> s <= #[trigger] spec_delay_for(req, transport),
{
    lemma_tables_ascending();
    match transport {
        UpsTransport::Descriptor => {
            let t = descriptor_delays();
            lemma_pick_greatest(t, req);
            let i = pick_index(t, req);
            assert(t.contains(t[i]));
            assert forall|s: u64| t.contains(s) && s <= req implies s <= t[i] by {
                let j = choose|j: int| 0 <= j < t.len() && t[j] == s;
                if j > i {
                    assert(t[j] > req);
                } else if j < i {
                    assert(t[j] < t[i]);
                }
            }
            if i == 0 && t[0] > req {
                assert(req < 30);
            }
        },
        UpsTransport::CypressHid => {
            let t = megatec_delays();
            lemma_pick_greatest(t, req);
            let i = pick_index(t, req);
            assert(t.contains(t[i]));
            assert forall|s: u64| t.contains(s) && s <= req implies s <= t[i] by {
                let j = choose|j: int| 0 <= j < t.len() && t[j] == s;
                if j > i {
                    assert(t[j] > req);
                } else if j < i {
                    assert(t[j] < t[i]);
                }
            }
            if i == 0 && t[0] > req {
                assert(req < 12);
            }
        },
        UpsTransport::ProlificSerial => {
            assert forall|s: u64| #[trigger] supported_step(transport, s) && s <= req implies s
                <= prolific_delay(req) by {
                assert(s == (s / 60) * 60);
                assert(s / 60 <= req / 60) by (nonlinear_arith)
                    requires s <= req;
                assert((s / 60) * 60 <= (req / 60) * 60) by (nonlinear_arith)
                    requires s / 60 <= req / 60;
            }
            assert(prolific_delay(req) % 60 == 0) by (nonlinear_arith);
            assert(prolific_delay(req) <= req) by (nonlinear_arith);
        },
    }
}

/// A supported delay is applied as requested: asking for a step a transport
/// supports gives exactly that step.
pub proof fn law_shutdown_delay_keeps_supported(s: u64, transport: UpsTransport)
    requires
        supported_step(transport, s),
    ensures
        spec_delay_for(s, transport) == s,
{
    law_shutdown_delay_greatest_step(s, transport);
    lemma_tables_ascending();
    match transport {
        UpsTransport::Descriptor => {
            let t = descriptor_delays();
            let j = choose|j: int| 0 <= j < t.len() && t[j] == s;
            if j > 0 {
                assert(t[0] < t[j]);
            }
        },
        UpsTransport::CypressHid => {
            let t = megatec_delays();
            let j = choose|j: int| 0 <= j < t.len() && t[j] == s;
            if j > 0 {
                assert(t[0] < t[j]);
            }
        },
        UpsTransport::ProlificSerial => {},
    }
}

/// The delay a Megatec shutdown command asks for, read from its bytes:
/// `S.t...` is `t` tenths of a minute (6 s each), `Smm...` is `mm` whole
/// minutes.
pub open spec fn megatec_command_secs(cmd: Seq<u8>) -> int {
    if cmd[1] == 0x2e {
        (cmd[2] - 0x30) * 6
    } else {
        ((cmd[1] - 0x30) * 10 + (cmd[2] - 0x30)) * 60
    }
}

/// The Megatec command sent for a request asks the UPS for exactly the delay
/// that is reported: for every request, with or without the stay-off suffix,
/// the digits of the command spell the applied delay, and the command is
/// `S`, the delay code, `R0000` when the output stays off, and a carriage
/// return.
pub proof fn law_megatec_command_matches_delay(req: u64, stay_off: bool)
    ensures
        ({
            let cmd = megatec_command(megatec_code(pick_index(megatec_delays(), req)), stay_off);
            &&& cmd[0] == 0x53
            &&& megatec_command_secs(cmd) == spec_delay_for(req, UpsTransport::CypressHid)
            &&& cmd.len() == (if stay_off { 9int } else { 4int })
            &&& cmd.last() == CR
            &&& stay_off ==> cmd.subrange(3, 8) == seq![0x52u8, 0x30u8, 0x30u8, 0x30u8, 0x30u8]
        }),
{
    let t = megatec_delays();
    lemma_pick_index_bounds(t, req);
    let i = pick_index(t, req);
    assert(t[i] == megatec_step(i));
    let cmd = megatec_command(megatec_code(i), stay_off);
    if stay_off {
        assert(cmd.subrange(3, 8) =~= seq![0x52u8, 0x30u8, 0x30u8, 0x30u8, 0x30u8]);
    }
}

/// A longer request never gives a shorter delay.
pub proof fn law_shutdown_delay_monotone(r1: u64, r2: u64, transport: UpsTransport)
    requires
        r1 <= r2,
    ensures
        spec_delay_for(r1, transport) <= spec_delay_for(r2, transport),
{
    law_shutdown_delay_greatest_step(r1, transport);
    law_shutdown_delay_greatest_step(r2, transport);
    let d1 = spec_delay_for(r1, transport);
    if d1 > r1 {
        // r1 is below the smallest step, and d1 is that step
        match transport {
            UpsTransport::Descriptor => {
                lemma_tables_ascending();
                lemma_pick_greatest(descriptor_delays(), r2);
                let t = descriptor_delays();
                let i = pick_index(t, r2);
                assert(i > 0 ==> t[0] < t[i]);
            },
            UpsTransport::CypressHid => {
                lemma_tables_ascending();
                lemma_pick_greatest(megatec_delays(), r2);
                let t = megatec_delays();
                let i = pick_index(t, r2);
                assert(i > 0 ==> t[0] < t[i]);
            },
            UpsTransport::ProlificSerial => {},
        }
    }
}

} // verus!
