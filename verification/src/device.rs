//! Supported devices, the selectors that pick one of them, and the choice of
//! the device to open.

use vstd::prelude::*;
use crate::error::Error;
use crate::report::str_eq;
use crate::text::{push_char, push_hex_digit, hex_char, digit_char, trim, trim_class, CharClass,
    split_once, split_once_char, parse_uint, parse_uint_str, int_error_message, int_error_text,
    IntErrorKind, utf8_len_exceeds, digit_value, parse_digits, lemma_first_index_at, first_index,
    trim_start_by, trim_end_by, is_ws, text_lt, lemma_text_lt_order, str_lt};
use vstd::utf8::encode_utf8;

verus! {

/// Vendor and product IDs of the supported transports.
pub const MEC_VID: u16 = 0x0001;
pub const MEC_PID: u16 = 0x0000;
pub const MEC_ALT_VID: u16 = 0x09d6;
pub const MEC_ALT_PID: u16 = 0x0001;
pub const CYPRESS_VID: u16 = 0x0665;
pub const CYPRESS_PID: u16 = 0x5161;
pub const PROLIFIC_VID: u16 = 0x067b;
pub const PROLIFIC_PID: u16 = 0x2303;

/// USB bus/address of one physical UPS instance.
#[derive(Clone, Copy, Debug, PartialEq, Eq, Structural)]
pub struct DeviceLocation {
    pub bus: u8,
    pub address: u8,
}

/// Selector of a device: `VID:PID`, optionally narrowed to one USB
/// bus/address (`@BUS:ADDR`) or to one serial port (`@PORT`).
#[derive(Clone, Debug, PartialEq, Eq)]
pub struct DeviceSelector {
    pub vid: u16,
    pub pid: u16,
    pub location: Option<DeviceLocation>,
    /// Path of a serial port, e.g. `COM4` or `/dev/ttyUSB0`.
    pub port: Option<String>,
}

/// What a selector says, its serial port as text.
pub struct SelectorView {
    pub vid: u16,
    pub pid: u16,
    pub location: Option<DeviceLocation>,
    pub port: Option<Seq<char>>,
}

impl View for DeviceSelector {
    type V = SelectorView;

    open spec fn view(&self) -> SelectorView {
        SelectorView { vid: self.vid, pid: self.pid, location: self.location, port: path_text(self.port) }
    }
}

/// Transport family of a supported UPS.
#[derive(Clone, Copy, Debug, PartialEq, Eq, Structural)]
pub enum UpsTransport {
    Descriptor,
    CypressHid,
    ProlificSerial,
}

/// A supported UPS currently visible to the host.
#[derive(Clone, Copy, Debug, PartialEq, Eq, Structural)]
pub struct DeviceInfo {
    pub vid: u16,
    pub pid: u16,
    pub bus: u8,
    pub address: u8,
    pub transport: UpsTransport,
}

/// Whether `sel` picks `dev`, found at serial port `path` if it is a serial
/// device: same IDs, the same bus/address when given, and the same port
/// when given.
pub open spec fn selects(sel: SelectorView, dev: DeviceInfo, path: Option<Seq<char>>) -> bool {
    &&& sel.vid == dev.vid
    &&& sel.pid == dev.pid
    &&& match sel.location {
        Some(loc) => loc.bus == dev.bus && loc.address == dev.address,
        None => true,
    }
    &&& match sel.port {
        Some(p) => path == Some(p),
        None => true,
    }
}

impl DeviceSelector {
    /// Selector for a device type.
    pub fn new(vid: u16, pid: u16) -> (s: Self)
        ensures
            s@ == (SelectorView { vid, pid, location: None, port: None }),
    {
        DeviceSelector { vid, pid, location: None, port: None }
    }

    /// Selector for one device at a bus/address.
    pub fn with_location(vid: u16, pid: u16, bus: u8, address: u8) -> (s: Self)
        ensures
            s@ == (SelectorView { vid, pid, location: Some(DeviceLocation { bus, address }), port: None }),
    {
        DeviceSelector { vid, pid, location: Some(DeviceLocation { bus, address }), port: None }
    }

    /// Selector for one device at a serial port.
    pub fn with_port(vid: u16, pid: u16, port: String) -> (s: Self)
        ensures
            s@ == (SelectorView { vid, pid, location: None, port: Some(port@) }),
    {
        DeviceSelector { vid, pid, location: None, port: Some(port) }
    }

    /// Whether this selector picks `device`, found at serial port `path` if
    /// it is a serial device.
    pub fn matches(&self, device: &DeviceInfo, path: &Option<String>) -> (b: bool)
        ensures
            b == selects(self@, *device, path_text(*path)),
    {
        if self.vid != device.vid || self.pid != device.pid {
            return false;
        }
        let at = match self.location {
            Some(location) => location.bus == device.bus && location.address == device.address,
            None => true,
        };
        if !at {
            return false;
        }
        match (&self.port, path) {
            (Some(p), Some(q)) => str_eq(p.as_str(), q.as_str()),
            (Some(_), None) => false,
            (None, _) => true,
        }
    }
}

/// The selector of one device: its IDs and its bus/address.
pub open spec fn device_selector(dev: DeviceInfo) -> SelectorView {
    SelectorView {
        vid: dev.vid,
        pid: dev.pid,
        location: Some(DeviceLocation { bus: dev.bus, address: dev.address }),
        port: None,
    }
}

/// The selector `gcups list` shows for a device: its serial port when it is
/// found at one, else its bus/address.
pub open spec fn listed_selector(dev: DeviceInfo, path: Option<Seq<char>>) -> SelectorView {
    match path {
        Some(p) => SelectorView { vid: dev.vid, pid: dev.pid, location: None, port: Some(p) },
        None => device_selector(dev),
    }
}

impl DeviceInfo {
    /// The selector that picks exactly this device.
    pub fn selector(&self) -> (s: DeviceSelector)
        ensures
            s@ == device_selector(*self),
    {
        DeviceSelector::with_location(self.vid, self.pid, self.bus, self.address)
    }

    /// The selector to list for this device, found at serial port
    /// `serial_path` if it is a serial device.
    pub fn listed_selector(&self, serial_path: &Option<String>) -> (s: DeviceSelector)
        ensures
            s@ == listed_selector(*self, path_text(*serial_path)),
    {
        match serial_path {
            Some(p) => DeviceSelector::with_port(self.vid, self.pid, p.clone()),
            None => self.selector(),
        }
    }
}

/// The transport of a supported VID:PID.
pub open spec fn spec_supported_transport(vid: u16, pid: u16) -> Option<UpsTransport> {
    if (vid == MEC_VID && pid == MEC_PID) || (vid == MEC_ALT_VID && pid == MEC_ALT_PID) {
        Some(UpsTransport::Descriptor)
    } else if vid == CYPRESS_VID && pid == CYPRESS_PID {
        Some(UpsTransport::CypressHid)
    } else if vid == PROLIFIC_VID && pid == PROLIFIC_PID {
        Some(UpsTransport::ProlificSerial)
    } else {
        None
    }
}

/// The transport of a VID:PID, or `None` when the device is not supported.
pub fn supported_transport(vid: u16, pid: u16) -> (t: Option<UpsTransport>)
    ensures
        t == spec_supported_transport(vid, pid),
{
    if (vid == MEC_VID && pid == MEC_PID) || (vid == MEC_ALT_VID && pid == MEC_ALT_PID) {
        Some(UpsTransport::Descriptor)
    } else if vid == CYPRESS_VID && pid == CYPRESS_PID {
        Some(UpsTransport::CypressHid)
    } else if vid == PROLIFIC_VID && pid == PROLIFIC_PID {
        Some(UpsTransport::ProlificSerial)
    } else {
        None
    }
}

/// The transport of a supported device found on the USB bus: the HID
/// transports only (the serial adapter is opened as a serial port).
pub fn usb_transport(vid: u16, pid: u16) -> (t: Option<UpsTransport>)
    ensures
        t == match spec_supported_transport(vid, pid) {
            Some(UpsTransport::ProlificSerial) => None,
            other => other,
        },
{
    match supported_transport(vid, pid) {
        Some(UpsTransport::ProlificSerial) => None,
        other => other,
    }
}

/// The transport of a supported device found as a USB serial port: the
/// serial transport only.
pub fn serial_transport(vid: u16, pid: u16) -> (t: Option<UpsTransport>)
    ensures
        t == match spec_supported_transport(vid, pid) {
            Some(UpsTransport::ProlificSerial) => Some(UpsTransport::ProlificSerial),
            _ => None,
        },
{
    match supported_transport(vid, pid) {
        Some(UpsTransport::ProlificSerial) => Some(UpsTransport::ProlificSerial),
        _ => None,
    }
}


/// Four lowercase hex digits (`{:04x}` of a `u16`).
pub open spec fn hex4(v: u16) -> Seq<char> {
    seq![
        hex_char((v / 4096) as int),
        hex_char(((v / 256) % 16) as int),
        hex_char(((v / 16) % 16) as int),
        hex_char((v % 16) as int),
    ]
}

/// Three decimal digits (`{:03}` of a `u8`).
pub open spec fn dec3(v: u8) -> Seq<char> {
    seq![digit_char((v / 100) as int), digit_char(((v / 10) % 10) as int), digit_char((v % 10) as int)]
}

/// Text of a selector: `vvvv:pppp`, then `@bbb:aaa` when it has a location,
/// else `@` and the port when it has one.
pub open spec fn selector_text(sel: SelectorView) -> Seq<char> {
    hex4(sel.vid) + seq![':'] + hex4(sel.pid) + match sel.location {
        Some(l) => seq!['@'] + dec3(l.bus) + seq![':'] + dec3(l.address),
        None => match sel.port {
            Some(p) => seq!['@'] + p,
            None => Seq::empty(),
        },
    }
}

/// Parses a hexadecimal ID of 1 to 4 bytes.
pub open spec fn parse_hex_id(s: Seq<char>, name: Seq<char>) -> Result<u16, Seq<char>> {
    if s.len() == 0 || encode_utf8(s).len() > 4 {
        Err(name + " must be 1 to 4 hexadecimal digits"@)
    } else {
        match parse_uint(s, 16, 0xffff) {
            Ok(v) => Ok(v as u16),
            Err(k) => Err("invalid "@ + name + ": "@ + int_error_message(k)),
        }
    }
}

/// Parses a decimal bus or address number.
pub open spec fn parse_dec_id(s: Seq<char>, name: Seq<char>) -> Result<u8, Seq<char>> {
    if s.len() == 0 {
        Err(name + " must not be empty"@)
    } else {
        match parse_uint(s, 10, 255) {
            Ok(v) => Ok(v as u8),
            Err(k) => Err("invalid "@ + name + ": "@ + int_error_message(k)),
        }
    }
}

/// Parses `VID:PID`, `VID:PID@BUS:ADDR` or `VID:PID@PORT` (surrounding
/// whitespace ignored): VID and PID in hexadecimal, BUS and ADDR in decimal.
/// Text after `@` with a colon is `BUS:ADDR`; any other non-empty text is
/// the path of a serial port.
pub open spec fn parse_selector(s: Seq<char>) -> Result<SelectorView, Seq<char>> {
    let t = trim(s);
    let (id, loc) = match split_once(t, '@') {
        Some((a, b)) => (a, Some(b)),
        None => (t, None),
    };
    match split_once(id, ':') {
        None => Err("expected VID:PID or VID:PID@BUS:ADDR"@),
        Some((v, p)) => match parse_hex_id(v, "VID"@) {
            Err(e) => Err(e),
            Ok(vid) => match parse_hex_id(p, "PID"@) {
                Err(e) => Err(e),
                Ok(pid) => match loc {
                    None => Ok(SelectorView { vid, pid, location: None, port: None }),
                    Some(l) => match split_once(l, ':') {
                        None => if l.len() == 0 {
                            Err("expected BUS:ADDR after @"@)
                        } else {
                            Ok(SelectorView { vid, pid, location: None, port: Some(l) })
                        },
                        Some((b, a)) => match parse_dec_id(b, "bus"@) {
                            Err(e) => Err(e),
                            Ok(bus) => match parse_dec_id(a, "address"@) {
                                Err(e) => Err(e),
                                Ok(address) => Ok(
                                    SelectorView {
                                        vid,
                                        pid,
                                        location: Some(DeviceLocation { bus, address }),
                                        port: None,
                                    },
                                ),
                            },
                        },
                    },
                },
            },
        },
    }
}

fn push_hex4(s: &mut String, v: u16)
    ensures
        final(s)@ == old(s)@ + hex4(v),
{
    let ghost s0 = s@;
    push_hex_digit(s, (v / 4096) as u8);
    push_hex_digit(s, ((v / 256) % 16) as u8);
    push_hex_digit(s, ((v / 16) % 16) as u8);
    push_hex_digit(s, (v % 16) as u8);
    assert(s@ =~= s0 + hex4(v));
}

fn push_dec3(s: &mut String, v: u8)
    ensures
        final(s)@ == old(s)@ + dec3(v),
{
    let ghost s0 = s@;
    push_char(s, (v / 100 + 48) as char);
    push_char(s, ((v / 10) % 10 + 48) as char);
    push_char(s, (v % 10 + 48) as char);
    assert(s@ =~= s0 + dec3(v));
}

fn parse_hex_u16(s: &str, name: &str) -> (r: Result<u16, String>)
    ensures
        match parse_hex_id(s@, name@) {
            Ok(v) => r matches Ok(x) && x == v,
            Err(e) => r matches Err(m) && m@ == e,
        },
{
    if s.is_empty() || utf8_len_exceeds(s, 4) {
        let mut m = String::new();
        m.append(name);
        m.append(" must be 1 to 4 hexadecimal digits");
        return Err(m);
    }
    match parse_uint_str(s, 16, 0xffff) {
        Ok(v) => Ok(v as u16),
        Err(k) => {
            let mut m = String::new();
            m.append("invalid ");
            m.append(name);
            m.append(": ");
            m.append(int_error_text(k));
            Err(m)
        },
    }
}

fn parse_decimal_u8(s: &str, name: &str) -> (r: Result<u8, String>)
    ensures
        match parse_dec_id(s@, name@) {
            Ok(v) => r matches Ok(x) && x == v,
            Err(e) => r matches Err(m) && m@ == e,
        },
{
    if s.is_empty() {
        let mut m = String::new();
        m.append(name);
        m.append(" must not be empty");
        return Err(m);
    }
    match parse_uint_str(s, 10, 255) {
        Ok(v) => Ok(v as u8),
        Err(k) => {
            let mut m = String::new();
            m.append("invalid ");
            m.append(name);
            m.append(": ");
            m.append(int_error_text(k));
            Err(m)
        },
    }
}

fn owned_text(text: &str) -> (r: String)
    ensures
        r@ == text@,
{
    let mut m = String::new();
    m.append(text);
    m
}

impl DeviceSelector {
    /// The selector as text, as `gcups list` prints it and `parse` reads it.
    pub fn to_string(&self) -> (s: String)
        ensures
            s@ == selector_text(self@),
    {
        let mut s = String::new();
        push_hex4(&mut s, self.vid);
        push_char(&mut s, ':');
        push_hex4(&mut s, self.pid);
        match self.location {
            Some(l) => {
                push_char(&mut s, '@');
                push_dec3(&mut s, l.bus);
                push_char(&mut s, ':');
                push_dec3(&mut s, l.address);
            },
            None => match &self.port {
                Some(p) => {
                    push_char(&mut s, '@');
                    s.append(p.as_str());
                },
                None => {},
            },
        }
        assert(s@ =~= selector_text(self@));
        s
    }

    /// Parses `VID:PID`, `VID:PID@BUS:ADDR` or `VID:PID@PORT`; the error says
    /// what is wrong.
    pub fn parse(s: &str) -> (r: Result<DeviceSelector, String>)
        ensures
            match parse_selector(s@) {
                Ok(v) => r matches Ok(sel) && sel@ == v,
                Err(e) => r matches Err(m) && m@ == e,
            },
    {
        let t = trim_class(s, CharClass::Whitespace);
        let (id, location) = match split_once_char(t, '@') {
            Some((id, location)) => (id, Some(location)),
            None => (t, None),
        };
        let (vid, pid) = match split_once_char(id, ':') {
            Some(parts) => parts,
            None => {
                return Err(owned_text("expected VID:PID or VID:PID@BUS:ADDR"));
            },
        };
        let vid = parse_hex_u16(vid, "VID")?;
        let pid = parse_hex_u16(pid, "PID")?;
        let location = match location {
            None => {
                return Ok(DeviceSelector::new(vid, pid));
            },
            Some(location) => location,
        };
        let (bus, address) = match split_once_char(location, ':') {
            Some(parts) => parts,
            None => {
                if location.unicode_len() == 0 {
                    return Err(owned_text("expected BUS:ADDR after @"));
                }
                return Ok(DeviceSelector::with_port(vid, pid, owned_text(location)));
            },
        };
        let bus = parse_decimal_u8(bus, "bus")?;
        let address = parse_decimal_u8(address, "address")?;
        Ok(DeviceSelector::with_location(vid, pid, bus, address))
    }
}

impl core::str::FromStr for DeviceSelector {
    type Err = String;

    fn from_str(s: &str) -> (r: Result<Self, String>)
        ensures
            match parse_selector(s@) {
                Ok(v) => r matches Ok(sel) && sel@ == v,
                Err(e) => r matches Err(m) && m@ == e,
            },
    {
        DeviceSelector::parse(s)
    }
}


impl UpsTransport {
    /// Name of the transport as `gcups list` prints it.
    pub fn to_string(&self) -> (s: String)
        ensures
            s@ == transport_name(*self),
    {
        let mut s = String::new();
        match self {
            UpsTransport::Descriptor => s.append("MEC0003 descriptor"),
            UpsTransport::CypressHid => s.append("Cypress HID Megatec/Q1"),
            UpsTransport::ProlificSerial => s.append("Prolific serial Q1"),
        }
        s
    }
}

pub open spec fn transport_name(t: UpsTransport) -> Seq<char> {
    match t {
        UpsTransport::Descriptor => "MEC0003 descriptor"@,
        UpsTransport::CypressHid => "Cypress HID Megatec/Q1"@,
        UpsTransport::ProlificSerial => "Prolific serial Q1"@,
    }
}

/// UTF-8 spends one byte on each ASCII character.
proof fn lemma_ascii_utf8_len(s: Seq<char>)
    requires
        forall|j: int| 0 <= j < s.len() ==> (#[trigger] s[j] as u32) < 0x80,
    ensures
        encode_utf8(s).len() == s.len(),
    decreases s.len(),
{
    if s.len() > 0 {
        let t = s.drop_first();
        assert forall|j: int| 0 <= j < t.len() implies (#[trigger] t[j] as u32) < 0x80 by {
            assert(t[j] == s[j + 1]);
        }
        lemma_ascii_utf8_len(t);
    }
}

proof fn lemma_hex_digit(d: int)
    requires
        0 <= d < 16,
    ensures
        digit_value(hex_char(d), 16) == Some(d as nat),
        (hex_char(d) as u32) < 0x80,
        hex_char(d) != '@' && hex_char(d) != ':' && hex_char(d) != '+' && hex_char(d) != '-',
        !is_ws(hex_char(d)),
{
}

proof fn lemma_dec_digit(d: int)
    requires
        0 <= d < 10,
    ensures
        digit_value(digit_char(d), 10) == Some(d as nat),
        digit_char(d) != '@' && digit_char(d) != ':' && digit_char(d) != '+' && digit_char(d) != '-',
        !is_ws(digit_char(d)),
{
}

/// Four hex digits read back as the `u16` they print.
proof fn lemma_hex4_parses(v: u16, name: Seq<char>)
    ensures
        parse_hex_id(hex4(v), name) == Ok::<u16, Seq<char>>(v),
{
    let s = hex4(v);
    let d0 = (v / 4096) as int;
    let d1 = ((v / 256) % 16) as int;
    let d2 = ((v / 16) % 16) as int;
    let d3 = (v % 16) as int;
    lemma_hex_digit(d0);
    lemma_hex_digit(d1);
    lemma_hex_digit(d2);
    lemma_hex_digit(d3);
    assert(((d0 * 16 + d1) * 16 + d2) * 16 + d3 == v) by (nonlinear_arith)
        requires
            d0 == v / 4096,
            d1 == (v / 256) % 16,
            d2 == (v / 16) % 16,
            d3 == v % 16,
    ;
    assert forall|j: int| 0 <= j < s.len() implies (#[trigger] s[j] as u32) < 0x80 by {}
    lemma_ascii_utf8_len(s);
    let s1 = s.drop_first();
    let s2 = s1.drop_first();
    let s3 = s2.drop_first();
    let s4 = s3.drop_first();
    assert(s1 =~= seq![hex_char(d1), hex_char(d2), hex_char(d3)]);
    assert(s2 =~= seq![hex_char(d2), hex_char(d3)]);
    assert(s3 =~= seq![hex_char(d3)]);
    assert(s4 =~= Seq::<char>::empty());
    let a1 = d0 as nat;
    let a2 = (d0 * 16 + d1) as nat;
    let a3 = ((d0 * 16 + d1) * 16 + d2) as nat;
    assert(parse_digits(s4, 16, 0xffff, v as nat) == Ok::<nat, IntErrorKind>(v as nat));
    assert(parse_digits(s3, 16, 0xffff, a3) == parse_digits(s4, 16, 0xffff, v as nat));
    assert(parse_digits(s2, 16, 0xffff, a2) == parse_digits(s3, 16, 0xffff, a3));
    assert(parse_digits(s1, 16, 0xffff, a1) == parse_digits(s2, 16, 0xffff, a2));
    assert(parse_digits(s, 16, 0xffff, 0) == parse_digits(s1, 16, 0xffff, a1));
}

/// Three decimal digits read back as the `u8` they print.
proof fn lemma_dec3_parses(v: u8, name: Seq<char>)
    ensures
        parse_dec_id(dec3(v), name) == Ok::<u8, Seq<char>>(v),
{
    let s = dec3(v);
    let d0 = (v / 100) as int;
    let d1 = ((v / 10) % 10) as int;
    let d2 = (v % 10) as int;
    lemma_dec_digit(d0);
    lemma_dec_digit(d1);
    lemma_dec_digit(d2);
    assert((d0 * 10 + d1) * 10 + d2 == v) by (nonlinear_arith)
        requires
            d0 == v / 100,
            d1 == (v / 10) % 10,
            d2 == v % 10,
    ;
    let s1 = s.drop_first();
    let s2 = s1.drop_first();
    let s3 = s2.drop_first();
    assert(s1 =~= seq![digit_char(d1), digit_char(d2)]);
    assert(s2 =~= seq![digit_char(d2)]);
    assert(s3 =~= Seq::<char>::empty());
    let a1 = d0 as nat;
    let a2 = (d0 * 10 + d1) as nat;
    assert(parse_digits(s3, 10, 255, v as nat) == Ok::<nat, IntErrorKind>(v as nat));
    assert(parse_digits(s2, 10, 255, a2) == parse_digits(s3, 10, 255, v as nat));
    assert(parse_digits(s1, 10, 255, a1) == parse_digits(s2, 10, 255, a2));
    assert(parse_digits(s, 10, 255, 0) == parse_digits(s1, 10, 255, a1));
}

/// What `to_string` prints, `parse` reads back as the same selector: the
/// `VID:PID@BUS:ADDR` or `VID:PID@PORT` that `gcups list` shows reads back
/// as the selector it was printed from.
pub proof fn law_selector_text_round_trip(sel: DeviceSelector)
    requires
        printable(sel@),
    ensures
        parse_selector(selector_text(sel@)) == Ok::<SelectorView, Seq<char>>(sel@),
{
    let sel = sel@;
    let t = selector_text(sel);
    let v = hex4(sel.vid);
    let p = hex4(sel.pid);
    let h = v + seq![':'] + p;
    lemma_hex_digit((sel.vid / 4096) as int);
    lemma_hex_digit(((sel.vid / 256) % 16) as int);
    lemma_hex_digit(((sel.vid / 16) % 16) as int);
    lemma_hex_digit((sel.vid % 16) as int);
    lemma_hex_digit((sel.pid / 4096) as int);
    lemma_hex_digit(((sel.pid / 256) % 16) as int);
    lemma_hex_digit(((sel.pid / 16) % 16) as int);
    lemma_hex_digit((sel.pid % 16) as int);
    assert(h.len() == 9);
    assert forall|j: int| 0 <= j < 9 implies #[trigger] h[j] != '@' by {
        if j < 4 {
            assert(h[j] == v[j]);
        } else if j > 4 {
            assert(h[j] == p[j - 5]);
        }
    }
    assert(t[0] == v[0]);
    assert(!is_ws(t[0]));
    assert(trim_start_by(t, CharClass::Whitespace) == t);
    // the id part splits at its colon
    assert forall|j: int| 0 <= j < 4 implies #[trigger] h[j] != ':' by {
        assert(h[j] == v[j]);
    }
    lemma_first_index_at(h, ':', 4);
    assert(h.take(4) =~= v);
    assert(h.skip(5) =~= p);
    lemma_hex4_parses(sel.vid, "VID"@);
    lemma_hex4_parses(sel.pid, "PID"@);
    match sel.location {
        None => match sel.port {
            None => {
                assert(t =~= h);
                assert(!is_ws(t.last()));
                assert(trim_end_by(t, CharClass::Whitespace) == t);
                lemma_first_index_at(t, '@', 9);
            },
            Some(port) => {
                assert(t =~= h + seq!['@'] + port);
                assert(t.last() == port.last());
                assert(trim_end_by(t, CharClass::Whitespace) == t);
                assert forall|j: int| 0 <= j < 9 implies #[trigger] t[j] != '@' by {
                    assert(t[j] == h[j]);
                }
                lemma_first_index_at(t, '@', 9);
                assert(t.take(9) =~= h);
                assert(t.skip(10) =~= port);
                lemma_first_index_at(port, ':', port.len() as int);
            },
        },
        Some(l) => {
            let b = dec3(l.bus);
            let a = dec3(l.address);
            let loc = b + seq![':'] + a;
            lemma_dec_digit((l.bus / 100) as int);
            lemma_dec_digit(((l.bus / 10) % 10) as int);
            lemma_dec_digit((l.bus % 10) as int);
            lemma_dec_digit((l.address / 100) as int);
            lemma_dec_digit(((l.address / 10) % 10) as int);
            lemma_dec_digit((l.address % 10) as int);
            assert(t =~= h + seq!['@'] + loc);
            assert(t.last() == a[2]);
            assert(!is_ws(t.last()));
            assert(trim_end_by(t, CharClass::Whitespace) == t);
            assert forall|j: int| 0 <= j < 9 implies #[trigger] t[j] != '@' by {
                assert(t[j] == h[j]);
            }
            lemma_first_index_at(t, '@', 9);
            assert(t.take(9) =~= h);
            assert(t.skip(10) =~= loc);
            assert forall|j: int| 0 <= j < 3 implies #[trigger] loc[j] != ':' by {
                assert(loc[j] == b[j]);
            }
            lemma_first_index_at(loc, ':', 3);
            assert(loc.take(3) =~= b);
            assert(loc.skip(4) =~= a);
            lemma_dec3_parses(l.bus, "bus"@);
            lemma_dec3_parses(l.address, "address"@);
        },
    }
}

/// Whether `to_string` prints a selector that `parse` reads back: not both
/// a location and a port, and a port that is not empty, holds no colon and
/// does not end in whitespace.
pub open spec fn printable(sel: SelectorView) -> bool {
    match sel.port {
        Some(p) => sel.location is None && p.len() > 0 && (forall|j: int| 0 <= j < p.len() ==> p[j]
            != ':') && !is_ws(p.last()),
        None => true,
    }
}

/// Whether `sel` picks device `j` of `devices`, found at `paths[j]`.
pub open spec fn picks(sel: SelectorView, devices: Seq<DeviceInfo>, paths: Seq<Option<String>>, j: int) -> bool {
    selects(sel, devices[j], path_text(paths[j]))
}

/// Number of devices that `sel` picks (device `j` found at `paths[j]`).
pub open spec fn match_count(devices: Seq<DeviceInfo>, paths: Seq<Option<String>>, sel: SelectorView) -> nat
    decreases devices.len(),
{
    if devices.len() == 0 {
        0
    } else {
        match_count(devices.drop_last(), paths, sel) + if picks(sel, devices, paths, devices.len() - 1) {
            1nat
        } else {
            0nat
        }
    }
}

proof fn lemma_match_count_bound(devices: Seq<DeviceInfo>, paths: Seq<Option<String>>, sel: SelectorView)
    ensures
        match_count(devices, paths, sel) <= devices.len(),
        match_count(devices, paths, sel) == 0 ==> forall|j: int|
            0 <= j < devices.len() ==> !#[trigger] picks(sel, devices, paths, j),
    decreases devices.len(),
{
    if devices.len() > 0 {
        let d = devices.drop_last();
        lemma_match_count_bound(d, paths, sel);
        assert forall|j: int| 0 <= j < devices.len() - 1 implies d[j] == devices[j] by {}
        assert forall|j: int| 0 <= j < devices.len() - 1 implies picks(sel, d, paths, j) == #[trigger] picks(sel, devices, paths, j) by {
            assert(d[j] == devices[j]);
        }
    }
}

proof fn lemma_match_count_one(devices: Seq<DeviceInfo>, paths: Seq<Option<String>>, sel: SelectorView, i: int)
    requires
        0 <= i < devices.len(),
        picks(sel, devices, paths, i),
        match_count(devices, paths, sel) == 1,
    ensures
        forall|j: int| 0 <= j < devices.len() && j != i ==> !#[trigger] picks(sel, devices, paths, j),
    decreases devices.len(),
{
    let d = devices.drop_last();
    lemma_match_count_bound(d, paths, sel);
    if i == devices.len() - 1 {
        assert forall|j: int| 0 <= j < devices.len() && j != i implies !#[trigger] picks(sel, devices, paths, j) by {
            assert(devices[j] == d[j]);
            assert(!picks(sel, d, paths, j));
        }
    } else {
        assert(d[i] == devices[i]);
        assert(picks(sel, d, paths, i));
        if picks(sel, devices, paths, devices.len() - 1) {
            lemma_match_count_positive(d, paths, sel, i);
        }
        lemma_match_count_one(d, paths, sel, i);
        assert forall|j: int| 0 <= j < devices.len() && j != i implies !#[trigger] picks(sel, devices, paths, j) by {
            if j < devices.len() - 1 {
                assert(devices[j] == d[j]);
                assert(!picks(sel, d, paths, j));
            }
        }
    }
}

proof fn lemma_match_count_positive(devices: Seq<DeviceInfo>, paths: Seq<Option<String>>, sel: SelectorView, i: int)
    requires
        0 <= i < devices.len(),
        picks(sel, devices, paths, i),
    ensures
        match_count(devices, paths, sel) >= 1,
    decreases devices.len(),
{
    if i < devices.len() - 1 {
        let d = devices.drop_last();
        assert(d[i] == devices[i]);
        assert(picks(sel, d, paths, i));
        lemma_match_count_positive(d, paths, sel, i);
    }
}

proof fn lemma_match_count_none(devices: Seq<DeviceInfo>, paths: Seq<Option<String>>, sel: SelectorView)
    requires
        forall|j: int| 0 <= j < devices.len() ==> !#[trigger] picks(sel, devices, paths, j),
    ensures
        match_count(devices, paths, sel) == 0,
    decreases devices.len(),
{
    if devices.len() > 0 {
        let d = devices.drop_last();
        assert forall|j: int| 0 <= j < d.len() implies !#[trigger] picks(sel, d, paths, j) by {
            assert(d[j] == devices[j]);
            assert(!picks(sel, devices, paths, j));
        }
        lemma_match_count_none(d, paths, sel);
    }
}

proof fn lemma_match_count_only(devices: Seq<DeviceInfo>, paths: Seq<Option<String>>, sel: SelectorView, i: int)
    requires
        0 <= i < devices.len(),
        picks(sel, devices, paths, i),
        forall|j: int| 0 <= j < devices.len() && j != i ==> !#[trigger] picks(sel, devices, paths, j),
    ensures
        match_count(devices, paths, sel) == 1,
    decreases devices.len(),
{
    let d = devices.drop_last();
    if i == devices.len() - 1 {
        assert forall|j: int| 0 <= j < d.len() implies !#[trigger] picks(sel, d, paths, j) by {
            assert(d[j] == devices[j]);
            assert(!picks(sel, devices, paths, j));
        }
        lemma_match_count_none(d, paths, sel);
    } else {
        assert(d[i] == devices[i]);
        assert(picks(sel, d, paths, i));
        assert forall|j: int| 0 <= j < d.len() && j != i implies !#[trigger] picks(sel, d, paths, j) by {
            assert(d[j] == devices[j]);
            assert(!picks(sel, devices, paths, j));
        }
        lemma_match_count_only(d, paths, sel, i);
    }
}

/// The selector `gcups list` prints for a device (`VID:PID@PORT` for a
/// serial device, `VID:PID@BUS:ADDR` otherwise) picks that device and no
/// other, when no two devices share a serial port and devices that share IDs
/// and a bus/address are serial devices: with it `select_device` opens that
/// device.
pub proof fn law_device_selector_picks_it(devices: Seq<DeviceInfo>, paths: Seq<Option<String>>, i: int)
    requires
        0 <= i < devices.len(),
        paths.len() == devices.len(),
        forall|j: int, k: int|
            #![trigger paths[j], paths[k]]
            0 <= j < devices.len() && 0 <= k < devices.len() && j != k && paths[j] is Some
                ==> path_text(paths[j]) != path_text(paths[k]),
        forall|j: int, k: int|
            #![trigger devices[j], devices[k]]
            0 <= j < devices.len() && 0 <= k < devices.len() && j != k && devices[j].vid
                == devices[k].vid && devices[j].pid == devices[k].pid && devices[j].bus
                == devices[k].bus && devices[j].address == devices[k].address ==> paths[j] is Some
                && paths[k] is Some,
    ensures
        picks(listed_selector(devices[i], path_text(paths[i])), devices, paths, i),
        match_count(devices, paths, listed_selector(devices[i], path_text(paths[i]))) == 1,
{
    let sel = listed_selector(devices[i], path_text(paths[i]));
    assert forall|j: int| 0 <= j < devices.len() && j != i implies !#[trigger] picks(sel, devices, paths, j) by {
        assert(devices[i] == devices[i] && paths[i] == paths[i]);
        if paths[i] is Some {
            assert(path_text(paths[i]) != path_text(paths[j]));
        } else {
            assert(devices[j] == devices[j]);
        }
    }
    lemma_match_count_only(devices, paths, sel, i);
}

/// Place of a transport in listings: descriptor devices, then Cypress, then
/// serial.
pub open spec fn transport_rank(t: UpsTransport) -> int {
    match t {
        UpsTransport::Descriptor => 0,
        UpsTransport::CypressHid => 1,
        UpsTransport::ProlificSerial => 2,
    }
}

/// The text of an optional serial path.
pub open spec fn path_text(p: Option<String>) -> Option<Seq<char>> {
    match p {
        Some(s) => Some(s@),
        None => None,
    }
}

/// Order of optional serial paths: none first, then by text.
pub open spec fn path_lt(a: Option<Seq<char>>, b: Option<Seq<char>>) -> bool {
    match (a, b) {
        (None, Some(_)) => true,
        (Some(x), Some(y)) => text_lt(x, y),
        _ => false,
    }
}

/// Whether device `a` (at serial path `pa`, if any) lists strictly before
/// device `b`: by transport, then bus, then address, then serial path.
pub open spec fn lists_before(a: DeviceInfo, pa: Option<Seq<char>>, b: DeviceInfo, pb: Option<Seq<char>>) -> bool {
    if transport_rank(a.transport) != transport_rank(b.transport) {
        transport_rank(a.transport) < transport_rank(b.transport)
    } else if a.bus != b.bus {
        a.bus < b.bus
    } else if a.address != b.address {
        a.address < b.address
    } else {
        path_lt(pa, pb)
    }
}

/// `lists_before` is a strict weak order: asymmetric, and when `c` lists
/// before `a`, any `b` lists after `c` or before `a`.
proof fn lemma_lists_before_order(
    a: DeviceInfo,
    pa: Option<Seq<char>>,
    b: DeviceInfo,
    pb: Option<Seq<char>>,
    c: DeviceInfo,
    pc: Option<Seq<char>>,
)
    ensures
        lists_before(a, pa, b, pb) ==> !lists_before(b, pb, a, pa),
        lists_before(c, pc, a, pa) ==> lists_before(b, pb, a, pa) || lists_before(c, pc, b, pb),
{
    if let (Some(x), Some(y)) = (pa, pb) {
        lemma_text_lt_order(x, y, x);
    }
    if let (Some(x), Some(y), Some(z)) = (pc, pa, pb) {
        lemma_text_lt_order(z, x, y);
        lemma_text_lt_order(x, z, y);
    }
}

/// Whether the device at index `i` lists before the one at index `j`; equal
/// keys keep the order in which the devices were found.
pub open spec fn listed_before(devices: Seq<DeviceInfo>, paths: Seq<Option<String>>, i: int, j: int) -> bool {
    lists_before(devices[i], path_text(paths[i]), devices[j], path_text(paths[j])) || (!lists_before(
        devices[j],
        path_text(paths[j]),
        devices[i],
        path_text(paths[i]),
    ) && i < j)
}

fn device_lists_before(a: &DeviceInfo, pa: &Option<String>, b: &DeviceInfo, pb: &Option<String>) -> (r: bool)
    ensures
        r == lists_before(*a, path_text(*pa), *b, path_text(*pb)),
{
    let ra: u8 = match a.transport {
        UpsTransport::Descriptor => 0,
        UpsTransport::CypressHid => 1,
        UpsTransport::ProlificSerial => 2,
    };
    let rb: u8 = match b.transport {
        UpsTransport::Descriptor => 0,
        UpsTransport::CypressHid => 1,
        UpsTransport::ProlificSerial => 2,
    };
    if ra != rb {
        ra < rb
    } else if a.bus != b.bus {
        a.bus < b.bus
    } else if a.address != b.address {
        a.address < b.address
    } else {
        match (pa, pb) {
            (None, Some(_)) => true,
            (Some(x), Some(y)) => str_lt(x.as_str(), y.as_str()),
            _ => false,
        }
    }
}

/// The order in which found devices are listed: the indices of `devices`
/// (with the serial path of each, if any), each once, sorted by transport,
/// bus, address and serial path, ties kept in the order found.
pub fn listing_order(devices: &[DeviceInfo], paths: &[Option<String>]) -> (order: Vec<usize>)
    requires
        devices@.len() == paths@.len(),
    ensures
        order@.len() == devices@.len(),
        forall|k: int| 0 <= k < order@.len() ==> #[trigger] order@[k] < devices@.len(),
        forall|x: int, y: int|
            0 <= x < y < order@.len() ==> listed_before(
                devices@,
                paths@,
                #[trigger] order@[x] as int,
                #[trigger] order@[y] as int,
            ),
{
    let n = devices.len();
    let mut order: Vec<usize> = Vec::new();
    let mut i: usize = 0;
    while i < n
        invariant
            n == devices@.len(),
            n == paths@.len(),
            i <= n,
            order@.len() == i,
            forall|k: int| 0 <= k < order@.len() ==> #[trigger] order@[k] < i,
            forall|x: int, y: int|
                0 <= x < y < order@.len() ==> listed_before(
                    devices@,
                    paths@,
                    #[trigger] order@[x] as int,
                    #[trigger] order@[y] as int,
                ),
        decreases n - i,
    {
        let mut p: usize = i;
        while p > 0 && device_lists_before(&devices[i], &paths[i], &devices[order[p - 1]], &paths[order[p - 1]])
            invariant
                n == devices@.len(),
                n == paths@.len(),
                i < n,
                p <= i,
                order@.len() == i,
                forall|k: int| 0 <= k < order@.len() ==> #[trigger] order@[k] < i,
                forall|y: int|
                    p <= y < i ==> lists_before(
                        devices@[i as int],
                        path_text(paths@[i as int]),
                        devices@[#[trigger] order@[y] as int],
                        path_text(paths@[order@[y] as int]),
                    ),
            decreases p,
        {
            p = p - 1;
        }
        let ghost before = order@;
        proof {
            let di = devices@[i as int];
            let pi = path_text(paths@[i as int]);
            assert forall|x: int| 0 <= x < p implies listed_before(devices@, paths@, #[trigger] before[x] as int, i as int) by {
                let q = before[p - 1] as int;
                let o = before[x] as int;
                assert(!lists_before(di, pi, devices@[q], path_text(paths@[q])));
                lemma_lists_before_order(devices@[o], path_text(paths@[o]), devices@[q], path_text(paths@[q]), di, pi);
                if x < p - 1 {
                    assert(listed_before(devices@, paths@, before[x] as int, before[p - 1] as int));
                }
            }
        }
        order.insert(p, i);
        proof {
            assert forall|x: int, y: int|
                0 <= x < y < order@.len() implies listed_before(
                    devices@,
                    paths@,
                    #[trigger] order@[x] as int,
                    #[trigger] order@[y] as int,
                ) by {
                if y < p {
                    assert(order@[x] == before[x] && order@[y] == before[y]);
                } else if y == p {
                    assert(order@[x] == before[x]);
                } else if x == p {
                    assert(order@[y] == before[y - 1]);
                } else if x < p {
                    assert(order@[x] == before[x] && order@[y] == before[y - 1]);
                } else {
                    assert(order@[x] == before[x - 1] && order@[y] == before[y - 1]);
                }
            }
        }
        i = i + 1;
    }
    order
}

/// Picks the device to open among `devices`, each found at serial port
/// `paths[i]` if it is a serial device. Without a selector exactly one device
/// must be connected; with one, exactly one device must match it.
pub fn select_device(devices: &[DeviceInfo], paths: &[Option<String>], selector: Option<DeviceSelector>) -> (r: Result<usize, Error>)
    requires
        paths@.len() == devices@.len(),
    ensures
        match selector {
            None => if devices@.len() == 0 {
                r == Err::<usize, Error>(Error::DeviceNotFound)
            } else if devices@.len() == 1 {
                r == Ok::<usize, Error>(0)
            } else {
                r == Err::<usize, Error>(Error::AmbiguousDeviceAuto { count: devices@.len() as usize })
            },
            Some(sel) => {
                let c = match_count(devices@, paths@, sel@);
                if c == 0 {
                    r == Err::<usize, Error>(Error::DeviceNotFoundBySelector { selector: sel })
                } else if c == 1 {
                    r matches Ok(i) && i < devices@.len() && picks(sel@, devices@, paths@, i as int)
                        && forall|j: int| 0 <= j < devices@.len() && j != i ==> !#[trigger] picks(sel@, devices@, paths@, j)
                } else {
                    r == Err::<usize, Error>(Error::AmbiguousDeviceSelector { selector: sel, count: c as usize })
                }
            },
        },
{
    let selector = match selector {
        None => {
            if devices.len() == 0 {
                return Err(Error::DeviceNotFound);
            } else if devices.len() == 1 {
                return Ok(0);
            } else {
                return Err(Error::AmbiguousDeviceAuto { count: devices.len() });
            }
        },
        Some(selector) => selector,
    };
    let mut count: usize = 0;
    let mut selected: Option<usize> = None;
    let mut i: usize = 0;
    while i < devices.len()
        invariant
            i <= devices@.len(),
            paths@.len() == devices@.len(),
            count == match_count(devices@.take(i as int), paths@, selector@),
            count <= i,
            match selected {
                Some(k) => k < i && picks(selector@, devices@, paths@, k as int),
                None => count == 0,
            },
        decreases devices@.len() - i,
    {
        assert(devices@.take(i + 1).drop_last() == devices@.take(i as int));
        assert(devices@.take(i + 1)[i as int] == devices@[i as int]);
        if selector.matches(&devices[i], &paths[i]) {
            count = count + 1;
            selected = Some(i);
        }
        i = i + 1;
    }
    assert(devices@.take(devices@.len() as int) == devices@);
    if count == 0 {
        Err(Error::DeviceNotFoundBySelector { selector })
    } else if count == 1 {
        match selected {
            Some(k) => {
                proof {
                    lemma_match_count_one(devices@, paths@, selector@, k as int);
                }
                Ok(k)
            },
            None => Err(Error::DeviceNotFoundBySelector { selector }),
        }
    } else {
        Err(Error::AmbiguousDeviceSelector { selector, count })
    }
}


/// A supported VID:PID and its transport.
#[derive(Clone, Copy, Debug, PartialEq, Eq, Structural)]
pub struct SupportedDevice {
    pub vid: u16,
    pub pid: u16,
    pub transport: UpsTransport,
}

/// The supported devices: MEC0003 (and its alternate ID), Cypress, Prolific.
pub open spec fn spec_supported_devices() -> Seq<SupportedDevice> {
    seq![
        SupportedDevice { vid: MEC_VID, pid: MEC_PID, transport: UpsTransport::Descriptor },
        SupportedDevice { vid: MEC_ALT_VID, pid: MEC_ALT_PID, transport: UpsTransport::Descriptor },
        SupportedDevice { vid: CYPRESS_VID, pid: CYPRESS_PID, transport: UpsTransport::CypressHid },
        SupportedDevice { vid: PROLIFIC_VID, pid: PROLIFIC_PID, transport: UpsTransport::ProlificSerial },
    ]
}

/// The table of supported devices.
pub fn supported_devices() -> (v: Vec<SupportedDevice>)
    ensures
        v@ == spec_supported_devices(),
{
    let v = vec![
        SupportedDevice { vid: MEC_VID, pid: MEC_PID, transport: UpsTransport::Descriptor },
        SupportedDevice { vid: MEC_ALT_VID, pid: MEC_ALT_PID, transport: UpsTransport::Descriptor },
        SupportedDevice { vid: CYPRESS_VID, pid: CYPRESS_PID, transport: UpsTransport::CypressHid },
        SupportedDevice { vid: PROLIFIC_VID, pid: PROLIFIC_PID, transport: UpsTransport::ProlificSerial },
    ];
    assert(v@ =~= spec_supported_devices());
    v
}

/// `supported_transport` agrees with the table: a VID:PID is supported
/// exactly when the table lists it, with the listed transport.
pub proof fn law_supported_transport_matches_table(vid: u16, pid: u16)
    ensures
        spec_supported_transport(vid, pid) matches Some(t) ==> exists|i: int|
            0 <= i < 4 && #[trigger] spec_supported_devices()[i] == (SupportedDevice { vid, pid, transport: t }),
        spec_supported_transport(vid, pid) is None ==> forall|i: int|
            0 <= i < 4 ==> !(#[trigger] spec_supported_devices()[i].vid == vid && spec_supported_devices()[i].pid == pid),
{
    let t = spec_supported_devices();
    if let Some(tr) = spec_supported_transport(vid, pid) {
        if vid == MEC_VID && pid == MEC_PID {
            assert(t[0] == (SupportedDevice { vid, pid, transport: tr }));
        } else if vid == MEC_ALT_VID && pid == MEC_ALT_PID {
            assert(t[1] == (SupportedDevice { vid, pid, transport: tr }));
        } else if vid == CYPRESS_VID {
            assert(t[2] == (SupportedDevice { vid, pid, transport: tr }));
        } else {
            assert(t[3] == (SupportedDevice { vid, pid, transport: tr }));
        }
    }
}

} // verus!
