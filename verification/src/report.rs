//! The ASCII reports (`F` rated values, `Q1`/`QS` live readings) and the
//! acknowledgement rules of the three transports.

use vstd::prelude::*;
use crate::error::Error;
use crate::text::{push_decimal, decimal, trim, trim_by, trim_start_by, trim_class, trim_start_class,
    CharClass, words, views, split_words, debug_str, debug_quoted, parse_uint, parse_uint_str,
    int_error_message, int_error_text, IntErrorKind};
use crate::wire::{REPORT_CURRENT_PARAMS, REPORT_NOMINAL_PARAMS, REPORT_PROTOCOL_VERSION};

verus! {

/// What the descriptor transport answers to an acknowledged command.
pub const ACK_RESPONSE: &'static str = "UPS No Ack";

/// Whether two strings hold the same characters.
pub fn str_eq(a: &str, b: &str) -> (r: bool)
    ensures
        r == (a@ == b@),
{
    let n = a.unicode_len();
    if n != b.unicode_len() {
        return false;
    }
    let mut i: usize = 0;
    while i < n
        invariant
            n == a@.len(),
            n == b@.len(),
            i <= n,
            forall|j: int| 0 <= j < i ==> a@[j] == b@[j],
        decreases n - i,
    {
        if a.get_char(i) != b.get_char(i) {
            return false;
        }
        i = i + 1;
    }
    assert(a@ =~= b@);
    true
}

/// Whether `a` starts with `p`.
pub fn str_starts_with(a: &str, p: &str) -> (r: bool)
    ensures
        r == (p@.len() <= a@.len() && a@.take(p@.len() as int) == p@),
{
    let n = p.unicode_len();
    if n > a.unicode_len() {
        return false;
    }
    let mut i: usize = 0;
    while i < n
        invariant
            n == p@.len(),
            n <= a@.len(),
            i <= n,
            forall|j: int| 0 <= j < i ==> a@[j] == p@[j],
        decreases n - i,
    {
        if a.get_char(i) != p.get_char(i) {
            assert(a@.take(n as int)[i as int] != p@[i as int]);
            return false;
        }
        i = i + 1;
    }
    assert(a@.take(n as int) =~= p@);
    true
}

/// The fields of a report whose body follows `prefix`: the trimmed text is
/// the acknowledgement (`NotAcknowledged`), lacks the prefix (`Parse`), or
/// must hold exactly `count` whitespace-separated fields (`Parse` otherwise).
pub open spec fn report_fields_ok(
    raw: Seq<char>,
    report_id: u8,
    prefix: char,
    count: nat,
    r: Result<Vec<String>, Error>,
) -> bool {
    let t = trim(raw);
    if t == ACK_RESPONSE@ {
        r == Err::<Vec<String>, Error>(Error::NotAcknowledged { report_id })
    } else if t.len() == 0 || t[0] != prefix {
        r matches Err(Error::Parse { report_id: rid, detail }) && rid == report_id && detail@
            == "missing '"@ + seq![prefix] + "' prefix in "@ + debug_str(t)
    } else if words(t.drop_first()).len() != count {
        r matches Err(Error::Parse { report_id: rid, detail }) && rid == report_id && detail@
            == "expected "@ + decimal(count) + " fields, got "@ + decimal(
            words(t.drop_first()).len(),
        ) + " in "@ + debug_str(t)
    } else {
        r matches Ok(v) && views(v@) == words(t.drop_first())
    }
}

fn report_fields(raw: &str, report_id: u8, prefix: char, count: usize) -> (r: Result<Vec<String>, Error>)
    requires
        count < 10,
    ensures
        report_fields_ok(raw@, report_id, prefix, count as nat, r),
{
    let t = trim_class(raw, CharClass::Whitespace);
    if str_eq(t, ACK_RESPONSE) {
        return Err(Error::NotAcknowledged { report_id });
    }
    let n = t.unicode_len();
    if n == 0 || t.get_char(0) != prefix {
        let mut d = String::new();
        d.append("missing '");
        crate::text::push_char(&mut d, prefix);
        d.append("' prefix in ");
        d.append(debug_quoted(t).as_str());
        assert(d@ =~= "missing '"@ + seq![prefix] + "' prefix in "@ + debug_str(t@));
        return Err(Error::Parse { report_id, detail: d });
    }
    let body = t.substring_char(1, n);
    assert(body@ =~= t@.drop_first());
    let f = split_words(body);
    if f.len() != count {
        let mut d = String::new();
        d.append("expected ");
        push_decimal(&mut d, count as u64);
        d.append(" fields, got ");
        assert(f@.len() == views(f@).len());
        push_decimal(&mut d, f.len() as u64);
        d.append(" in ");
        d.append(debug_quoted(t).as_str());
        return Err(Error::Parse { report_id, detail: d });
    }
    Ok(f)
}

/// The four fields of the rated-values report `#<V> <A> <batt V> <Hz>`
/// (report `0x0d`), still as text.
pub fn nominal_report_fields(raw: &str) -> (r: Result<Vec<String>, Error>)
    ensures
        report_fields_ok(raw@, REPORT_NOMINAL_PARAMS, '#', 4, r),
{
    report_fields(raw, REPORT_NOMINAL_PARAMS, '#', 4)
}

/// The eight fields of the live-readings report
/// `(<in V> <fault V> <out V> <load%> <Hz> <batt V> <temp> <register>`
/// (report `0x03`), still as text.
pub fn current_report_fields(raw: &str) -> (r: Result<Vec<String>, Error>)
    ensures
        report_fields_ok(raw@, REPORT_CURRENT_PARAMS, '(', 8, r),
{
    report_fields(raw, REPORT_CURRENT_PARAMS, '(', 8)
}

/// Detail of an unreadable status register.
pub open spec fn register_detail(field: Seq<char>, k: IntErrorKind) -> Seq<char> {
    "cannot parse register ("@ + debug_str(field) + "): "@ + int_error_message(k)
}

/// Parses the status register field: a binary number of at most 8 bits.
pub fn parse_register(field: &str) -> (r: Result<u8, Error>)
    ensures
        match parse_uint(field@, 2, 255) {
            Ok(v) => r == Ok::<u8, Error>(v as u8),
            Err(k) => r matches Err(Error::Parse { report_id, detail }) && report_id == 0x03
                && detail@ == register_detail(field@, k),
        },
{
    match parse_uint_str(field, 2, 255) {
        Ok(v) => Ok(v as u8),
        Err(k) => {
            let mut d = String::new();
            d.append("cannot parse register (");
            d.append(debug_quoted(field).as_str());
            d.append("): ");
            d.append(int_error_text(k));
            Err(Error::Parse { report_id: REPORT_CURRENT_PARAMS, detail: d })
        },
    }
}

/// A descriptor command succeeded when the reply, trimmed, is the
/// acknowledgement.
pub fn descriptor_command_ack(report_id: u8, resp: &str) -> (r: Result<(), Error>)
    ensures
        if trim(resp@) == ACK_RESPONSE@ {
            r == Ok::<(), Error>(())
        } else {
            r == Err::<(), Error>(Error::NotAcknowledged { report_id })
        },
{
    if str_eq(trim_class(resp, CharClass::Whitespace), ACK_RESPONSE) {
        Ok(())
    } else {
        Err(Error::NotAcknowledged { report_id })
    }
}

/// The sub-protocol of a GreenCell Cypress device.
#[derive(Clone, Copy, Debug, PartialEq, Eq, Structural)]
pub enum CypressProtocol {
    /// ASCII replies; commands are acknowledged with `ACK`.
    V,
    /// Binary `QS` frames; commands are never acknowledged.
    T,
}

/// Whether a Cypress command succeeded: always for `T`; for `V` when no
/// reply came, or the trimmed reply is empty or starts with `ACK` or `(ACK`.
pub open spec fn spec_cypress_ack(protocol: CypressProtocol, reply: Option<Seq<char>>) -> bool {
    match protocol {
        CypressProtocol::T => true,
        CypressProtocol::V => match reply {
            None => true,
            Some(resp) => {
                let t = trim(resp);
                t.len() == 0 || (3 <= t.len() && t.take(3) == "ACK"@) || (4 <= t.len() && t.take(4)
                    == "(ACK"@)
            },
        },
    }
}

pub open spec fn opt_view(reply: Option<&str>) -> Option<Seq<char>> {
    match reply {
        Some(s) => Some(s@),
        None => None,
    }
}

/// Decides whether a Cypress command was acknowledged.
pub fn cypress_command_ack(report_id: u8, protocol: CypressProtocol, reply: Option<&str>) -> (r: Result<(), Error>)
    ensures
        if spec_cypress_ack(protocol, opt_view(reply)) {
            r == Ok::<(), Error>(())
        } else {
            r == Err::<(), Error>(Error::NotAcknowledged { report_id })
        },
{
    if protocol == CypressProtocol::T {
        return Ok(());
    }
    match reply {
        None => Ok(()),
        Some(resp) => {
            let t = trim_class(resp, CharClass::Whitespace);
            proof {
                reveal_strlit("ACK");
                reveal_strlit("(ACK");
            }
            if t.unicode_len() == 0 || str_starts_with(t, "ACK") || str_starts_with(t, "(ACK") {
                Ok(())
            } else {
                Err(Error::NotAcknowledged { report_id })
            }
        },
    }
}

/// Detail of an unknown sub-protocol marker.
pub open spec fn marker_detail(marker: Seq<char>) -> Seq<char> {
    "unknown Cypress sub-protocol marker "@ + debug_str(trim(marker))
}

/// Reads the reply to `M`: `V` or `T`, surrounding whitespace ignored.
pub fn parse_cypress_protocol_marker(marker: &str) -> (r: Result<CypressProtocol, Error>)
    ensures
        if trim(marker@) == "V"@ {
            r == Ok::<CypressProtocol, Error>(CypressProtocol::V)
        } else if trim(marker@) == "T"@ {
            r == Ok::<CypressProtocol, Error>(CypressProtocol::T)
        } else {
            r matches Err(Error::Parse { report_id, detail }) && report_id == REPORT_PROTOCOL_VERSION
                && detail@ == marker_detail(marker@)
        },
{
    let t = trim_class(marker, CharClass::Whitespace);
    if str_eq(t, "V") {
        Ok(CypressProtocol::V)
    } else if str_eq(t, "T") {
        Ok(CypressProtocol::T)
    } else {
        let mut d = String::new();
        d.append("unknown Cypress sub-protocol marker ");
        d.append(debug_quoted(t).as_str());
        Err(Error::Parse { report_id: REPORT_PROTOCOL_VERSION, detail: d })
    }
}

/// The marker of a sub-protocol, as `protocol_version` reports it.
pub fn cypress_protocol_marker(protocol: CypressProtocol) -> (s: &'static str)
    ensures
        s@ == (match protocol {
            CypressProtocol::T => "T"@,
            CypressProtocol::V => "V"@,
        }),
{
    match protocol {
        CypressProtocol::T => "T",
        CypressProtocol::V => "V",
    }
}

/// The sub-protocol a `QS` reply reveals: ASCII replies start with `(`.
pub fn qs_protocol(raw: &[u8]) -> (p: CypressProtocol)
    ensures
        p == (if raw@.len() > 0 && raw@[0] == 0x28 {
            CypressProtocol::V
        } else {
            CypressProtocol::T
        }),
{
    if raw.len() > 0 && raw[0] == 0x28 {
        CypressProtocol::V
    } else {
        CypressProtocol::T
    }
}

/// Report text without surrounding ASCII control characters and whitespace.
pub fn clean_report_text(raw: &str) -> (s: String)
    ensures
        s@ == trim_by(raw@, CharClass::ControlOrWhitespace),
{
    let mut s = String::new();
    s.append(trim_class(raw, CharClass::ControlOrWhitespace));
    s
}

/// The model designation in an info report `#    2000VA`: the cleaned text
/// without its leading `#` characters and surrounding whitespace.
pub fn model_from_info(raw: &str) -> (s: String)
    ensures
        s@ == trim(trim_start_by(trim_by(raw@, CharClass::ControlOrWhitespace), CharClass::Hash)),
{
    let cleaned = trim_class(raw, CharClass::ControlOrWhitespace);
    let unhashed = trim_start_class(cleaned, CharClass::Hash);
    let mut s = String::new();
    s.append(trim_class(unhashed, CharClass::Whitespace));
    s
}

} // verus!
