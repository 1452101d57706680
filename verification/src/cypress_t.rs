//! The compact binary `QS` frame of GreenCell Cypress `T` devices.
//!
//! A frame is `#AB C DE F G HI JKL M N O P\r`: a `#`, then eleven big-endian
//! fields of fixed width, separated by spaces (or the escaped separators
//! `0x28 0x04` and `0x28 0x20`), then a carriage return. Inside a field the
//! byte `0x28` escapes the byte that follows it.

use vstd::prelude::*;
use crate::error::Error;
use crate::status::{StatusFlags, spec_from_register};
use crate::text::{push_char, push_decimal, push_hex2, decimal, hex2, find_cr, cr_pos, cr_end,
    lemma_cr_pos_at, lemma_cr_end_bounds, lemma_cr_end_at, lemma_cr_end_pos, through_first_cr, CR};

verus! {

/// Number of fields of a frame.
pub const CYPRESS_T_FIELD_COUNT: usize = 11;

/// The escape byte.
pub const T_ESCAPE: u8 = 0x28;

/// The byte a data byte escaped by `0x28` stands for.
pub open spec fn t_unescape(b: u8) -> u8 {
    if b == 0 {
        0x0d
    } else if b == 1 {
        0x11
    } else if b == 2 {
        0x13
    } else if b == 3 {
        0x0a
    } else if b == 4 {
        0x20
    } else {
        b
    }
}

/// Width in bytes of field `i`.
pub open spec fn t_field_width(i: int) -> int {
    if i == 0 || i == 2 || i == 5 {
        2
    } else if i == 6 {
        3
    } else {
        1
    }
}

/// Name of field `i` as the protocol documentation writes it.
pub open spec fn t_field_name(i: int) -> Seq<char> {
    if i == 0 {
        "AB"@
    } else if i == 1 {
        "C"@
    } else if i == 2 {
        "DE"@
    } else if i == 3 {
        "F"@
    } else if i == 4 {
        "G"@
    } else if i == 5 {
        "HI"@
    } else if i == 6 {
        "JKL"@
    } else if i == 7 {
        "M"@
    } else if i == 8 {
        "N"@
    } else if i == 9 {
        "O"@
    } else {
        "P"@
    }
}

/// Why a frame was rejected.
#[derive(Clone, Copy, Debug, PartialEq, Eq, Structural)]
pub enum CypressTFault {
    /// The frame does not start with `#`.
    MissingPrefix,
    /// No separator before the given field.
    MissingSeparator { field: usize },
    /// The frame ended while the given field was read.
    ShortResponse { field: usize },
    /// The frame ended right after an escape byte in the given field.
    TruncatedEscape { field: usize },
    /// A separator or terminator stands inside the given field.
    ShortField { field: usize, byte_index: usize },
    /// Bytes other than the terminator follow the last field.
    ExtraBytes { offset: usize },
}

/// One data byte at `off`: the byte itself, or the unescaped byte after `0x28`,
/// with the offset that follows it.
pub open spec fn t_read_byte(raw: Seq<u8>, off: int, field: int) -> Result<(u8, int), CypressTFault> {
    if off >= raw.len() {
        Err(CypressTFault::ShortResponse { field: field as usize })
    } else if raw[off] != T_ESCAPE {
        Ok((raw[off], off + 1))
    } else if off + 1 >= raw.len() {
        Err(CypressTFault::TruncatedEscape { field: field as usize })
    } else {
        Ok((t_unescape(raw[off + 1]), off + 2))
    }
}

/// Offset after the run of separators that starts at `off`.
pub open spec fn t_skip_seps(raw: Seq<u8>, off: int) -> int
    decreases raw.len() - off,
{
    if 0 <= off < raw.len() && raw[off] == 0x20 {
        t_skip_seps(raw, off + 1)
    } else if 0 <= off && off + 1 < raw.len() && raw[off] == T_ESCAPE && (raw[off + 1] == 0x04
        || raw[off + 1] == 0x20) {
        t_skip_seps(raw, off + 2)
    } else {
        off
    }
}

/// Reads bytes `k..width` of field `field` from `off`, `acc` holding the value
/// of the bytes read so far; gives the field's value and the next offset.
pub open spec fn t_read_bytes(raw: Seq<u8>, off: int, field: int, k: int, acc: int) -> Result<
    (int, int),
    CypressTFault,
>
    decreases t_field_width(field) - k,
{
    if k >= t_field_width(field) {
        Ok((acc, off))
    } else {
        match t_read_byte(raw, off, field) {
            Err(e) => Err(e),
            Ok((b, next)) => if b == 0x20 || b == CR {
                Err(CypressTFault::ShortField { field: field as usize, byte_index: k as usize })
            } else {
                t_read_bytes(raw, next, field, k + 1, acc * 256 + b)
            },
        }
    }
}

/// Reads fields `i..11` from `off`, appending their values to `acc`; gives all
/// values and the offset after the last field.
pub open spec fn t_fields_from(raw: Seq<u8>, i: int, off: int, acc: Seq<u32>) -> Result<
    (Seq<u32>, int),
    CypressTFault,
>
    decreases 11 - i,
{
    if i >= 11 {
        Ok((acc, off))
    } else {
        let start = if i > 0 {
            t_skip_seps(raw, off)
        } else {
            off
        };
        if i > 0 && start == off {
            Err(CypressTFault::MissingSeparator { field: i as usize })
        } else {
            match t_read_bytes(raw, start, i, 0, 0) {
                Err(e) => Err(e),
                Ok((v, next)) => t_fields_from(raw, i + 1, next, acc.push(v as u32)),
            }
        }
    }
}

/// The eleven field values of a frame, or why it is rejected. The last field
/// must end exactly at the first carriage return (or at the end of `raw`).
pub open spec fn t_parse(raw: Seq<u8>) -> Result<Seq<u32>, CypressTFault> {
    if raw.len() == 0 || raw[0] != 0x23 {
        Err(CypressTFault::MissingPrefix)
    } else {
        match t_fields_from(raw, 0, 1, Seq::empty()) {
            Err(e) => Err(e),
            Ok((fields, off)) => if off != cr_pos(raw) {
                Err(CypressTFault::ExtraBytes { offset: off as usize })
            } else {
                Ok(fields)
            },
        }
    }
}

/// State of the frame-to-text rendering: the text so far and the previous byte.
pub open spec fn t_decode_step(state: (Seq<char>, Option<u8>), c: u8) -> (Seq<char>, Option<u8>) {
    let (out, prev) = state;
    if c == T_ESCAPE && prev != Some(T_ESCAPE) {
        (out, Some(c))
    } else if c == 0x20 {
        (out.push(' '), Some(c))
    } else if c == 0x23 && out.len() == 0 {
        (out.push('#'), Some(c))
    } else if c == CR {
        (out.push('\r'), Some(c))
    } else {
        let value = if prev == Some(T_ESCAPE) {
            t_unescape(c)
        } else {
            c
        };
        (out + hex2(value), Some(c))
    }
}

pub open spec fn t_decode_fold(s: Seq<u8>) -> (Seq<char>, Option<u8>)
    decreases s.len(),
{
    if s.len() == 0 {
        (Seq::empty(), None)
    } else {
        t_decode_step(t_decode_fold(s.drop_last()), s.last())
    }
}

/// Text rendering of a frame through its first carriage return, as the
/// official application shows it: spaces, a leading `#` and the carriage
/// return literally, every other byte as two lowercase hex digits, escapes
/// resolved.
pub open spec fn t_decode(raw: Seq<u8>) -> Seq<char> {
    t_decode_fold(through_first_cr(raw)).0
}

/// Double-quoted rendering of text made of hex digits, spaces, `#` and
/// carriage returns, the carriage return written as `\r` (as `{:?}` shows it).
pub open spec fn quote_text(s: Seq<char>) -> Seq<char>
    decreases s.len(),
{
    if s.len() == 0 {
        seq!['"', '"']
    } else {
        let q = quote_text(s.drop_last());
        let tail = if s.last() == '\r' {
            seq!['\\', 'r']
        } else {
            seq![s.last()]
        };
        q.take(q.len() - 1) + tail + seq!['"']
    }
}

/// The message of a rejected frame.
pub open spec fn t_message(raw: Seq<u8>, f: CypressTFault) -> Seq<char> {
    let q = quote_text(t_decode(raw));
    match f {
        CypressTFault::MissingPrefix => "missing '#' prefix in Cypress T response "@ + q,
        CypressTFault::MissingSeparator { field } => "missing Cypress T separator before field "@
            + t_field_name(field as int) + " in "@ + q,
        CypressTFault::ShortResponse { field } => "short Cypress T response while reading field "@
            + t_field_name(field as int) + " in "@ + q,
        CypressTFault::TruncatedEscape { field } =>
            "truncated Cypress T escape while reading field "@ + t_field_name(field as int)
                + " in "@ + q,
        CypressTFault::ShortField { field, byte_index } => "short Cypress T field "@
            + t_field_name(field as int) + ": separator at byte "@ + decimal(byte_index as nat)
            + " in "@ + q,
        CypressTFault::ExtraBytes { offset } =>
            "extra Cypress T bytes before terminator at offset "@ + decimal(offset as nat) + " in "@
                + q,
    }
}

fn field_width(i: usize) -> (w: usize)
    requires
        i < 11,
    ensures
        w == t_field_width(i as int),
{
    if i == 0 || i == 2 || i == 5 {
        2
    } else if i == 6 {
        3
    } else {
        1
    }
}

fn field_name(i: usize) -> (n: &'static str)
    ensures
        n@ == t_field_name(i as int),
{
    if i == 0 {
        "AB"
    } else if i == 1 {
        "C"
    } else if i == 2 {
        "DE"
    } else if i == 3 {
        "F"
    } else if i == 4 {
        "G"
    } else if i == 5 {
        "HI"
    } else if i == 6 {
        "JKL"
    } else if i == 7 {
        "M"
    } else if i == 8 {
        "N"
    } else if i == 9 {
        "O"
    } else {
        "P"
    }
}

fn unescape(b: u8) -> (r: u8)
    ensures
        r == t_unescape(b),
{
    if b == 0 {
        0x0d
    } else if b == 1 {
        0x11
    } else if b == 2 {
        0x13
    } else if b == 3 {
        0x0a
    } else if b == 4 {
        0x20
    } else {
        b
    }
}

/// The bytes the frame escapes, by their escape code: code `k` after `0x28`
/// stands for `escaped_byte(k)` (`0` for `0x0d`, `1` for `0x11`, `2` for
/// `0x13`, `3` for `0x0a`, `4` for `0x20`).
pub open spec fn escaped_byte(k: int) -> u8 {
    seq![0x0du8, 0x11u8, 0x13u8, 0x0au8, 0x20u8][k]
}

/// Inside a field, `0x28` followed by code `k < 5` reads as the byte that code
/// stands for, and followed by any other byte reads as that byte; either way
/// the pair is consumed whole.
pub proof fn law_t_escape_table(raw: Seq<u8>, off: int, field: int)
    requires
        0 <= off,
        off + 1 < raw.len(),
        raw[off] == 0x28,
    ensures
        raw[off + 1] < 5 ==> t_read_byte(raw, off, field) == Ok::<(u8, int), CypressTFault>(
            (escaped_byte(raw[off + 1] as int), off + 2),
        ),
        raw[off + 1] >= 5 ==> t_read_byte(raw, off, field) == Ok::<(u8, int), CypressTFault>(
            (raw[off + 1], off + 2),
        ),
{
}

/// A one-byte field written as `0x28` and code `1`, `2` or `3` holds the byte
/// the code stands for (`0x11`, `0x13`, `0x0a`); written as code `0` or `4` it
/// stands for a terminator or a separator, and the field is too short.
pub proof fn law_t_escaped_field(raw: Seq<u8>, off: int, field: int)
    requires
        0 <= off,
        off + 1 < raw.len(),
        raw[off] == 0x28,
        raw[off + 1] < 5,
        t_field_width(field) == 1,
    ensures
        1 <= raw[off + 1] <= 3 ==> t_read_bytes(raw, off, field, 0, 0) == Ok::<(int, int), CypressTFault>(
            (escaped_byte(raw[off + 1] as int) as int, off + 2),
        ),
        (raw[off + 1] == 0 || raw[off + 1] == 4) ==> t_read_bytes(raw, off, field, 0, 0) == Err::<
            (int, int),
            CypressTFault,
        >(CypressTFault::ShortField { field: field as usize, byte_index: 0 }),
{
    assert(t_read_bytes(raw, off + 2, field, 1, escaped_byte(raw[off + 1] as int) as int) == Ok::<
        (int, int),
        CypressTFault,
    >((escaped_byte(raw[off + 1] as int) as int, off + 2)));
}

/// Field `P` by its bits: bits 0-2 select the rated input voltage from
/// 110, 120, 220, 230, 240 V (values 5-7 are not defined), bits 5-6 the
/// battery, 12 V per step from 12 V, and bit 7 the frequency, 50 or 60 Hz.
pub proof fn law_t_nominal_bits(p: u8)
    ensures
        spec_t_nominal(p) is None <==> (p & 7) > 4,
        spec_t_nominal(p) matches Some(n) ==> n.input_voltage == seq![110u16, 120u16, 220u16, 230u16, 240u16][(p & 7) as int]
            && n.battery_voltage == 12 * (((p >> 5) & 3) + 1) && n.input_frequency == (if p
            & 0x80 == 0 {
            50u8
        } else {
            60u8
        }),
{
    assert(p & 7 == p % 8) by (bit_vector);
    assert((p >> 5) & 3 == (p / 32) % 4) by (bit_vector);
    assert((p & 0x80 == 0) == (p / 128 == 0)) by (bit_vector);
}

/// Renders a frame as text (the form its error messages quote).
pub fn decode_cypress_t(raw: &[u8]) -> (s: String)
    ensures
        s@ == t_decode(raw@),
{
    let end = match find_cr(raw) {
        Some(i) => i + 1,
        None => raw.len(),
    };
    let mut out = String::new();
    let mut prev: Option<u8> = None;
    let mut i: usize = 0;
    while i < end
        invariant
            end == cr_end(raw@),
            end <= raw@.len(),
            i <= end,
            (out@, prev) == t_decode_fold(raw@.take(i as int)),
        decreases end - i,
    {
        let c = raw[i];
        assert(raw@.take(i + 1).drop_last() == raw@.take(i as int));
        assert(raw@.take(i + 1).last() == c);
        let prev_escape = match prev {
            Some(p) => p == T_ESCAPE,
            None => false,
        };
        if c == T_ESCAPE && !prev_escape {
        } else if c == 0x20 {
            push_char(&mut out, ' ');
        } else if c == 0x23 && out.as_str().is_empty() {
            push_char(&mut out, '#');
        } else if c == CR {
            push_char(&mut out, '\r');
        } else {
            let value = if prev_escape {
                unescape(c)
            } else {
                c
            };
            push_hex2(&mut out, value);
        }
        prev = Some(c);
        i = i + 1;
    }
    assert(through_first_cr(raw@) == raw@.take(end as int));
    out
}


/// `t_skip_seps` moves forward and stays within the frame.
pub proof fn lemma_skip_seps_bounds(raw: Seq<u8>, off: int)
    requires
        0 <= off <= raw.len(),
    ensures
        off <= t_skip_seps(raw, off) <= raw.len(),
    decreases raw.len() - off,
{
    if 0 <= off < raw.len() && raw[off] == 0x20 {
        lemma_skip_seps_bounds(raw, off + 1);
    } else if 0 <= off && off + 1 < raw.len() && raw[off] == T_ESCAPE && (raw[off + 1] == 0x04
        || raw[off + 1] == 0x20) {
        lemma_skip_seps_bounds(raw, off + 2);
    }
}

/// Double-quotes rendered frame text for a message.
fn quote_into(out: &mut String, text: &String)
    ensures
        final(out)@ == old(out)@ + quote_text(text@),
{
    let ghost start = out@;
    push_char(out, '"');
    let mut i: usize = 0;
    let n = text.as_str().unicode_len();
    while i < n
        invariant
            n == text@.len(),
            i <= n,
            out@ == start + quote_text(text@.take(i as int)).take(
                quote_text(text@.take(i as int)).len() - 1,
            ),
            quote_text(text@.take(i as int)).len() >= 2,
            quote_text(text@.take(i as int)).last() == '"',
        decreases n - i,
    {
        let c = text.as_str().get_char(i);
        let ghost q0 = quote_text(text@.take(i as int));
        assert(text@.take(i + 1).drop_last() == text@.take(i as int));
        assert(text@.take(i + 1).last() == c);
        if c == '\r' {
            push_char(out, '\\');
            push_char(out, 'r');
        } else {
            push_char(out, c);
        }
        proof {
            let q1 = quote_text(text@.take(i + 1));
            let tail = if c == '\r' {
                seq!['\\', 'r']
            } else {
                seq![c]
            };
            assert(q1 == q0.take(q0.len() - 1) + tail + seq!['"']);
            assert(q1.take(q1.len() - 1) =~= q0.take(q0.len() - 1) + tail);
        }
        i = i + 1;
    }
    push_char(out, '"');
    proof {
        let q = quote_text(text@.take(n as int));
        assert(text@.take(n as int) == text@);
        assert(q.take(q.len() - 1).push('"') =~= q);
    }
}

/// The `Parse` error of a rejected frame.
fn t_error(raw: &[u8], f: CypressTFault) -> (e: Error)
    ensures
        e matches Error::Parse { report_id, detail } && report_id == 0x03 && detail@ == t_message(
            raw@,
            f,
        ),
{
    let text = decode_cypress_t(raw);
    let mut d = String::new();
    match f {
        CypressTFault::MissingPrefix => {
            d.append("missing '#' prefix in Cypress T response ");
        },
        CypressTFault::MissingSeparator { field } => {
            d.append("missing Cypress T separator before field ");
            d.append(field_name(field));
            d.append(" in ");
        },
        CypressTFault::ShortResponse { field } => {
            d.append("short Cypress T response while reading field ");
            d.append(field_name(field));
            d.append(" in ");
        },
        CypressTFault::TruncatedEscape { field } => {
            d.append("truncated Cypress T escape while reading field ");
            d.append(field_name(field));
            d.append(" in ");
        },
        CypressTFault::ShortField { field, byte_index } => {
            d.append("short Cypress T field ");
            d.append(field_name(field));
            d.append(": separator at byte ");
            push_decimal(&mut d, byte_index as u64);
            d.append(" in ");
        },
        CypressTFault::ExtraBytes { offset } => {
            d.append("extra Cypress T bytes before terminator at offset ");
            push_decimal(&mut d, offset as u64);
            d.append(" in ");
        },
    }
    quote_into(&mut d, &text);
    Error::Parse { report_id: 0x03, detail: d }
}


/// Reads one data byte of field `field` at `offset`.
fn read_t_data_byte(raw: &[u8], offset: usize, field: usize) -> (r: Result<(u8, usize), CypressTFault>)
    requires
        offset <= raw@.len(),
    ensures
        match r {
            Ok((b, next)) => t_read_byte(raw@, offset as int, field as int) == Ok::<(u8, int), CypressTFault>((b, next as int))
                && offset < next <= raw@.len(),
            Err(e) => t_read_byte(raw@, offset as int, field as int) == Err::<(u8, int), CypressTFault>(e),
        },
{
    if offset >= raw.len() {
        return Err(CypressTFault::ShortResponse { field });
    }
    let byte = raw[offset];
    if byte != T_ESCAPE {
        return Ok((byte, offset + 1));
    }
    if offset + 1 >= raw.len() {
        return Err(CypressTFault::TruncatedEscape { field });
    }
    Ok((unescape(raw[offset + 1]), offset + 2))
}

/// Skips the separators at `offset`; at least one must be there.
fn consume_t_separators(raw: &[u8], offset: usize, next_field: usize) -> (r: Result<usize, CypressTFault>)
    requires
        offset <= raw@.len(),
    ensures
        match r {
            Ok(o) => o == t_skip_seps(raw@, offset as int) && offset < o <= raw@.len(),
            Err(e) => t_skip_seps(raw@, offset as int) == offset && e == (CypressTFault::MissingSeparator { field: next_field }),
        },
{
    let start = offset;
    let mut offset = offset;
    loop
        invariant
            start <= offset <= raw@.len(),
            t_skip_seps(raw@, start as int) == t_skip_seps(raw@, offset as int),
        ensures
            start <= offset <= raw@.len(),
            t_skip_seps(raw@, start as int) == offset,
        decreases raw@.len() - offset,
    {
        if offset < raw.len() && raw[offset] == 0x20 {
            offset = offset + 1;
        } else if offset < raw.len() && raw.len() - offset >= 2 && raw[offset] == T_ESCAPE && (
        raw[offset + 1] == 0x04 || raw[offset + 1] == 0x20) {
            offset = offset + 2;
        } else {
            break;
        }
    }
    if offset == start {
        return Err(CypressTFault::MissingSeparator { field: next_field });
    }
    Ok(offset)
}

/// Splits a frame into its eleven field values.
fn t_fields(raw: &[u8]) -> (r: Result<[u32; 11], CypressTFault>)
    ensures
        match t_parse(raw@) {
            Ok(f) => r matches Ok(a) && a@ == f,
            Err(e) => r == Err::<[u32; 11], CypressTFault>(e),
        },
{
    if raw.len() == 0 || raw[0] != 0x23 {
        return Err(CypressTFault::MissingPrefix);
    }
    let end = match find_cr(raw) {
        Some(i) => i,
        None => raw.len(),
    };
    let mut fields: [u32; 11] = [0u32; 11];
    assert(fields@.take(0) =~= Seq::<u32>::empty());
    let mut offset: usize = 1;
    let mut i: usize = 0;
    while i < 11
        invariant
            1 <= offset <= raw@.len(),
            i <= 11,
            raw@.len() > 0 && raw@[0] == 0x23,
            t_fields_from(raw@, 0, 1, Seq::empty()) == t_fields_from(
                raw@,
                i as int,
                offset as int,
                fields@.take(i as int),
            ),
        decreases 11 - i,
    {
        let ghost off0 = offset;
        if i > 0 {
            match consume_t_separators(raw, offset, i) {
                Ok(o) => {
                    offset = o;
                },
                Err(e) => {
                    assert(t_fields_from(raw@, i as int, off0 as int, fields@.take(i as int))
                        == Err::<(Seq<u32>, int), CypressTFault>(e));
                    return Err(e);
                },
            }
        }
        let ghost start = offset;
        let w = field_width(i);
        let mut value: u32 = 0;
        let mut k: usize = 0;
        while k < w
            invariant
                w == t_field_width(i as int),
                k <= w,
                w <= 3,
                i < 11,
                raw@.len() > 0 && raw@[0] == 0x23,
                1 <= start <= offset <= raw@.len(),
                i > 0 ==> start as int == t_skip_seps(raw@, off0 as int) && start != off0,
                i == 0 ==> start == off0,
                t_fields_from(raw@, 0, 1, Seq::empty()) == t_fields_from(
                    raw@,
                    i as int,
                    off0 as int,
                    fields@.take(i as int),
                ),
                value < pow256(k as nat),
                t_read_bytes(raw@, start as int, i as int, 0, 0) == t_read_bytes(
                    raw@,
                    offset as int,
                    i as int,
                    k as int,
                    value as int,
                ),
            decreases w - k,
        {
            match read_t_data_byte(raw, offset, i) {
                Err(e) => {
                    assert(t_read_bytes(raw@, start as int, i as int, 0, 0) == Err::<(int, int), CypressTFault>(e));
                    assert(t_fields_from(raw@, i as int, off0 as int, fields@.take(i as int))
                        == Err::<(Seq<u32>, int), CypressTFault>(e));
                    return Err(e);
                },
                Ok((byte, next)) => {
                    if byte == 0x20 || byte == CR {
                        let e = CypressTFault::ShortField { field: i, byte_index: k };
                        assert(t_read_bytes(raw@, start as int, i as int, 0, 0) == Err::<(int, int), CypressTFault>(e));
                        assert(t_fields_from(raw@, i as int, off0 as int, fields@.take(i as int))
                            == Err::<(Seq<u32>, int), CypressTFault>(e));
                        return Err(e);
                    }
                    assert(value * 256 + byte < pow256((k + 1) as nat)) by {
                        assert(pow256((k + 1) as nat) == pow256(k as nat) * 256);
                        assert(value * 256 + byte < pow256(k as nat) * 256) by (nonlinear_arith)
                            requires value < pow256(k as nat), byte < 256;
                    }
                    assert(pow256(3) == 16777216) by { reveal_with_fuel(pow256, 4); }
                    value = value * 256 + byte as u32;
                    offset = next;
                },
            }
            k = k + 1;
        }
        assert(t_read_bytes(raw@, start as int, i as int, 0, 0) == Ok::<(int, int), CypressTFault>((value as int, offset as int)));
        assert(t_fields_from(raw@, i as int, off0 as int, fields@.take(i as int))
            == t_fields_from(raw@, i + 1, offset as int, fields@.take(i as int).push(value)));
        let ghost old_fields = fields@;
        fields[i] = value;
        assert(fields@.take(i + 1) == old_fields.take(i as int).push(value));
        i = i + 1;
    }
    if offset != end {
        return Err(CypressTFault::ExtraBytes { offset });
    }
    assert(fields@.take(11) == fields@);
    Ok(fields)
}

/// 256 to the power `k`.
pub open spec fn pow256(k: nat) -> nat
    decreases k,
{
    if k == 0 {
        1
    } else {
        256 * pow256((k - 1) as nat)
    }
}

/// Splits a Cypress `T` `QS` frame into its eleven big-endian field values
/// (`AB C DE F G HI JKL M N O P`); a rejected frame gives a `Parse` error for
/// report `0x03` whose detail says why and quotes the frame.
pub fn parse_cypress_t_fields(raw: &[u8]) -> (r: Result<[u32; 11], Error>)
    ensures
        match t_parse(raw@) {
            Ok(f) => r matches Ok(a) && a@ == f,
            Err(fault) => r matches Err(Error::Parse { report_id, detail }) && report_id == 0x03
                && detail@ == t_message(raw@, fault),
        },
{
    match t_fields(raw) {
        Ok(a) => Ok(a),
        Err(fault) => Err(t_error(raw, fault)),
    }
}


/// Rated values that field `P` of a frame encodes (volts, volts, hertz).
#[derive(Clone, Copy, Debug, PartialEq, Eq, Structural)]
pub struct CypressTNominal {
    pub input_voltage: u16,
    pub battery_voltage: u8,
    pub input_frequency: u8,
}

/// Field `P`: bits 0-2 select 110/120/220/230/240 V (other values are not
/// defined), bits 5-6 select a 12/24/36/48 V battery, bit 7 selects 50/60 Hz.
pub open spec fn spec_t_nominal(p: u8) -> Option<CypressTNominal> {
    let sel = p % 8;
    if sel > 4 {
        None
    } else {
        Some(
            CypressTNominal {
                input_voltage: if sel == 0 {
                    110
                } else if sel == 1 {
                    120
                } else if sel == 2 {
                    220
                } else if sel == 3 {
                    230
                } else {
                    240
                },
                battery_voltage: (12 * ((p / 32) % 4 + 1)) as u8,
                input_frequency: if p / 128 == 0 {
                    50
                } else {
                    60
                },
            },
        )
    }
}

/// Message for a field `P` whose voltage selector is not defined.
pub open spec fn t_nominal_message(p: u8) -> Seq<char> {
    "unsupported Cypress T nominal input-voltage selector 0x"@ + hex2(p)
}

/// Decodes field `P` of a frame.
pub fn cypress_t_nominal(p: u8) -> (r: Result<CypressTNominal, Error>)
    ensures
        match spec_t_nominal(p) {
            Some(n) => r == Ok::<CypressTNominal, Error>(n),
            None => r matches Err(Error::Parse { report_id, detail }) && report_id == 0x03
                && detail@ == t_nominal_message(p),
        },
{
    let sel = p % 8;
    let input_voltage: u16 = if sel == 0 {
        110
    } else if sel == 1 {
        120
    } else if sel == 2 {
        220
    } else if sel == 3 {
        230
    } else if sel == 4 {
        240
    } else {
        let mut d = String::new();
        d.append("unsupported Cypress T nominal input-voltage selector 0x");
        push_hex2(&mut d, p);
        return Err(Error::Parse { report_id: 0x03, detail: d });
    };
    let battery_voltage: u8 = 12 * ((p / 32) % 4 + 1);
    let input_frequency: u8 = if p / 128 == 0 {
        50
    } else {
        60
    };
    Ok(CypressTNominal { input_voltage, battery_voltage, input_frequency })
}

/// The raw readings of a frame. Voltages and the frequency are fractions the
/// caller evaluates: input `AB * C / 51 / 256` V, output `DE * F / 51 / 256` V,
/// frequency `JKL / HI` Hz, battery `M * N / 510` V (before the topology
/// adjustment); the load is `G` percent.
#[derive(Clone, Copy, Debug, PartialEq, Eq, Structural)]
pub struct CypressTReading {
    pub input_voltage_numerator: u32,
    pub input_voltage_multiplier: u32,
    pub output_voltage_numerator: u32,
    pub output_voltage_multiplier: u32,
    pub load_percent: u32,
    pub frequency_divisor: u32,
    pub frequency_numerator: u32,
    pub battery_voltage_numerator: u32,
    pub battery_voltage_multiplier: u32,
    /// Field `O`, the status register.
    pub register: u8,
    /// The register decoded.
    pub flags: StatusFlags,
    /// Field `P` decoded.
    pub nominal: CypressTNominal,
}

/// The reading that field values `f` and nominal `nom` make up.
pub open spec fn spec_t_reading(f: Seq<u32>, nom: CypressTNominal) -> CypressTReading {
    CypressTReading {
        input_voltage_numerator: f[0],
        input_voltage_multiplier: f[1],
        output_voltage_numerator: f[2],
        output_voltage_multiplier: f[3],
        load_percent: f[4],
        frequency_divisor: f[5],
        frequency_numerator: f[6],
        battery_voltage_numerator: f[7],
        battery_voltage_multiplier: f[8],
        register: f[9] as u8,
        flags: spec_from_register(f[9] as u8),
        nominal: nom,
    }
}

/// Decodes a Cypress `T` `QS` frame: its fields, status register and rated
/// values. Errors: a rejected frame (as `parse_cypress_t_fields`), or an
/// undefined voltage selector in field `P`.
pub fn parse_cypress_t_reading(raw: &[u8]) -> (r: Result<CypressTReading, Error>)
    ensures
        match t_parse(raw@) {
            Ok(f) => match spec_t_nominal(f[10] as u8) {
                Some(nom) => r == Ok::<CypressTReading, Error>(spec_t_reading(f, nom)),
                None => r matches Err(Error::Parse { report_id, detail }) && report_id == 0x03
                    && detail@ == t_nominal_message(f[10] as u8),
            },
            Err(fault) => r matches Err(Error::Parse { report_id, detail }) && report_id == 0x03
                && detail@ == t_message(raw@, fault),
        },
{
    let f = parse_cypress_t_fields(raw)?;
    let nominal = cypress_t_nominal(f[10] as u8)?;
    let register = f[9] as u8;
    Ok(CypressTReading {
        input_voltage_numerator: f[0],
        input_voltage_multiplier: f[1],
        output_voltage_numerator: f[2],
        output_voltage_multiplier: f[3],
        load_percent: f[4],
        frequency_divisor: f[5],
        frequency_numerator: f[6],
        battery_voltage_numerator: f[7],
        battery_voltage_multiplier: f[8],
        register,
        flags: StatusFlags::from_register(register),
        nominal,
    })
}


/// `a` and `b` agree on every byte up to index `c`, where both hold a
/// carriage return.
pub open spec fn agree_through(a: Seq<u8>, b: Seq<u8>, c: int) -> bool {
    &&& 0 <= c < a.len()
    &&& c < b.len()
    &&& a[c] == CR
    &&& forall|j: int| 0 <= j <= c ==> a[j] == b[j]
}

proof fn lemma_skip_seps_agree(a: Seq<u8>, b: Seq<u8>, c: int, off: int)
    requires
        agree_through(a, b, c),
        0 <= off <= c,
    ensures
        t_skip_seps(a, off) == t_skip_seps(b, off),
        off <= t_skip_seps(a, off) <= c,
    decreases c - off,
{
    if off < c {
        if a[off] == 0x20 {
            lemma_skip_seps_agree(a, b, c, off + 1);
        } else if a[off] == T_ESCAPE && (a[off + 1] == 0x04 || a[off + 1] == 0x20) {
            assert(off + 1 < c);
            lemma_skip_seps_agree(a, b, c, off + 2);
        }
    }
}

proof fn lemma_read_bytes_agree(a: Seq<u8>, b: Seq<u8>, c: int, off: int, field: int, k: int, acc: int)
    requires
        agree_through(a, b, c),
        0 <= off <= c,
    ensures
        t_read_bytes(a, off, field, k, acc) == t_read_bytes(b, off, field, k, acc),
        t_read_bytes(a, off, field, k, acc) matches Ok((_, next)) ==> off <= next <= c,
    decreases t_field_width(field) - k,
{
    if k < t_field_width(field) {
        assert(t_read_byte(a, off, field) == t_read_byte(b, off, field));
        match t_read_byte(a, off, field) {
            Err(_) => {},
            Ok((v, next)) => {
                if !(v == 0x20 || v == CR) {
                    assert(next <= c);
                    lemma_read_bytes_agree(a, b, c, next, field, k + 1, acc * 256 + v);
                }
            },
        }
    }
}

proof fn lemma_fields_agree(a: Seq<u8>, b: Seq<u8>, c: int, i: int, off: int, acc: Seq<u32>)
    requires
        agree_through(a, b, c),
        0 <= off <= c,
    ensures
        t_fields_from(a, i, off, acc) == t_fields_from(b, i, off, acc),
        t_fields_from(a, i, off, acc) matches Ok((_, next)) ==> next <= c,
    decreases 11 - i,
{
    if i < 11 {
        let start = if i > 0 {
            t_skip_seps(a, off)
        } else {
            off
        };
        lemma_skip_seps_agree(a, b, c, off);
        if !(i > 0 && start == off) {
            lemma_read_bytes_agree(a, b, c, start, i, 0, 0);
            match t_read_bytes(a, start, i, 0, 0) {
                Err(_) => {},
                Ok((v, next)) => {
                    lemma_fields_agree(a, b, c, i + 1, next, acc.push(v as u32));
                },
            }
        }
    }
}

/// A frame parses, or is rejected with the same message, whatever follows its
/// first carriage return: the bytes after it are never read.
pub proof fn law_t_parse_ignores_tail(raw: Seq<u8>)
    ensures
        t_parse(through_first_cr(raw)) == t_parse(raw),
        t_decode(through_first_cr(raw)) == t_decode(raw),
        forall|f: CypressTFault| #[trigger] t_message(through_first_cr(raw), f) == t_message(raw, f),
{
    let p = through_first_cr(raw);
    lemma_cr_end_pos(raw);
    let c = cr_pos(raw) as int;
    if c < raw.len() {
        assert(p.len() == c + 1);
        assert(agree_through(p, raw, c));
        lemma_cr_end_pos(p);
        assert forall|j: int| 0 <= j < c implies p[j] != CR by {
            assert(p[j] == raw[j]);
        }
        crate::text::lemma_cr_pos_at(p, c);
        crate::text::lemma_cr_end_at(p, c);
        assert(through_first_cr(p) =~= through_first_cr(raw));
        if p.len() > 0 && p[0] == 0x23 {
            lemma_fields_agree(p, raw, c, 0, 1, Seq::empty());
        }
    } else {
        assert(p =~= raw);
    }
}

} // verus!
