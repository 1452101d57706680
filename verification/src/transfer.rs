//! Decisions inside the transfer loops: when a reply is complete, what a
//! short reply or a short write means, and how a serial reply is judged.
//! The reads and writes themselves are the caller's.

use vstd::prelude::*;
use vstd::utf8::{valid_utf8, decode_utf8};
use crate::error::Error;
use crate::text::{CR, trim, trim_class, CharClass, find_cr, through_first_cr};
use crate::report::{ACK_RESPONSE, str_eq};
use crate::wire::{BUF_SIZE, CYPRESS_PACKET_SIZE, response_payload};

verus! {

/// Whether `s` holds a carriage return.
pub open spec fn has_cr(s: Seq<u8>) -> bool {
    exists|j: int| 0 <= j < s.len() && s[j] == CR
}

fn contains_cr(s: &[u8]) -> (b: bool)
    ensures
        b == has_cr(s@),
{
    match find_cr(s) {
        Some(i) => {
            assert(s@[i as int] == CR);
            true
        },
        None => false,
    }
}

/// A string-descriptor reply of `n` bytes: under two bytes it lacks even the
/// descriptor header, and the read fails.
pub fn check_descriptor_reply(report_id: u8, n: usize) -> (r: Result<(), Error>)
    ensures
        n < 2 ==> r == Err::<(), Error>(Error::ResponseTooShort { report_id, len: n }),
        n >= 2 ==> r == Ok::<(), Error>(()),
{
    if n < 2 {
        Err(Error::ResponseTooShort { report_id, len: n })
    } else {
        Ok(())
    }
}

/// A control write that moved `n` of `expected` bytes: anything short of the
/// whole packet fails.
pub fn check_write(report_id: u8, n: usize, expected: usize) -> (r: Result<(), Error>)
    ensures
        n != expected ==> r == Err::<(), Error>(Error::ShortWrite { report_id, len: n, expected }),
        n == expected ==> r == Ok::<(), Error>(()),
{
    if n != expected {
        Err(Error::ShortWrite { report_id, len: n, expected })
    } else {
        Ok(())
    }
}

/// A Cypress reply is complete once it holds a carriage return, or once the
/// reply buffer has no room left for another packet.
pub open spec fn cypress_reply_complete(reply: Seq<u8>) -> bool {
    has_cr(reply) || reply.len() > BUF_SIZE - CYPRESS_PACKET_SIZE
}

/// Adds one interrupt packet to a Cypress reply collected so far (which has
/// room for it). An empty packet means the device stopped mid-reply:
/// `ResponseTooShort` with the length collected. Otherwise the packet is
/// appended and the result says whether the reply is complete.
pub fn cypress_reply_push(reply: &mut Vec<u8>, packet: &[u8], report_id: u8) -> (r: Result<bool, Error>)
    requires
        old(reply)@.len() <= BUF_SIZE - CYPRESS_PACKET_SIZE,
        packet@.len() <= CYPRESS_PACKET_SIZE,
    ensures
        packet@.len() == 0 ==> final(reply)@ == old(reply)@ && r == Err::<bool, Error>(
            Error::ResponseTooShort { report_id, len: old(reply)@.len() as usize },
        ),
        packet@.len() > 0 ==> final(reply)@ == old(reply)@ + packet@ && r == Ok::<bool, Error>(
            cypress_reply_complete(final(reply)@),
        ),
{
    if packet.len() == 0 {
        return Err(Error::ResponseTooShort { report_id, len: reply.len() });
    }
    let ghost before = reply@;
    let mut i: usize = 0;
    while i < packet.len()
        invariant
            i <= packet@.len(),
            reply@ == before + packet@.take(i as int),
            before.len() <= BUF_SIZE - CYPRESS_PACKET_SIZE,
            packet@.len() <= CYPRESS_PACKET_SIZE,
        decreases packet@.len() - i,
    {
        reply.push(packet[i]);
        assert(packet@.take(i + 1) =~= packet@.take(i as int).push(packet@[i as int]));
        i = i + 1;
    }
    assert(packet@.take(packet@.len() as int) =~= packet@);
    let done = contains_cr(reply.as_slice()) || reply.len() > BUF_SIZE - CYPRESS_PACKET_SIZE;
    Ok(done)
}

/// One read of a serial reply: `Some(bytes)` is what arrived (possibly
/// nothing), `None` a read that timed out. Bytes are appended; the reply is
/// complete when a read that brought bytes leaves a carriage return anywhere
/// in the reply, when a read timed out after some bytes had arrived, or once
/// the deadline has passed (`elapsed` and `deadline` in nanoseconds).
pub fn serial_read_step(reply: &mut Vec<u8>, read: Option<&[u8]>, elapsed: u128, deadline: u128) -> (done: bool)
    ensures
        match read {
            Some(bytes) => final(reply)@ == old(reply)@ + bytes@ && done == ((bytes@.len() > 0
                && has_cr(final(reply)@)) || elapsed >= deadline),
            None => final(reply)@ == old(reply)@ && done == (old(reply)@.len() > 0 || elapsed
                >= deadline),
        },
{
    match read {
        None => reply.len() > 0 || elapsed >= deadline,
        Some(bytes) => {
            let ghost before = reply@;
            let mut i: usize = 0;
            while i < bytes.len()
                invariant
                    i <= bytes@.len(),
                    reply@ == before + bytes@.take(i as int),
                decreases bytes@.len() - i,
            {
                reply.push(bytes[i]);
                assert(bytes@.take(i + 1) =~= bytes@.take(i as int).push(bytes@[i as int]));
                i = i + 1;
            }
            assert(bytes@.take(bytes@.len() as int) =~= bytes@);
            (bytes.len() > 0 && contains_cr(reply.as_slice())) || elapsed >= deadline
        },
    }
}

/// Text of bytes read as UTF-8, each invalid sequence replaced by U+FFFD
/// (`String::from_utf8_lossy`).
pub uninterp spec fn utf8_lossy_text(b: Seq<u8>) -> Seq<char>;

/// std `String::from_utf8_lossy`, owned. Claimed: the result is named by
/// `utf8_lossy_text`, and valid UTF-8 comes back decoded as it is.
#[verifier::external_body]
fn utf8_lossy(b: &[u8]) -> (s: String)
    ensures
        s@ == utf8_lossy_text(b@),
        valid_utf8(b@) ==> s@ == decode_utf8(b@),
{
    String::from_utf8_lossy(b).into_owned()
}

/// The text of a serial query's reply: a query always answers, so an empty
/// reply is `ResponseTooShort`.
pub fn serial_query_reply(report_id: u8, reply: &[u8]) -> (r: Result<String, Error>)
    ensures
        reply@.len() == 0 ==> r == Err::<String, Error>(Error::ResponseTooShort { report_id, len: 0 }),
        reply@.len() > 0 ==> (r matches Ok(s) && s@ == utf8_lossy_text(reply@)),
{
    if reply.len() == 0 {
        return Err(Error::ResponseTooShort { report_id, len: 0 });
    }
    Ok(utf8_lossy(reply))
}

/// The reply bytes of a serial query, verbatim up to its carriage return: a
/// query always answers, so an empty reply is `ResponseTooShort`.
pub fn serial_raw_reply(report_id: u8, reply: &[u8]) -> (r: Result<&[u8], Error>)
    ensures
        reply@.len() == 0 ==> r == Err::<&[u8], Error>(Error::ResponseTooShort { report_id, len: 0 }),
        reply@.len() > 0 ==> (r matches Ok(p) && p@ == through_first_cr(reply@)),
{
    if reply.len() == 0 {
        return Err(Error::ResponseTooShort { report_id, len: 0 });
    }
    Ok(response_payload(reply))
}

/// Whether a serial order succeeded, from the text of its reply: orders are
/// not answered, so an empty reply (after trimming) is success, and so is the
/// acknowledgement; anything else is `NotAcknowledged`.
pub fn serial_order_ack_text(report_id: u8, text: &str) -> (r: Result<(), Error>)
    ensures
        (trim(text@).len() == 0 || trim(text@) == ACK_RESPONSE@) ==> r == Ok::<(), Error>(()),
        !(trim(text@).len() == 0 || trim(text@) == ACK_RESPONSE@) ==> r == Err::<(), Error>(
            Error::NotAcknowledged { report_id },
        ),
{
    let t = trim_class(text, CharClass::Whitespace);
    if t.unicode_len() == 0 || str_eq(t, ACK_RESPONSE) {
        Ok(())
    } else {
        Err(Error::NotAcknowledged { report_id })
    }
}

/// Whether a serial order succeeded, from the bytes of its reply read as
/// UTF-8 text (see `serial_order_ack_text`).
pub fn serial_order_ack(report_id: u8, reply: &[u8]) -> (r: Result<(), Error>)
    ensures
        ({
            let t = trim(utf8_lossy_text(reply@));
            &&& (t.len() == 0 || t == ACK_RESPONSE@) ==> r == Ok::<(), Error>(())
            &&& !(t.len() == 0 || t == ACK_RESPONSE@) ==> r == Err::<(), Error>(
                Error::NotAcknowledged { report_id },
            )
        }),
{
    let text = utf8_lossy(reply);
    serial_order_ack_text(report_id, text.as_str())
}

} // verus!
