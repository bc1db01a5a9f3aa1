//! Per-connection session logic.
//!
//! A connection is served in strict sequence: bytes are read into a buffer
//! in fixed-size chunks until a short read marks the message boundary, the
//! buffer is checked and dispatched, and the enveloped result is written
//! back. The functions here take each of those decisions on plain values;
//! the surrounding socket I/O performs them.
//!
//! The short-read boundary is a heuristic: a message whose length is an
//! exact multiple of the chunk size is not recognized as complete until more
//! bytes arrive.

use crate::api;
use crate::api::{Message, MessageView};
use crate::buffer::{buf_clear, buf_len, buf_to_vec, bytes_of};
use crate::buffer::buf_extend;
use crate::codec::{json_valid, value_bytes, Json};
use vstd::prelude::*;

verus! {

/// The size of one read chunk.
pub const BUF_SIZE: usize = 1024;

/// One framing step: append the bytes just read to the message buffer. The
/// message is taken to be complete when the read came back short, that is,
/// with fewer bytes than were asked for.
pub fn read_step(buf: &mut bytes::BytesMut, chunk: &[u8], chunk_cap: usize) -> (done: bool)
    requires
        chunk@.len() <= chunk_cap,
    ensures
        bytes_of(*final(buf)) == bytes_of(*old(buf)) + chunk@,
        done == (chunk@.len() < chunk_cap),
{
    buf_extend(buf, chunk);
    chunk.len() < chunk_cap
}

/// Check an accumulated message: if it decodes as JSON the decoded request
/// is handed on for dispatch; otherwise the message is dropped, the buffer
/// is cleared, and the reply is the bad-request envelope — the connection
/// stays open.
pub fn check_request(buf: &mut bytes::BytesMut) -> (r: Result<serde_json::Value, Vec<u8>>)
    ensures
        r is Ok <==> json_valid(bytes_of(*old(buf))),
        r is Ok ==> *final(buf) == *old(buf),
        r matches Err(reply) ==> reply@ == api::spec_encode(MessageView::BadRequest)
            && bytes_of(*final(buf)).len() == 0,
{
    let raw = buf_to_vec(buf);
    match Json::decode(raw.as_slice()) {
        Ok(value) => Ok(value),
        Err(_) => {
            buf_clear(buf);
            Err(api::encode(&Message::BadRequest))
        },
    }
}

/// Envelope the outcome of a dispatched request. A successful payload is
/// wrapped in a success envelope carrying it verbatim. A handler failure is
/// answered with the internal-error envelope, which never varies: the
/// failure's detail is handed back separately for the server-side log and
/// no part of it reaches the wire.
pub fn wrap_response(result: Result<Vec<u8>, String>) -> (r: (Vec<u8>, Option<String>))
    ensures
        result matches Ok(payload) ==> r.0@ == api::spec_encode(
            MessageView::Success { data: payload@ },
        ) && r.1 is None,
        result matches Err(detail) ==> r.0@ == api::spec_encode(MessageView::InternalServerError)
            && r.1 == Some(detail),
{
    match result {
        Ok(payload) => (api::encode(&Message::Success { data: payload }), None),
        Err(detail) => (api::encode(&Message::InternalServerError), Some(detail)),
    }
}

/// Envelope the outcome of a dispatched request whose successful result is
/// a JSON value: the value is serialized and carried in a success envelope,
/// exactly. A handler failure is answered with the internal-error envelope,
/// which never varies, and the detail goes to the log alone, never to the
/// wire.
pub fn respond(outcome: Result<&serde_json::Value, String>) -> (r: (Vec<u8>, Option<String>))
    ensures
        outcome matches Err(detail) ==> r.0@ == api::spec_encode(MessageView::InternalServerError)
            && r.1 == Some(detail),
        outcome matches Ok(v) ==> (r.0@ == api::spec_encode(
            MessageView::Success { data: value_bytes(*v) },
        ) && r.1 is None),
{
    match outcome {
        Ok(value) => match Json::encode(value) {
            Ok(payload) => wrap_response(Ok(payload)),
            Err(detail) => wrap_response(Err(detail)),
        },
        Err(detail) => wrap_response(Err(detail)),
    }
}

/// Bounded admission in front of a handler: at most `cap` requests are in
/// flight at once. A caller that would exceed the bound is not rejected; it
/// is told to wait and ask again once an admitted request releases its slot.
pub struct Admission {
    pub in_flight: usize,
    pub cap: usize,
}

impl Admission {
    /// Never more requests in flight than the bound allows.
    pub open spec fn wf(self) -> bool {
        self.in_flight <= self.cap
    }

    /// An admission gate for at most `cap` concurrent requests.
    pub fn new(cap: usize) -> (r: Admission)
        ensures
            r.wf(),
            r.cap == cap,
            r.in_flight == 0,
    {
        Admission { in_flight: 0, cap }
    }

    /// Ask to dispatch one more request: admitted exactly when the bound
    /// still has room, in which case the request occupies a slot.
    pub fn try_acquire(&mut self) -> (admitted: bool)
        requires
            old(self).wf(),
        ensures
            final(self).wf(),
            final(self).cap == old(self).cap,
            admitted == (old(self).in_flight < old(self).cap),
            admitted ==> final(self).in_flight == old(self).in_flight + 1,
            !admitted ==> final(self).in_flight == old(self).in_flight,
    {
        if self.in_flight < self.cap {
            self.in_flight = self.in_flight + 1;
            true
        } else {
            false
        }
    }

    /// An admitted request finished: its slot is free again.
    pub fn release(&mut self)
        requires
            old(self).wf(),
            old(self).in_flight > 0,
        ensures
            final(self).wf(),
            final(self).cap == old(self).cap,
            final(self).in_flight == old(self).in_flight - 1,
    {
        self.in_flight = self.in_flight - 1;
    }
}

/// Whether the accumulated message is empty; an empty read loop result
/// means the peer closed without sending, and nothing is dispatched.
pub fn message_empty(buf: &bytes::BytesMut) -> (r: bool)
    ensures
        r == (bytes_of(*buf).len() == 0),
{
    buf_len(buf) == 0
}

} // verus!
