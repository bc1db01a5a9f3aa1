//! Wire envelopes.
//!
//! Every reply sent over a session is wrapped in a tagged envelope: a
//! successful response carries its serialized payload, a request that could
//! not be decoded is answered with a bad-request tag, and a handler failure
//! with an internal-error tag. The tag is explicit in the serialized form
//! (`"type"`), and the payload of a success envelope is carried verbatim, so
//! encoding and decoding are exact inverses.

use vstd::prelude::*;

verus! {

/// A wire envelope: a successful response with its payload bytes, or one of
/// the two error tags. Clients only ever see these three shapes; no error
/// detail crosses the wire.
#[derive(Debug)]
pub enum Message {
    Success { data: Vec<u8> },
    BadRequest,
    InternalServerError,
}

/// The mathematical shape of an envelope: the payload as a byte sequence.
pub enum MessageView {
    Success { data: Seq<u8> },
    BadRequest,
    InternalServerError,
}

impl View for Message {
    type V = MessageView;

    open spec fn view(&self) -> MessageView {
        match self {
            Message::Success { data } => MessageView::Success { data: data@ },
            Message::BadRequest => MessageView::BadRequest,
            Message::InternalServerError => MessageView::InternalServerError,
        }
    }
}

/// The bytes of `{"type":"ok","data":`, which open a success envelope; the
/// payload follows, and a closing brace ends it.
pub open spec fn ok_prefix() -> Seq<u8> {
    seq![
        123u8, 34u8, 116u8, 121u8, 112u8, 101u8, 34u8, 58u8, 34u8, 111u8, 107u8, 34u8, 44u8, 34u8,
        100u8, 97u8, 116u8, 97u8, 34u8, 58u8,
    ]
}

/// The bytes of `{"type":"400"}`: the whole bad-request envelope.
pub open spec fn bad_request_bytes() -> Seq<u8> {
    seq![
        123u8, 34u8, 116u8, 121u8, 112u8, 101u8, 34u8, 58u8, 34u8, 52u8, 48u8, 48u8, 34u8, 125u8,
    ]
}

/// The bytes of `{"type":"500"}`: the whole internal-error envelope.
pub open spec fn internal_error_bytes() -> Seq<u8> {
    seq![
        123u8, 34u8, 116u8, 121u8, 112u8, 101u8, 34u8, 58u8, 34u8, 53u8, 48u8, 48u8, 34u8, 125u8,
    ]
}

/// The serialized form of an envelope.
pub open spec fn spec_encode(v: MessageView) -> Seq<u8> {
    match v {
        MessageView::Success { data } => ok_prefix() + data + seq![125u8],
        MessageView::BadRequest => bad_request_bytes(),
        MessageView::InternalServerError => internal_error_bytes(),
    }
}

/// Whether `s` has the shape of a success envelope: the opening bytes, any
/// payload, a closing brace.
pub open spec fn is_ok_envelope(s: Seq<u8>) -> bool {
    s.len() >= 21 && s.subrange(0, 20) == ok_prefix() && s[s.len() - 1] == 125u8
}

/// The envelope a byte sequence deserializes to, if any. The two error
/// envelopes are matched exactly; anything else that opens like a success
/// envelope and ends with the closing brace carries the bytes in between as
/// its payload.
pub open spec fn spec_decode(s: Seq<u8>) -> Option<MessageView> {
    if s == bad_request_bytes() {
        Some(MessageView::BadRequest)
    } else if s == internal_error_bytes() {
        Some(MessageView::InternalServerError)
    } else if is_ok_envelope(s) {
        Some(MessageView::Success { data: s.subrange(20, s.len() - 1) })
    } else {
        None
    }
}

/// Decoding is a left inverse of encoding: every envelope comes back intact
/// from its serialized form, whatever bytes its payload holds.
pub proof fn lemma_envelope_round_trip(v: MessageView)
    ensures
        spec_decode(spec_encode(v)) == Some(v),
{
    let s = spec_encode(v);
    match v {
        MessageView::Success { data } => {
            assert(s.len() == 21 + data.len());
            assert(s != bad_request_bytes());
            assert(s != internal_error_bytes());
            assert(s.subrange(0, 20) =~= ok_prefix());
            assert(s[s.len() - 1] == 125u8);
            assert(s.subrange(20, s.len() - 1) =~= data);
        },
        MessageView::BadRequest => {
        },
        MessageView::InternalServerError => {
            assert(internal_error_bytes()[9] == 53u8);
            assert(bad_request_bytes()[9] == 52u8);
            assert(internal_error_bytes() != bad_request_bytes());
        },
    }
}

/// The three envelope forms never collide: distinct envelopes have distinct
/// serialized forms.
pub proof fn lemma_encode_injective(v1: MessageView, v2: MessageView)
    requires
        spec_encode(v1) == spec_encode(v2),
    ensures
        v1 == v2,
{
    lemma_envelope_round_trip(v1);
    lemma_envelope_round_trip(v2);
}

/// Append the bytes of `ok_prefix()` to `out`.
fn push_ok_prefix(out: &mut Vec<u8>)
    ensures
        final(out)@ == old(out)@ + ok_prefix(),
{
    out.push(123);
    out.push(34);
    out.push(116);
    out.push(121);
    out.push(112);
    out.push(101);
    out.push(34);
    out.push(58);
    out.push(34);
    out.push(111);
    out.push(107);
    out.push(34);
    out.push(44);
    out.push(34);
    out.push(100);
    out.push(97);
    out.push(116);
    out.push(97);
    out.push(34);
    out.push(58);
    proof {
        assert(out@ =~= old(out)@ + ok_prefix());
    }
}

/// The error envelopes differ only in the tag digit: `4` for a bad request,
/// `5` for an internal error.
fn error_envelope(digit: u8) -> (r: Vec<u8>)
    requires
        digit == 52 || digit == 53,
    ensures
        digit == 52 ==> r@ == bad_request_bytes(),
        digit == 53 ==> r@ == internal_error_bytes(),
{
    let mut out: Vec<u8> = Vec::new();
    out.push(123);
    out.push(34);
    out.push(116);
    out.push(121);
    out.push(112);
    out.push(101);
    out.push(34);
    out.push(58);
    out.push(34);
    out.push(digit);
    out.push(48);
    out.push(48);
    out.push(34);
    out.push(125);
    proof {
        if digit == 52 {
            assert(out@ =~= bad_request_bytes());
        } else {
            assert(out@ =~= internal_error_bytes());
        }
    }
    out
}

/// Serialize an envelope.
pub fn encode(m: &Message) -> (r: Vec<u8>)
    ensures
        r@ == spec_encode(m@),
{
    match m {
        Message::Success { data } => {
            let mut out: Vec<u8> = Vec::new();
            push_ok_prefix(&mut out);
            let n = data.len();
            let mut i: usize = 0;
            while i < n
                invariant
                    i <= n,
                    n == data@.len(),
                    out@ == ok_prefix() + data@.subrange(0, i as int),
                decreases n - i,
            {
                out.push(data[i]);
                proof {
                    assert(out@ =~= ok_prefix() + data@.subrange(0, i + 1));
                }
                i += 1;
            }
            out.push(125);
            proof {
                assert(data@.subrange(0, n as int) =~= data@);
                assert(out@ =~= ok_prefix() + data@ + seq![125u8]);
            }
            out
        },
        Message::BadRequest => error_envelope(52),
        Message::InternalServerError => error_envelope(53),
    }
}

/// Whether `buf` equals `v` byte for byte.
fn bytes_eq(buf: &[u8], v: &Vec<u8>) -> (r: bool)
    ensures
        r == (buf@ == v@),
{
    let n = buf.len();
    if n != v.len() {
        proof {
            assert(buf@.len() != v@.len());
        }
        return false;
    }
    let mut i: usize = 0;
    while i < n
        invariant
            i <= n,
            n == buf@.len(),
            n == v@.len(),
            forall|k: int| 0 <= k < i ==> buf@[k] == v@[k],
        decreases n - i,
    {
        if buf[i] != v[i] {
            return false;
        }
        i += 1;
    }
    proof {
        assert(buf@ =~= v@);
    }
    true
}

/// Deserialize an envelope, if the bytes form one.
pub fn decode(buf: &[u8]) -> (r: Option<Message>)
    ensures
        match spec_decode(buf@) {
            Some(v) => r matches Some(m) && m@ == v,
            None => r is None,
        },
{
    if bytes_eq(buf, &error_envelope(52)) {
        return Some(Message::BadRequest);
    }
    if bytes_eq(buf, &error_envelope(53)) {
        return Some(Message::InternalServerError);
    }
    let n = buf.len();
    if n < 21 {
        return None;
    }
    if buf[n - 1] != 125 {
        return None;
    }
    let ok_start = {
        let mut out: Vec<u8> = Vec::new();
        push_ok_prefix(&mut out);
        out
    };
    let mut i: usize = 0;
    while i < 20
        invariant
            i <= 20,
            n == buf@.len(),
            n >= 21,
            ok_start@ == ok_prefix(),
            forall|k: int| 0 <= k < i ==> buf@[k] == ok_prefix()[k],
        decreases 20 - i,
    {
        if buf[i] != ok_start[i] {
            proof {
                assert(buf@.subrange(0, 20)[i as int] != ok_prefix()[i as int]);
                assert(!is_ok_envelope(buf@));
            }
            return None;
        }
        i += 1;
    }
    proof {
        assert(buf@.subrange(0, 20) =~= ok_prefix());
        assert(is_ok_envelope(buf@));
    }
    let mut data: Vec<u8> = Vec::new();
    let mut j: usize = 20;
    while j < n - 1
        invariant
            20 <= j <= n - 1,
            n == buf@.len(),
            n >= 21,
            data@ == buf@.subrange(20, j as int),
        decreases n - 1 - j,
    {
        data.push(buf[j]);
        proof {
            assert(data@ =~= buf@.subrange(20, j + 1));
        }
        j += 1;
    }
    Some(Message::Success { data })
}

} // verus!
