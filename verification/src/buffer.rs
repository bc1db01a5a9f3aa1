//! The session layer's byte buffer.
//!
//! Connections accumulate incoming bytes in a `bytes::BytesMut`. Verified
//! code works with the buffer through the small set of operations below,
//! each specified over `bytes_of`, the sequence of bytes the buffer holds.

use vstd::prelude::*;

verus! {

#[verifier::external_type_specification]
#[verifier::external_body]
pub struct ExBytesMut(bytes::BytesMut);

/// The bytes a buffer holds, in order.
pub uninterp spec fn bytes_of(b: bytes::BytesMut) -> Seq<u8>;

/// Relies on bytes::BytesMut::len: the number of bytes held.
#[verifier::external_body]
pub(crate) fn buf_len(b: &bytes::BytesMut) -> (r: usize)
    ensures
        r == bytes_of(*b).len(),
{
    b.len()
}

/// Relies on bytes::BytesMut::clear: afterwards the buffer holds nothing.
#[verifier::external_body]
pub(crate) fn buf_clear(b: &mut bytes::BytesMut)
    ensures
        bytes_of(*final(b)) == Seq::<u8>::empty(),
{
    b.clear()
}

/// Relies on bytes::BytesMut::extend_from_slice: the given bytes are
/// appended after the ones already held.
#[verifier::external_body]
pub(crate) fn buf_extend(b: &mut bytes::BytesMut, s: &[u8])
    ensures
        bytes_of(*final(b)) == bytes_of(*old(b)) + s@,
{
    b.extend_from_slice(s)
}

/// Relies on bytes::BytesMut::as_ref (via AsRef<[u8]>): a view of exactly
/// the bytes held, copied out.
#[verifier::external_body]
pub(crate) fn buf_to_vec(b: &bytes::BytesMut) -> (r: Vec<u8>)
    ensures
        r@ == bytes_of(*b),
{
    b.as_ref().to_vec()
}

} // verus!
