//! JSON codec.
//!
//! Requests arrive as raw bytes; whether they can be served at all depends
//! on whether those bytes form one complete JSON value. That judgement, the
//! decoding itself, and the serialization of responses are delegated to
//! serde_json; the session layer only relies on each outcome being a
//! function of the input alone.

use vstd::prelude::*;

verus! {

#[verifier::external_type_specification]
#[verifier::external_body]
pub struct ExValue(serde_json::Value);

/// Whether a byte sequence holds exactly one complete JSON value, with
/// nothing but whitespace between it and the end of the input.
pub uninterp spec fn json_valid(s: Seq<u8>) -> bool;

/// The bytes serde_json's serializer produces for a JSON value; they depend
/// on the value alone.
pub uninterp spec fn value_bytes(v: serde_json::Value) -> Seq<u8>;

/// Decodes JSON requests from bytes and encodes JSON values back to bytes.
pub struct Json;

impl Json {
    /// Relies on serde_json::from_slice::<Value>: it succeeds exactly on the
    /// byte strings that hold one complete JSON value (anything but
    /// whitespace after it makes it fail), and its outcome depends on the
    /// bytes alone. A failure is reported as the parse error's text.
    #[verifier::external_body]
    pub fn decode(buf: &[u8]) -> (r: Result<serde_json::Value, String>)
        ensures
            r is Ok <==> json_valid(buf@),
    {
        serde_json::from_slice(buf).map_err(|e| e.to_string())
    }

    /// Relies on serde_json::to_vec: it serializes a JSON value to its
    /// text, and on a `Value` it does not fail — writing to a vector cannot
    /// error, every number a `Value` holds is finite, and every map key is
    /// a string.
    #[verifier::external_body]
    pub fn encode(value: &serde_json::Value) -> (r: Result<Vec<u8>, String>)
        ensures
            r is Ok,
            r matches Ok(bytes) ==> bytes@ == value_bytes(*value),
    {
        serde_json::to_vec(value).map_err(|e| e.to_string())
    }
}

} // verus!
