//! The crate's trusted boundary: declarations and thin wrappers for the
//! two outside crates the protocol logic calls in the middle of its work,
//! base64 (image payload encoding on the line protocol) and serde_json
//! (parsing inbound structured lines). Each wrapper's contract states only
//! what the crate's source shows; everything built on top is verified
//! against these contracts.

use base64::Engine;
use vstd::prelude::*;

verus! {

/// What base64's standard engine produces for a byte sequence. The
/// encoding is a function of the input bytes alone.
pub uninterp spec fn base64_of(bytes: Seq<u8>) -> Seq<u8>;

/// Relies on base64's `Engine::encode` with the `STANDARD` engine: the
/// output is four bytes for every three input bytes (padded), drawn from
/// the documented standard alphabet - ASCII letters, digits, `+`, `/` and
/// the `=` pad - so it never contains a control byte.
#[verifier::external_body]
pub fn base64_encode(bytes: &Vec<u8>) -> (r: Vec<u8>)
    requires
        bytes@.len() <= 0x10000000,
    ensures
        r@ == base64_of(bytes@),
        r@.len() == 4 * ((bytes@.len() + 2) / 3),
        forall|i: int|
            0 <= i < r@.len() ==> {
                let b = #[trigger] r@[i];
                b == 43 || b == 47 || (48 <= b <= 57) || b == 61 || (65 <= b <= 90) || (97 <= b
                    <= 122)
            },
{
    base64::engine::general_purpose::STANDARD.encode(bytes.as_slice()).into_bytes()
}

#[verifier::external_type_specification]
#[verifier::external_body]
pub struct ExValue(serde_json::Value);

/// Relies on serde_json::from_slice: parses one JSON document from bytes;
/// `None` where the bytes are not valid JSON.
#[verifier::external_body]
pub fn json_parse(bytes: &Vec<u8>) -> Option<serde_json::Value> {
    serde_json::from_slice(bytes.as_slice()).ok()
}

/// Relies on serde_json::Value::get: the member of a JSON object under a
/// key; `None` where the value is no object or has no such member.
#[verifier::external_body]
pub fn json_get<'a>(v: &'a serde_json::Value, key: &str) -> Option<&'a serde_json::Value> {
    v.get(key)
}

/// Relies on serde_json::Value::as_str: the text of a JSON string, as
/// UTF-8 bytes; `None` where the value is no string.
#[verifier::external_body]
pub fn json_as_string_bytes(v: &serde_json::Value) -> Option<Vec<u8>> {
    match v.as_str() {
        Some(s) => Some(s.as_bytes().to_vec()),
        None => None,
    }
}

/// Relies on serde_json::Value::as_i64: the value of a JSON integer that
/// fits an i64; `None` otherwise.
#[verifier::external_body]
pub fn json_as_i64(v: &serde_json::Value) -> Option<i64> {
    v.as_i64()
}

/// Relies on serde_json::Value::as_array: the elements of a JSON array;
/// `None` where the value is no array.
#[verifier::external_body]
pub fn json_as_array<'a>(v: &'a serde_json::Value) -> Option<&'a Vec<serde_json::Value>> {
    v.as_array()
}

} // verus!
