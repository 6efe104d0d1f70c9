//! Structured values and their text, as the JSON library has them.

use vstd::prelude::*;
use crate::frame::{frame_view, CodecError};

verus! {

#[verifier::external_type_specification]
#[verifier::external_body]
pub struct ExValue(serde_json::Value);

#[verifier::external_type_specification]
#[verifier::external_body]
pub struct ExJsonError(serde_json::Error);

/// The text that `serde_json::to_vec` writes for a value, where it writes one.
pub uninterp spec fn json_text(value: serde_json::Value) -> Option<Seq<u8>>;

/// The value that `serde_json::from_slice` reads from a text, where it reads
/// one.
pub uninterp spec fn json_value(text: Seq<u8>) -> Option<serde_json::Value>;

/// `serde_json::to_vec` on a `Value`: the text of the value, or the library's
/// error. The contract only gives the outcome its name, [`json_text`].
#[verifier::external_body]
fn to_vec(value: &serde_json::Value) -> (r: Result<Vec<u8>, serde_json::Error>)
    ensures
        match r {
            Ok(text) => json_text(*value) == Some(text@),
            Err(_) => json_text(*value) is None,
        },
{
    serde_json::to_vec(value)
}

/// `serde_json::from_slice` at type `Value`: the value that the text
/// denotes, or the library's error. The contract only gives the outcome its
/// name, [`json_value`].
#[verifier::external_body]
fn from_slice(text: &[u8]) -> (r: Result<serde_json::Value, serde_json::Error>)
    ensures
        match r {
            Ok(value) => json_value(text@) == Some(value),
            Err(_) => json_value(text@) is None,
        },
{
    serde_json::from_slice::<serde_json::Value>(text)
}

/// What [`encode_payload`] returns.
pub open spec fn encoded_payload(value: serde_json::Value) -> Result<Seq<u8>, CodecError> {
    match json_text(value) {
        Some(text) => Ok(text),
        None => Err(CodecError::PayloadEncodeError),
    }
}

/// What [`decode_payload`] returns.
pub open spec fn decoded_payload(text: Seq<u8>) -> Result<serde_json::Value, CodecError> {
    match json_value(text) {
        Some(value) => Ok(value),
        None => Err(CodecError::PayloadDecodeError),
    }
}

/// The text of a structured payload.
pub fn encode_payload(value: &serde_json::Value) -> (r: Result<Vec<u8>, CodecError>)
    ensures
        frame_view(r) == encoded_payload(*value),
{
    match to_vec(value) {
        Ok(text) => Ok(text),
        Err(_) => Err(CodecError::PayloadEncodeError),
    }
}

/// The structured payload that a text denotes.
pub fn decode_payload(text: &[u8]) -> (r: Result<serde_json::Value, CodecError>)
    ensures
        r == decoded_payload(text@),
{
    match from_slice(text) {
        Ok(value) => Ok(value),
        Err(_) => Err(CodecError::PayloadDecodeError),
    }
}

} // verus!
