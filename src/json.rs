//! Structured payloads, parsed by serde_json.

use vstd::prelude::*;

verus! {

#[verifier::external_type_specification]
#[verifier::external_body]
pub struct ExJsonValue(serde_json::Value);

/// Whether `bytes` hold one JSON document, as serde_json judges it.
pub uninterp spec fn is_json_text(bytes: Seq<u8>) -> bool;

/// Relies on serde_json::from_slice: parses `bytes` as one JSON value; whether
/// it succeeds depends on the bytes alone.
#[verifier::external_body]
pub(crate) fn parse_json(bytes: &Vec<u8>) -> (r: Option<serde_json::Value>)
    ensures
        r.is_some() == is_json_text(bytes@),
{
    serde_json::from_slice(bytes).ok()
}

} // verus!
