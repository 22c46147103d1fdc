//! Decoding of JSON values that other contracts return.

use vstd::prelude::*;

verus! {

/// The integer that a JSON document holds as a decimal string (NEAR's `U128`
/// encoding), or `None` when the bytes are not such a document.
pub uninterp spec fn json_u128(bytes: Seq<u8>) -> Option<u128>;

/// Decodes `bytes` with `serde_json::from_slice::<near_sdk::json_types::U128>`.
/// The contract claims only that the result is a function of the bytes, named
/// `json_u128`; the JSON grammar and the decimal parse are left to the crates.
#[verifier::external_body]
pub(crate) fn parse_json_u128(bytes: &Vec<u8>) -> (r: Option<u128>)
    ensures
        r == json_u128(bytes@),
{
    match serde_json::from_slice::<near_sdk::json_types::U128>(bytes.as_slice()) {
        Ok(v) => Some(v.0),
        Err(_) => None,
    }
}

} // verus!
