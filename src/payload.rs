use crate::types::PromiseOutcome;
use vstd::prelude::*;

verus! {

/// JSON insignificant whitespace: space, line feed, tab, carriage return.
pub open spec fn is_json_ws(b: u8) -> bool {
    b == 0x20u8 || b == 0x0au8 || b == 0x09u8 || b == 0x0du8
}

pub open spec fn all_json_ws(s: Seq<u8>) -> bool {
    forall|i: int| 0 <= i < s.len() ==> is_json_ws(#[trigger] s[i])
}

/// The JSON literal of a boolean, as bytes.
pub open spec fn bool_literal(v: bool) -> Seq<u8> {
    if v {
        seq![0x74u8, 0x72u8, 0x75u8, 0x65u8]
    } else {
        seq![0x66u8, 0x61u8, 0x6cu8, 0x73u8, 0x65u8]
    }
}

/// `s` is the JSON text of `v`, possibly surrounded by whitespace.
pub open spec fn encodes_bool(s: Seq<u8>, v: bool) -> bool {
    exists|pre: Seq<u8>, post: Seq<u8>|
        all_json_ws(pre) && all_json_ws(post) && s == pre + bool_literal(v) + post
}

/// The boolean that a JSON text denotes, if it denotes one.
pub open spec fn json_bool(s: Seq<u8>) -> Option<bool> {
    if encodes_bool(s, true) {
        Some(true)
    } else if encodes_bool(s, false) {
        Some(false)
    } else {
        None
    }
}

/// Relies on serde_json::from_slice::<bool> (as re-exported by near_sdk): it
/// skips whitespace, reads the literal `true` or `false`, and accepts only
/// whitespace after it; anything else is an error.
#[verifier::external_body]
fn parse_json_bool(bytes: &Vec<u8>) -> (r: Option<bool>)
    ensures
        r == json_bool(bytes@),
{
    match near_sdk::serde_json::from_slice::<bool>(bytes.as_slice()) {
        Ok(v) => Some(v),
        Err(_) => None,
    }
}

/// Decodes the payload that an acceptance hook returned.
pub fn decode_bool_payload(bytes: &Vec<u8>) -> (r: Option<bool>)
    ensures
        r == json_bool(bytes@),
{
    parse_json_bool(bytes)
}

/// The resolve step rolls back unless the hook succeeded with a payload that
/// decodes to `false`.
pub open spec fn wants_rollback(outcome: PromiseOutcome) -> bool {
    match outcome {
        PromiseOutcome::Successful(v) => json_bool(v@) != Some(false),
        _ => true,
    }
}

/// Whether an outcome asks for the optimistic transfer to be undone: a failed
/// or absent result, an undecodable payload, or a payload other than `false`.
pub fn rollback_requested(outcome: &PromiseOutcome) -> (r: bool)
    ensures
        r == wants_rollback(*outcome),
{
    match outcome {
        PromiseOutcome::Successful(v) => {
            match decode_bool_payload(v) {
                Some(b) => b,
                None => true,
            }
        },
        _ => true,
    }
}

} // verus!
