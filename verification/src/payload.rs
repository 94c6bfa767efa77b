//! Decoding of the payloads that transforms carry.
use vstd::prelude::*;
use vstd::utf8::{valid_utf8, decode_utf8};
use crate::text::utf8_to_string;

verus! {

/// `serde_json::Error`, carried only to be mapped away.
#[verifier::external_type_specification]
#[verifier::external_body]
pub struct ExJsonError(serde_json::Error);

/// The list of strings that a JSON text denotes, or `None` when the bytes
/// are not a JSON array of strings.
pub uninterp spec fn json_string_list(bytes: Seq<u8>) -> Option<Seq<Seq<char>>>;

/// The characters of each string of a vector.
pub open spec fn texts(strings: Seq<String>) -> Seq<Seq<char>> {
    strings.map_values(|s: String| s@)
}

/// Calls `serde_json::from_slice::<Vec<String>>`. It depends on the bytes
/// alone; its result is named by `json_string_list`.
#[verifier::external_body]
fn parse_json_string_list(bytes: &[u8]) -> (r: Result<Vec<String>, serde_json::Error>)
    ensures
        match r {
            Ok(v) => json_string_list(bytes@) == Some(texts(v@)),
            Err(_) => json_string_list(bytes@) is None,
        },
{
    serde_json::from_slice(bytes)
}

/// The strings of a JSON array of strings, or `None` when the payload is
/// not one.
pub fn decode_string_list(payload: &Vec<u8>) -> (r: Option<Vec<String>>)
    ensures
        match r {
            Some(v) => json_string_list(payload@) == Some(texts(v@)),
            None => json_string_list(payload@) is None,
        },
{
    match parse_json_string_list(payload.as_slice()) {
        Ok(v) => Some(v),
        Err(_) => None,
    }
}

/// The name that a payload holds as UTF-8 text, or `None` when it is not
/// valid UTF-8.
pub fn decode_name(payload: &Vec<u8>) -> (r: Option<String>)
    ensures
        r is Some <==> valid_utf8(payload@),
        r matches Some(s) ==> s@ == decode_utf8(payload@),
{
    let mut bytes: Vec<u8> = Vec::new();
    let mut i: usize = 0;
    while i < payload.len()
        invariant
            0 <= i <= payload@.len(),
            bytes@ == payload@.subrange(0, i as int),
        decreases payload@.len() - i,
    {
        bytes.push(payload[i]);
        i = i + 1;
    }
    proof {
        assert(bytes@ =~= payload@);
    }
    utf8_to_string(bytes)
}

} // verus!
