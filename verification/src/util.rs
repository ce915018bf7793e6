//! JSON fragment repair, JSON string encoding, and message-id minting:
//! the library's view of its outside collaborators.

use vstd::prelude::*;

verus! {

/// The JSON text of the value obtained by repairing and parsing a possibly
/// truncated JSON fragment, or `None` when the fragment is irreparable. The
/// result depends on the characters of the fragment alone.
pub uninterp spec fn repaired_json_of(s: Seq<char>) -> Option<Seq<char>>;

/// The JSON text of a JSON string value holding exactly the given characters.
/// The result depends on the characters alone.
pub uninterp spec fn json_string_of(s: Seq<char>) -> Seq<char>;

/// An argument fragment that could not be repaired into JSON.
#[derive(Debug, Clone, Copy, PartialEq, Eq, Structural)]
pub struct JsonRepairError;

/// Relies on `repair_json::repair` to complete a truncated JSON fragment, on
/// `serde_json::from_str` to parse the completed text, and on the `Display`
/// form of `serde_json::Value` to write the parsed value back out; all three
/// compute from the fragment's characters alone.
#[verifier::external_body]
fn repair_and_parse(input: &str) -> (r: Option<String>)
    ensures
        r is Some <==> repaired_json_of(input@) is Some,
        r matches Some(v) ==> Some(v@) == repaired_json_of(input@),
{
    match repair_json::repair(input) {
        Ok(repaired) => match serde_json::from_str::<serde_json::Value>(&repaired) {
            Ok(value) => Some(value.to_string()),
            Err(_) => None,
        },
        Err(_) => None,
    }
}

/// Parses a possibly incomplete JSON string, attempting to repair it, and
/// returns the JSON text of the repaired value.
pub fn parse_incomplete_json(input: &str) -> (r: Result<String, JsonRepairError>)
    ensures
        r is Ok <==> repaired_json_of(input@) is Some,
        r matches Ok(v) ==> Some(v@) == repaired_json_of(input@),
{
    match repair_and_parse(input) {
        Some(v) => Ok(v),
        None => Err(JsonRepairError),
    }
}

/// Relies on the `Display` form of `serde_json::Value::String`: the JSON text
/// of a string value, quoted and escaped, computed from the characters alone.
#[verifier::external_body]
pub(crate) fn json_encode_string(s: &str) -> (r: String)
    ensures
        r@ == json_string_of(s@),
{
    serde_json::Value::String(s.to_owned()).to_string()
}

/// Relies on `uuid::Uuid::now_v7` and its `Display` form: a freshly minted
/// time-ordered identifier, written in the 36-character hyphenated format.
#[verifier::external_body]
pub(crate) fn fresh_message_id() -> (r: String)
    ensures
        r@.len() == 36,
{
    uuid::Uuid::now_v7().to_string()
}

} // verus!
