//! JSON documents of `serde_json`, carried opaquely for custom metadata.

use vstd::prelude::*;

verus! {

/// `serde_json::Value`: a parsed JSON document.
#[verifier::external_type_specification]
#[verifier::external_body]
pub struct ExJsonValue(serde_json::Value);

/// `serde_json::Error`: why a text is not JSON, or why serializing failed.
#[verifier::external_type_specification]
#[verifier::external_body]
pub struct ExJsonError(serde_json::Error);

/// Whether `serde_json` accepts the text as a JSON document.
pub uninterp spec fn json_text_parses(text: Seq<char>) -> bool;

/// The document that `serde_json` reads from a text it accepts.
pub uninterp spec fn json_value_of(text: Seq<char>) -> serde_json::Value;

/// The compact text that `serde_json` writes for a document.
pub uninterp spec fn json_written(value: serde_json::Value) -> Seq<char>;

/// `serde_json::from_str::<serde_json::Value>`: parses a JSON document. It
/// succeeds exactly on the texts that `serde_json` accepts, and gives the
/// document read from the text.
#[verifier::external_body]
pub(crate) fn json_from_str(text: &str) -> (r: Result<serde_json::Value, serde_json::Error>)
    ensures
        r is Ok <==> json_text_parses(text@),
        r matches Ok(v) ==> v == json_value_of(text@),
{
    serde_json::from_str(text)
}

/// `serde_json::to_string` of a document: its compact JSON text. Writing a
/// `Value` never fails, as its maps have string keys and the output is an
/// in-memory buffer. Whether the text parses again is not stated: reading
/// refuses nesting deeper than its recursion limit, which writing does not
/// have.
#[verifier::external_body]
pub(crate) fn json_to_string(value: &serde_json::Value) -> (r: Result<String, serde_json::Error>)
    ensures
        r is Ok,
        r matches Ok(text) ==> text@ == json_written(*value),
{
    serde_json::to_string(value)
}

} // verus!
