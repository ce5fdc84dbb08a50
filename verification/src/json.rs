//! JSON documents as plain values, read with `serde_json`.
use vstd::prelude::*;

verus! {

/// A JSON value.
#[derive(Debug)]
pub enum JsonValue {
    Null,
    Bool(bool),
    /// A number, in the textual form `serde_json` prints it in.
    Number(String),
    Str(String),
    Array(Vec<JsonValue>),
    /// An object's members, in the order `serde_json`'s map keeps them.
    Object(Vec<(String, JsonValue)>),
}

#[verifier::external_type_specification]
#[verifier::external_body]
pub struct ExSerdeJsonValue(serde_json::Value);

#[verifier::external_type_specification]
#[verifier::external_body]
pub struct ExSerdeJsonError(serde_json::Error);

/// The JSON document that `serde_json::from_str::<serde_json::Value>`
/// reads from a text, or `None` where it refuses the text.
pub uninterp spec fn json_document(text: Seq<char>) -> Option<JsonValue>;

/// Moves a `serde_json::Value` into a `JsonValue`, variant for variant.
/// Called only by `parse_json` to convert what `serde_json` returned.
#[verifier::external_body]
fn json_from_serde(v: serde_json::Value) -> JsonValue {
    match v {
        serde_json::Value::Null => JsonValue::Null,
        serde_json::Value::Bool(b) => JsonValue::Bool(b),
        serde_json::Value::Number(n) => JsonValue::Number(n.to_string()),
        serde_json::Value::String(s) => JsonValue::Str(s),
        serde_json::Value::Array(a) => JsonValue::Array(a.into_iter().map(json_from_serde).collect()),
        serde_json::Value::Object(m) => JsonValue::Object(
            m.into_iter().map(|(k, x)| (k, json_from_serde(x))).collect(),
        ),
    }
}

/// `serde_json::from_str::<serde_json::Value>`: reads a JSON document.
/// The contract claims that the document read, or the refusal, is the one
/// `json_document` names for the text.
#[verifier::external_body]
pub(crate) fn parse_json(text: &str) -> (r: Result<JsonValue, serde_json::Error>)
    ensures
        r matches Ok(v) ==> json_document(text@) == Some(v),
        r is Err ==> json_document(text@) is None,
{
    match serde_json::from_str::<serde_json::Value>(text) {
        Ok(v) => Ok(json_from_serde(v)),
        Err(e) => Err(e),
    }
}

} // verus!
