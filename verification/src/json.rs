//! JSON values as plain data, and the trusted parse of a payload text.
//!
//! The completion service answers with a textual payload that is expected
//! to be a JSON object. Parsing the text is left to the `serde_json` crate;
//! everything the pipeline reads out of the parsed value is held here as
//! plain data, so the extraction logic itself is verified.

use vstd::prelude::*;

verus! {

/// A JSON value held as plain data. A number carries no payload: the
/// pipeline never reads one, it only needs to see that a value is not a
/// string, a list or an object.
pub enum JsonValue {
    Null,
    Bool(bool),
    Num,
    Str(String),
    Arr(Vec<JsonValue>),
    Obj(Vec<(String, JsonValue)>),
}

#[verifier::external_type_specification]
#[verifier::external_body]
pub struct ExValue(serde_json::Value);

/// The value a text parses to as JSON, or nothing when the text is not
/// JSON. Named, not spelled out: it stands for what `serde_json` computes.
pub uninterp spec fn json_parse(s: Seq<char>) -> Option<JsonValue>;

/// Carries a parsed `serde_json` value over into the library's own type,
/// one variant to one; only the numeric payload is left behind.
#[verifier::external_body]
fn of_value(v: serde_json::Value) -> JsonValue {
    match v {
        serde_json::Value::Null => JsonValue::Null,
        serde_json::Value::Bool(b) => JsonValue::Bool(b),
        serde_json::Value::Number(_) => JsonValue::Num,
        serde_json::Value::String(s) => JsonValue::Str(s),
        serde_json::Value::Array(a) => JsonValue::Arr(a.into_iter().map(of_value).collect()),
        serde_json::Value::Object(o) => JsonValue::Obj(
            o.into_iter().map(|e| (e.0, of_value(e.1))).collect(),
        ),
    }
}

/// Relies on `serde_json::from_str::<Value>`: whether a text parses as
/// JSON, and the value it parses to, depend on the text alone.
#[verifier::external_body]
pub(crate) fn parse_json(s: &str) -> (r: Option<JsonValue>)
    ensures
        r == json_parse(s@),
{
    match serde_json::from_str::<serde_json::Value>(s) {
        Ok(v) => Some(of_value(v)),
        Err(_) => None,
    }
}

} // verus!
