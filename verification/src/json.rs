//! Reading JSON text with `serde_json`.
//!
//! The grammar is `serde_json`'s and is not restated here: what it reads
//! from a text has a name, `json_document`, and the contracts of the
//! library speak of that name.

use crate::value::{StructuredValue, ValueView};
use vstd::prelude::*;

verus! {

/// `serde_json::Value`, which is carried from the reader to the copy and
/// never looked into.
#[verifier::external_type_specification]
#[verifier::external_body]
pub struct ExJsonValue(serde_json::Value);

/// The value that `serde_json::from_str` reads from `text` as one JSON
/// document, and `None` where it rejects the text.
pub uninterp spec fn json_document(text: Seq<char>) -> Option<ValueView>;

/// What a `serde_json::Value` holds: a number as the decimal text that
/// `serde_json` prints for it, the entries of an object in the order in which
/// its map hands them out.
pub uninterp spec fn json_content(value: serde_json::Value) -> ValueView;

/// Calls `serde_json::from_str` for a `serde_json::Value`.  Trusted: the
/// outcome depends on `text` alone, and an error means that the text was
/// rejected.
#[verifier::external_body]
fn from_str(text: &str) -> (outcome: Option<serde_json::Value>)
    ensures
        match outcome {
            Some(value) => json_document(text@) == Some(json_content(value)),
            None => json_document(text@) is None,
        },
{
    match serde_json::from_str::<serde_json::Value>(text) {
        Ok(value) => Some(value),
        Err(_) => None,
    }
}

/// Copies a `serde_json::Value` variant by variant.  Trusted: the copy holds
/// what the value holds; a `serde_json::Number` is copied as the text of its
/// `to_string`.
#[verifier::external_body]
fn from_json(value: &serde_json::Value) -> (copy: StructuredValue)
    ensures
        copy@ == json_content(*value),
{
    match value {
        serde_json::Value::Null => StructuredValue::Null,
        serde_json::Value::Bool(b) => StructuredValue::Bool(*b),
        serde_json::Value::Number(n) => StructuredValue::Number(n.to_string()),
        serde_json::Value::String(s) => StructuredValue::Text(s.clone()),
        serde_json::Value::Array(items) => StructuredValue::Array(
            items.iter().map(from_json).collect(),
        ),
        serde_json::Value::Object(entries) => StructuredValue::Object(
            entries.iter().map(|(key, item)| (key.clone(), from_json(item))).collect(),
        ),
    }
}

/// Reads `text` as one JSON document.
pub fn parse_json(text: &str) -> (parsed: Option<StructuredValue>)
    ensures
        match parsed {
            Some(value) => json_document(text@) == Some(value@),
            None => json_document(text@) is None,
        },
{
    match from_str(text) {
        Some(value) => Some(from_json(&value)),
        None => None,
    }
}

} // verus!
