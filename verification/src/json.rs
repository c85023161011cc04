//! JSON values as plain library data, decoded by `serde_json`.
use vstd::prelude::*;

verus! {

/// A JSON document. Numbers keep their textual form; objects keep their
/// entries in the order the decoder yields them, one entry per key.
#[derive(Debug)]
pub enum JsonValue {
    Null,
    Bool(bool),
    Number(String),
    Str(String),
    Array(Vec<JsonValue>),
    Object(Vec<(String, JsonValue)>),
}

/// The declared `serde_json` value type, carried only between the two
/// decoding items below.
#[verifier::external_type_specification]
#[verifier::external_body]
pub struct ExSerdeJsonValue(serde_json::Value);

/// The value `serde_json` decodes from a text, `None` when the text is
/// not a JSON document.
pub uninterp spec fn json_document(text: Seq<char>) -> Option<JsonValue>;

/// Decode a JSON text with `serde_json::from_str` (as `serde_json::Value`),
/// converting the result to a [`JsonValue`]. Claimed: the result depends
/// on the text alone.
#[verifier::external_body]
pub fn parse_json(text: &str) -> (r: Option<JsonValue>)
    ensures
        r == json_document(text@),
{
    serde_json::from_str::<serde_json::Value>(text).ok().map(from_serde)
}

/// Convert a decoded `serde_json::Value` variant by variant (numbers via
/// their `Display` text). Nothing is claimed of the result.
#[verifier::external_body]
fn from_serde(v: serde_json::Value) -> JsonValue {
    match v {
        serde_json::Value::Null => JsonValue::Null,
        serde_json::Value::Bool(b) => JsonValue::Bool(b),
        serde_json::Value::Number(n) => JsonValue::Number(n.to_string()),
        serde_json::Value::String(s) => JsonValue::Str(s),
        serde_json::Value::Array(a) => JsonValue::Array(a.into_iter().map(from_serde).collect()),
        serde_json::Value::Object(m) => JsonValue::Object(
            m.into_iter().map(|(k, x)| (k, from_serde(x))).collect(),
        ),
    }
}

/// Value of the first entry named `key` in an object's entries.
pub open spec fn field(entries: Seq<(String, JsonValue)>, key: Seq<char>) -> Option<JsonValue>
    decreases entries.len(),
{
    if entries.len() == 0 {
        None
    } else if entries[0].0@ == key {
        Some(entries[0].1)
    } else {
        field(entries.drop_first(), key)
    }
}

/// Executable `field`.
pub fn get_field<'a>(entries: &'a Vec<(String, JsonValue)>, key: &str) -> (r: Option<&'a JsonValue>)
    ensures
        match r {
            Some(v) => field(entries@, key@) == Some(*v),
            None => field(entries@, key@) is None,
        },
{
    let mut i: usize = 0;
    proof {
        assert(entries@.skip(0) == entries@);
    }
    while i < entries.len()
        invariant
            i <= entries@.len(),
            field(entries@, key@) == field(entries@.skip(i as int), key@),
        decreases entries.len() - i,
    {
        proof {
            assert(entries@.skip(i as int).drop_first() == entries@.skip(i + 1));
        }
        if crate::text::str_eq(entries[i].0.as_str(), key) {
            return Some(&entries[i].1);
        }
        i = i + 1;
    }
    None
}

} // verus!
