//! TOML documents as plain library data, decoded by the `toml` crate.
use vstd::prelude::*;

verus! {

/// A TOML value as the library reads it: tables, strings, and any other
/// value by its TOML text.
#[derive(Debug)]
pub enum TomlValue {
    Table(Vec<(String, TomlValue)>),
    Str(String),
    Other(String),
}

/// The declared `toml` value type, carried only between the two decoding
/// items below.
#[verifier::external_type_specification]
#[verifier::external_body]
pub struct ExTomlValue(toml::Value);

/// The top-level table `toml` decodes from a text, or the decoder's error
/// message.
pub uninterp spec fn toml_document(text: Seq<char>) -> Result<Vec<(String, TomlValue)>, String>;

/// Decode a TOML text with `toml::from_str` (as `toml::Table`), converting
/// the entries to [`TomlValue`]s and an error to its message. Claimed: the
/// result depends on the text alone.
#[verifier::external_body]
pub fn parse_toml(text: &str) -> (r: Result<Vec<(String, TomlValue)>, String>)
    ensures
        r == toml_document(text@),
{
    match toml::from_str::<toml::Table>(text) {
        Ok(table) => Ok(table.into_iter().map(|(k, v)| (k, from_toml(v))).collect()),
        Err(e) => Err(e.to_string()),
    }
}

/// Convert a decoded `toml::Value` variant by variant: tables entry by
/// entry, strings as they are, anything else through its `Display` text.
/// Nothing is claimed of the result.
#[verifier::external_body]
fn from_toml(v: toml::Value) -> TomlValue {
    match v {
        toml::Value::Table(t) => TomlValue::Table(
            t.into_iter().map(|(k, x)| (k, from_toml(x))).collect(),
        ),
        toml::Value::String(s) => TomlValue::Str(s),
        other => TomlValue::Other(other.to_string()),
    }
}

} // verus!
