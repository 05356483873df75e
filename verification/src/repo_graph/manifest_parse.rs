use vstd::prelude::*;

use super::config::ConfigValue;
use super::snapshot::{DocumentFormat, ParsedDocument};

verus! {

/// A TOML value, as the `toml` crate parses it.
#[verifier::external_type_specification]
#[verifier::external_body]
pub struct ExTomlValue(toml::Value);

/// A JSON value, as the `serde_json` crate parses it.
#[verifier::external_type_specification]
#[verifier::external_body]
pub struct ExJsonValue(serde_json::Value);

/// What the `toml` crate makes of a TOML document: the document as plain values, or
/// the text of the parse error.
pub uninterp spec fn toml_document(text: Seq<char>) -> Result<ConfigValue, Seq<char>>;

/// What `serde_json` makes of a JSON document: the document as plain values, or the
/// text of the parse error.
pub uninterp spec fn json_document(text: Seq<char>) -> Result<ConfigValue, Seq<char>>;

/// A parse result with its error as text.
pub open spec fn result_view(r: Result<ConfigValue, String>) -> Result<ConfigValue, Seq<char>> {
    match r {
        Ok(v) => Ok(v),
        Err(e) => Err(e@),
    }
}

/// A `toml::Value` as plain values: strings as text, arrays as lists, tables as
/// their entries in the table's key order, every other value as `Other`.
#[verifier::external_body]
fn config_from_toml(value: &toml::Value) -> ConfigValue {
    match value {
        toml::Value::String(text) => ConfigValue::Text(text.clone()),
        toml::Value::Array(items) => ConfigValue::List(items.iter().map(config_from_toml).collect()),
        toml::Value::Table(table) => ConfigValue::Table(table.iter().map(|(k, v)| (k.clone(), config_from_toml(v))).collect()),
        _ => ConfigValue::Other,
    }
}

/// A `serde_json::Value` as plain values: strings as text, arrays as lists, objects
/// as their entries in the object's key order, every other value as `Other`.
#[verifier::external_body]
fn config_from_json(value: &serde_json::Value) -> ConfigValue {
    match value {
        serde_json::Value::String(text) => ConfigValue::Text(text.clone()),
        serde_json::Value::Array(items) => ConfigValue::List(items.iter().map(config_from_json).collect()),
        serde_json::Value::Object(map) => ConfigValue::Table(map.iter().map(|(k, v)| (k.clone(), config_from_json(v))).collect()),
        _ => ConfigValue::Other,
    }
}

/// Parses a TOML document with `toml::from_str::<toml::Value>` and converts it with
/// `config_from_toml`; a parse error becomes its `to_string()`. The result depends on
/// the text alone; nothing more of it is claimed.
#[verifier::external_body]
pub(crate) fn parse_toml_document(text: &str) -> (r: Result<ConfigValue, String>)
    ensures
        result_view(r) == toml_document(text@),
{
    match toml::from_str::<toml::Value>(text) {
        Ok(value) => Ok(config_from_toml(&value)),
        Err(error) => Err(error.to_string()),
    }
}

/// Parses a JSON document with `serde_json::from_str::<serde_json::Value>` and
/// converts it with `config_from_json`; a parse error becomes its `to_string()`. The
/// result depends on the text alone; nothing more of it is claimed.
#[verifier::external_body]
pub(crate) fn parse_json_document(text: &str) -> (r: Result<ConfigValue, String>)
    ensures
        result_view(r) == json_document(text@),
{
    match serde_json::from_str::<serde_json::Value>(text) {
        Ok(value) => Ok(config_from_json(&value)),
        Err(error) => Err(error.to_string()),
    }
}

/// What the parser of a format makes of a document.
pub open spec fn format_document(format: DocumentFormat, text: Seq<char>) -> Result<ConfigValue, Seq<char>> {
    match format {
        DocumentFormat::Toml => toml_document(text),
        DocumentFormat::Json => json_document(text),
    }
}

/// A configuration file as read (its text, or the text of the read error) and
/// parsed in its format.
pub open spec fn parsed_document_spec(format: DocumentFormat, read: Result<Seq<char>, Seq<char>>, d: ParsedDocument) -> bool {
    match read {
        Err(e) => d matches ParsedDocument::Unreadable(m) && m@ == e,
        Ok(t) => match format_document(format, t) {
            Ok(v) => d == ParsedDocument::Parsed(v),
            Err(e) => d matches ParsedDocument::Malformed(m) && m@ == e,
        },
    }
}

/// Parses a configuration file that was read, or records why it could not be read.
pub fn parsed_document(format: DocumentFormat, read: Result<String, String>) -> (d: ParsedDocument)
    ensures
        parsed_document_spec(
            format,
            match read {
                Ok(t) => Ok(t@),
                Err(e) => Err(e@),
            },
            d,
        ),
{
    match read {
        Err(e) => ParsedDocument::Unreadable(e),
        Ok(text) => {
            let parsed = match format {
                DocumentFormat::Toml => parse_toml_document(text.as_str()),
                DocumentFormat::Json => parse_json_document(text.as_str()),
            };
            match parsed {
                Ok(v) => ParsedDocument::Parsed(v),
                Err(e) => ParsedDocument::Malformed(e),
            }
        },
    }
}

} // verus!
