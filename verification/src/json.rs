//! The data mapping behind a template expansion: a parsed JSON value,
//! of which only the top-level string-typed members can be substituted.
use vstd::prelude::*;

verus! {

#[verifier::external_type_specification]
#[verifier::external_body]
pub struct ExValue(serde_json::Value);

#[verifier::external_type_specification]
#[verifier::external_body]
pub struct ExError(serde_json::Error);

/// A parsed JSON data source.
pub type Data = serde_json::Value;

/// The top-level string-typed members of a JSON value: every key whose
/// value is a string, mapped to that string. A value that is not an object
/// has no such members.
pub uninterp spec fn string_entries(d: serde_json::Value) -> Map<Seq<char>, Seq<char>>;

/// The top-level string-typed members that parsing a piece of text yields,
/// or `None` where the text cannot be parsed as JSON.
pub uninterp spec fn json_string_entries(text: Seq<char>) -> Option<Map<Seq<char>, Seq<char>>>;

/// The value a key substitutes: the member's string where the key names a
/// string-typed member, the empty string otherwise.
pub open spec fn lookup(d: Map<Seq<char>, Seq<char>>, key: Seq<char>) -> Seq<char> {
    if d.contains_key(key) {
        d[key]
    } else {
        Seq::empty()
    }
}

/// Relies on `serde_json::Value::get` with a string index: it returns the
/// member under that key of a JSON object, and `None` for a missing key or
/// a non-object value.
#[verifier::external_body]
pub(crate) fn get_string_value(data: &serde_json::Value, key: &str) -> (r: Option<String>)
    ensures
        match r {
            Some(v) => string_entries(*data).contains_key(key@) && v@ == string_entries(
                *data,
            ).index(key@),
            None => !string_entries(*data).contains_key(key@),
        },
{
    match data.get(key) {
        Some(serde_json::Value::String(v)) => Some(v.clone()),
        _ => None,
    }
}

/// Relies on `serde_json::from_str`: it parses JSON text into a
/// `serde_json::Value`, and fails on text that it cannot parse; what it
/// returns depends on the text alone.
#[verifier::external_body]
fn parse_json(text: &str) -> (r: Result<serde_json::Value, serde_json::Error>)
    ensures
        match r {
            Ok(v) => json_string_entries(text@) matches Some(m) && string_entries(v) == m,
            Err(_) => json_string_entries(text@) is None,
        },
{
    serde_json::from_str(text)
}

/// Relies on the `Display` implementation of `serde_json::Error` for a
/// human-readable diagnostic.
#[verifier::external_body]
fn json_error_message(e: &serde_json::Error) -> (r: String) {
    e.to_string()
}

/// Why a piece of text could not serve as a data source.
pub struct JsonError {
    pub message: String,
}

impl JsonError {
    /// The diagnostic carried by this error.
    pub fn message(&self) -> (r: &str)
        ensures
            r@ == self.message@,
    {
        self.message.as_str()
    }
}

/// Parses JSON text into a data source, or reports why it is not valid
/// JSON.
pub fn parse_json_data(text: &str) -> (r: Result<serde_json::Value, JsonError>)
    ensures
        match r {
            Ok(v) => json_string_entries(text@) matches Some(m) && string_entries(v) == m,
            Err(_) => json_string_entries(text@) is None,
        },
{
    match parse_json(text) {
        Ok(v) => Ok(v),
        Err(e) => Err(JsonError { message: json_error_message(&e) }),
    }
}

} // verus!
