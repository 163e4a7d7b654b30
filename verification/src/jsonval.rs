//! Reading received JSON. Frames that arrive from the kernel are arbitrary
//! JSON text, so parsing them is serde_json's work; the values it hands
//! back are opaque here, and every decision taken on them is made by
//! verified code that receives the extracted fields as plain strings.
use vstd::prelude::*;

verus! {

#[verifier::external_type_specification]
#[verifier::external_body]
pub struct ExJsonValue(serde_json::Value);

/// Relies on `serde_json::from_str::<Value>`: `Some` exactly when the text
/// is valid JSON; nothing is assumed about the value.
#[verifier::external_body]
pub(crate) fn json_parse(s: &str) -> (r: Option<serde_json::Value>)
{
    serde_json::from_str(s).ok()
}

/// Relies on `serde_json::Value::get`: the member of an object under the
/// key, or `None` when absent or not an object.
#[verifier::external_body]
pub(crate) fn json_get<'a>(v: &'a serde_json::Value, key: &str) -> (r: Option<&'a serde_json::Value>)
{
    v.get(key)
}

/// Relies on `serde_json::Value::as_str`: the text of a string value, or
/// `None` for any other kind of value.
#[verifier::external_body]
pub(crate) fn json_as_str(v: &serde_json::Value) -> (r: Option<String>)
{
    v.as_str().map(|s| s.to_string())
}

/// Relies on `serde_json::to_string` on a `Value`, which cannot fail: every
/// `Value` has string keys. The text re-serializes the value.
#[verifier::external_body]
pub(crate) fn json_render(v: &serde_json::Value) -> (r: String)
{
    serde_json::to_string(v).unwrap_or_default()
}

/// A string field of a JSON object: parse the text, index the object,
/// read the member as a string.
pub fn json_field_str(text: &str, key: &str) -> (r: Option<String>)
{
    match json_parse(text) {
        None => None,
        Some(v) => match json_get(&v, key) {
            None => None,
            Some(f) => json_as_str(f),
        },
    }
}

/// A field of a JSON object re-rendered as JSON text; `"null"` when the
/// field is absent or the text is not an object, so absent members are
/// forwarded as a JSON null.
pub fn json_field_render(text: &str, key: &str) -> (r: String)
{
    match json_parse(text) {
        None => String::from_str("null"),
        Some(v) => match json_get(&v, key) {
            None => String::from_str("null"),
            Some(f) => json_render(f),
        },
    }
}

} // verus!
