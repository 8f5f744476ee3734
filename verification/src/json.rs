//! JSON texts as the engine sees them. The engine never looks inside a JSON
//! value: it carries the text, asks `serde_json` what kind of value the text
//! holds, and asks it for the text of the one object it builds itself.

use vstd::prelude::*;

verus! {

/// What a text is when it is read as one JSON value.
#[derive(Clone, Copy, Debug, PartialEq, Eq, Structural)]
pub enum JsonShape {
    /// The text is not one well-formed JSON value.
    Malformed,
    Null,
    Boolean,
    Number,
    Text,
    Array,
    Object,
}

/// The shape `serde_json::from_str::<serde_json::Value>` finds in `text`:
/// `Malformed` where it returns an error, else the variant of the value.
pub uninterp spec fn json_shape(text: Seq<char>) -> JsonShape;

/// The text `serde_json::to_string` gives for the object `{key: value}` whose
/// one member is a string.
pub uninterp spec fn json_member_text(key: Seq<char>, value: Seq<char>) -> Seq<char>;

/// Whether `text` is one well-formed JSON value.
pub open spec fn json_well_formed(text: Seq<char>) -> bool {
    json_shape(text) != JsonShape::Malformed
}

/// Trusted: parses `text` with `serde_json::from_str` into a
/// `serde_json::Value` and reports which variant came back, or `Malformed`
/// for an error. The parser reads nothing but its argument, so the answer is
/// a function of the text.
#[verifier::external_body]
fn parse_shape(text: &str) -> (shape: JsonShape)
    ensures
        shape == json_shape(text@),
{
    match serde_json::from_str::<serde_json::Value>(text) {
        Err(_) => JsonShape::Malformed,
        Ok(serde_json::Value::Null) => JsonShape::Null,
        Ok(serde_json::Value::Bool(_)) => JsonShape::Boolean,
        Ok(serde_json::Value::Number(_)) => JsonShape::Number,
        Ok(serde_json::Value::String(_)) => JsonShape::Text,
        Ok(serde_json::Value::Array(_)) => JsonShape::Array,
        Ok(serde_json::Value::Object(_)) => JsonShape::Object,
    }
}

/// Trusted: puts `value` as a JSON string under `key` into an empty
/// `serde_json::Map` and serialises that object with `serde_json::to_string`.
/// The serialiser reads nothing but the value, so the text is a function of
/// the two arguments. It fails only where its writer fails or a key is no
/// string; here it writes to a byte vector in memory and the one key is a
/// string, so it always yields a text.
#[verifier::external_body]
fn serialize_member(key: &str, value: &str) -> (text: Option<String>)
    ensures
        match text {
            Some(t) => t@ == json_member_text(key@, value@),
            None => false,
        },
{
    let mut members = serde_json::Map::new();
    members.insert(key.to_owned(), serde_json::Value::String(value.to_owned()));
    serde_json::to_string(&serde_json::Value::Object(members)).ok()
}

/// Classifies `text` as JSON.
pub fn shape_of(text: &str) -> (shape: JsonShape)
    ensures
        shape == json_shape(text@),
{
    parse_shape(text)
}

/// Whether `text` is one well-formed JSON value.
pub fn is_well_formed(text: &str) -> (ok: bool)
    ensures
        ok == json_well_formed(text@),
{
    match parse_shape(text) {
        JsonShape::Malformed => false,
        _ => true,
    }
}

/// The JSON text of the object whose single member `key` holds the string
/// `value`.
pub fn member_object(key: &str, value: &str) -> (text: String)
    ensures
        text@ == json_member_text(key@, value@),
{
    serialize_member(key, value).unwrap()
}

} // verus!
