//! JSON objects, by way of `serde_json`.
use crate::text::opt_view;
use serde_json::Value;
use vstd::prelude::*;

verus! {

/// A JSON value.
#[verifier::external_type_specification]
#[verifier::external_body]
pub struct ExValue(serde_json::Value);

/// The fields of a JSON object.
#[verifier::external_type_specification]
#[verifier::external_body]
#[verifier::reject_recursive_types(K)]
#[verifier::reject_recursive_types(V)]
pub struct ExJsonMap<K, V>(serde_json::Map<K, V>);

/// The value of a field, as far as the dashboard uses it.
pub ghost enum JsonField {
    Flag(bool),
    /// A number that is an integer of at most 64 bits without sign.
    Number(u64),
    Text(Seq<char>),
    /// An array of integers of at most 32 bits without sign.
    Numbers(Seq<u32>),
    Object(Map<Seq<char>, JsonField>),
    /// Anything else, as the text that `serde_json::to_string` writes for it.
    Other(Seq<char>),
}

/// What a `serde_json::Map` holds: for each key the value, read by its kind. Nothing that its text
/// depends on is left out.
pub uninterp spec fn object_fields(object: serde_json::Map<String, serde_json::Value>) -> Map<
    Seq<char>,
    JsonField,
>;

/// What a `serde_json::Value` holds, read by its kind. Nothing that its text depends on is left
/// out.
pub uninterp spec fn value_field(value: serde_json::Value) -> JsonField;

/// The text that `serde_json::to_string` writes for an object with these fields.
pub uninterp spec fn rendered(fields: Map<Seq<char>, JsonField>) -> Seq<char>;

/// The fields of the object that `serde_json::from_str` reads from a text; none where the text is
/// no JSON, or no object.
pub uninterp spec fn parsed(text: Seq<char>) -> Option<Map<Seq<char>, JsonField>>;

/// `serde_json::Map::new`: an object without fields.
#[verifier::external_body]
pub(crate) fn new_object() -> (out: serde_json::Map<String, Value>)
    ensures
        object_fields(out) == no_fields(),
{
    serde_json::Map::new()
}

/// `serde_json::Map::insert` with a number: the field is set, whether it was there or not.
#[verifier::external_body]
pub(crate) fn set_number(object: &mut serde_json::Map<String, Value>, key: &str, value: u64)
    ensures
        object_fields(*final(object)) == object_fields(*old(object)).insert(
            key@,
            JsonField::Number(value),
        ),
{
    let _ = object.insert(key.to_string(), Value::from(value));
}

/// `serde_json::Map::insert` with a truth value: the field is set, whether it was there or not.
#[verifier::external_body]
pub(crate) fn set_flag(object: &mut serde_json::Map<String, Value>, key: &str, value: bool)
    ensures
        object_fields(*final(object)) == object_fields(*old(object)).insert(
            key@,
            JsonField::Flag(value),
        ),
{
    let _ = object.insert(key.to_string(), Value::from(value));
}

/// `serde_json::Map::insert` with a text: the field is set, whether it was there or not.
#[verifier::external_body]
pub(crate) fn set_text(object: &mut serde_json::Map<String, Value>, key: &str, value: &str)
    ensures
        object_fields(*final(object)) == object_fields(*old(object)).insert(
            key@,
            JsonField::Text(value@),
        ),
{
    let _ = object.insert(key.to_string(), Value::from(value));
}

/// `serde_json::Map::insert` with an array of numbers: the field is set, whether it was there or
/// not.
#[verifier::external_body]
pub(crate) fn set_numbers(object: &mut serde_json::Map<String, Value>, key: &str, value: &[u32])
    ensures
        object_fields(*final(object)) == object_fields(*old(object)).insert(
            key@,
            JsonField::Numbers(value@),
        ),
{
    let _ = object.insert(key.to_string(), Value::from(value));
}

/// `serde_json::Map::insert` with an object: the field is set, whether it was there or not.
#[verifier::external_body]
pub(crate) fn set_object(
    object: &mut serde_json::Map<String, Value>,
    key: &str,
    value: serde_json::Map<String, Value>,
)
    ensures
        object_fields(*final(object)) == object_fields(*old(object)).insert(
            key@,
            JsonField::Object(object_fields(value)),
        ),
{
    let _ = object.insert(key.to_string(), Value::Object(value));
}

/// `serde_json::Map::insert` with a copy of any value: the field is set, whether it was there or
/// not.
#[verifier::external_body]
pub(crate) fn set_value(object: &mut serde_json::Map<String, Value>, key: &str, value: &Value)
    ensures
        object_fields(*final(object)) == object_fields(*old(object)).insert(
            key@,
            value_field(*value),
        ),
{
    let _ = object.insert(key.to_string(), value.clone());
}

/// `serde_json::Map::get` and `serde_json::Value::as_u64`: the number in a field, where there is
/// such a field and it holds an integer of at most 64 bits without sign.
#[verifier::external_body]
pub(crate) fn number_field(object: &serde_json::Map<String, Value>, key: &str) -> (out: Option<u64>)
    ensures
        out == number_in(object_fields(*object), key@),
{
    match object.get(key) {
        Some(value) => value.as_u64(),
        None => None,
    }
}

/// `serde_json::Map::get` and `serde_json::Value::as_str`: the text in a field, where there is
/// such a field and it holds a text.
#[verifier::external_body]
pub(crate) fn text_field(object: &serde_json::Map<String, Value>, key: &str) -> (out: Option<
    String,
>)
    ensures
        opt_view(out) == text_in(object_fields(*object), key@),
{
    match object.get(key) {
        Some(value) => value.as_str().map(str::to_string),
        None => None,
    }
}

/// `serde_json::to_string`: the text of an object, which depends on its fields alone. Writing an
/// object whose keys are texts to memory does not fail.
#[verifier::external_body]
pub(crate) fn render(object: serde_json::Map<String, Value>) -> (out: Option<String>)
    ensures
        opt_view(out) == Some(rendered(object_fields(object))),
{
    serde_json::to_string(&Value::Object(object)).ok()
}

/// `serde_json::from_str`: the object that a text holds. What it reads from a text depends on
/// the text alone.
#[verifier::external_body]
pub(crate) fn parse(text: &str) -> (out: Option<serde_json::Map<String, Value>>)
    ensures
        parsed(text@) == match out {
            Some(object) => Some(object_fields(object)),
            None => None,
        },
{
    match serde_json::from_str::<Value>(text) {
        Ok(Value::Object(object)) => Some(object),
        Ok(_) => None,
        Err(_) => None,
    }
}

/// No fields at all.
pub open spec fn no_fields() -> Map<Seq<char>, JsonField> {
    Map::empty()
}

/// The number in a field.
pub open spec fn number_in(fields: Map<Seq<char>, JsonField>, key: Seq<char>) -> Option<u64> {
    if fields.contains_key(key) {
        match fields[key] {
            JsonField::Number(n) => Some(n),
            _ => None,
        }
    } else {
        None
    }
}

/// The text in a field.
pub open spec fn text_in(fields: Map<Seq<char>, JsonField>, key: Seq<char>) -> Option<Seq<char>> {
    if fields.contains_key(key) {
        match fields[key] {
            JsonField::Text(text) => Some(text),
            _ => None,
        }
    } else {
        None
    }
}

} // verus!
