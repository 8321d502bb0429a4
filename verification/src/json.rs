//! JSON values, built through `serde_json`.

use vstd::prelude::*;

verus! {

/// What a JSON value says, as far as this crate builds JSON values.
pub enum JsonView {
    Null,
    Number(int),
    Text(Seq<char>),
    Object(Map<Seq<char>, JsonView>),
}

/// A JSON value of `serde_json`.
#[verifier::external_type_specification]
#[verifier::external_body]
pub struct ExValue(serde_json::Value);

/// The members of a JSON object of `serde_json`.
#[verifier::external_type_specification]
#[verifier::external_body]
#[verifier::reject_recursive_types(K)]
#[verifier::reject_recursive_types(V)]
pub struct ExMap<K, V>(serde_json::Map<K, V>);

/// The members of an object whose values are any JSON values.
pub type JsonObject = serde_json::Map<String, serde_json::Value>;

/// What a value holds.
pub uninterp spec fn json_view(value: serde_json::Value) -> JsonView;

/// What the members of an object hold, each under its name.
pub uninterp spec fn members(object: JsonObject) -> Map<Seq<char>, JsonView>;

/// `serde_json::Map::new`: an object without members.
#[verifier::external_body]
pub(crate) fn new_object() -> (object: JsonObject)
    ensures
        members(object) == (Map::<Seq<char>, JsonView>::empty()),
{
    serde_json::Map::new()
}

/// `serde_json::Map::insert`: sets the member `name` to `value`, whether or not
/// there was one of that name, and leaves the other members as they were. The
/// value that it may have replaced is dropped.
#[verifier::external_body]
pub(crate) fn set_member(object: &mut JsonObject, name: &str, value: serde_json::Value)
    ensures
        members(*final(object)) == members(*old(object)).insert(name@, json_view(value)),
{
    object.insert(name.to_string(), value);
}

/// `<serde_json::Value as From<Map<String, Value>>>::from`: the object with the
/// given members.
#[verifier::external_body]
pub(crate) fn object_value(object: JsonObject) -> (value: serde_json::Value)
    ensures
        json_view(value) == JsonView::Object(members(object)),
{
    serde_json::Value::from(object)
}

/// `<serde_json::Value as From<&str>>::from`: the string with the given text.
#[verifier::external_body]
pub(crate) fn text_value(text: &str) -> (value: serde_json::Value)
    ensures
        json_view(value) == JsonView::Text(text@),
{
    serde_json::Value::from(text)
}

/// `<serde_json::Value as From<Option<i64>>>::from`: null for `None`, and the
/// number itself for `Some`.
#[verifier::external_body]
pub(crate) fn optional_number_value(number: Option<i64>) -> (value: serde_json::Value)
    ensures
        json_view(value) == (match number {
            None => JsonView::Null,
            Some(n) => JsonView::Number(n as int),
        }),
{
    serde_json::Value::from(number)
}

} // verus!
