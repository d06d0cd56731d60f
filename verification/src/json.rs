//! JSON documents, as `serde_json` holds, reads and writes them.
//!
//! A `serde_json::Value` is opaque to the verifier. [`json_model`] names the
//! document that a value holds, and the items of this file say, without
//! proof, what the functions of `serde_json` make of it. Everything else in
//! the crate is proved from what is stated here.

use vstd::prelude::*;

verus! {

/// `serde_json::Value`: a JSON document in memory.
#[verifier::external_type_specification]
#[verifier::external_body]
pub struct ExValue(serde_json::Value);

/// `serde_json::Error`: why a text could not be read, or a document not
/// written.
#[verifier::external_type_specification]
#[verifier::external_body]
pub struct ExError(serde_json::Error);

/// A JSON number, in the three forms in which `serde_json` keeps one.
pub enum NumberModel {
    /// An integer from 0 to `u64::MAX`.
    Unsigned(u64),
    /// An integer below 0.
    Negative(i64),
    /// Any other number, by the bit pattern of its binary form.
    Fraction(u64),
}

/// A JSON document. The members of an object stand in the order in which
/// they were put in, each key once.
pub enum JsonModel {
    Null,
    Bool(bool),
    Number(NumberModel),
    Text(Seq<char>),
    Array(Seq<JsonModel>),
    Object(Seq<(Seq<char>, JsonModel)>),
}

/// The document that a value holds.
pub uninterp spec fn json_model(value: serde_json::Value) -> JsonModel;

/// The document that `serde_json::from_str` reads from a text, `None` for a
/// text that it refuses.
pub uninterp spec fn parsed_json(text: Seq<char>) -> Option<JsonModel>;

/// The text that `serde_json::to_string_pretty` writes for a document,
/// `None` for a document that it refuses.
pub uninterp spec fn pretty_json(document: JsonModel) -> Option<Seq<char>>;

/// The documents that a sequence of values holds.
pub open spec fn json_models(values: Seq<serde_json::Value>) -> Seq<JsonModel> {
    values.map_values(|value: serde_json::Value| json_model(value))
}

/// The members that a sequence of keys and values stands for.
pub open spec fn member_models(members: Seq<(String, serde_json::Value)>) -> Seq<
    (Seq<char>, JsonModel),
> {
    members.map_values(|member: (String, serde_json::Value)| (member.0@, json_model(member.1)))
}

/// No key occurs twice among the members.
pub open spec fn distinct_keys(members: Seq<(Seq<char>, JsonModel)>) -> bool {
    forall|i: int, j: int| 0 <= i < j < members.len() ==> members[i].0 != members[j].0
}

/// The first member with the given key, if there is one.
pub open spec fn member_at(members: Seq<(Seq<char>, JsonModel)>, key: Seq<char>) -> Option<
    JsonModel,
>
    decreases members.len(),
{
    if members.len() == 0 {
        None
    } else if members[0].0 == key {
        Some(members[0].1)
    } else {
        member_at(members.drop_first(), key)
    }
}

/// The member of an object under the given key. `None` if the document is
/// no object, or has no such member.
pub open spec fn member_of(document: JsonModel, key: Seq<char>) -> Option<JsonModel> {
    match document {
        JsonModel::Object(members) => member_at(members, key),
        _ => None,
    }
}

/// `serde_json::from_str`, read as a `Value`: the document that the text
/// holds, or an error for a text that is not one JSON document.
#[verifier::external_body]
pub(crate) fn parse(text: &str) -> (outcome: Result<serde_json::Value, serde_json::Error>)
    ensures
        match outcome {
            Ok(value) => parsed_json(text@) == Some(json_model(value)),
            Err(_) => parsed_json(text@) is None,
        },
{
    serde_json::from_str(text)
}

/// `serde_json::to_string_pretty` on a `Value`: the document as indented
/// text.
#[verifier::external_body]
pub(crate) fn pretty(value: &serde_json::Value) -> (outcome: Result<String, serde_json::Error>)
    ensures
        match outcome {
            Ok(text) => pretty_json(json_model(*value)) == Some(text@),
            Err(_) => pretty_json(json_model(*value)) is None,
        },
{
    serde_json::to_string_pretty(value)
}

/// `Value::as_array`: the items, where the document is an array.
pub assume_specification[ serde_json::Value::as_array ](value: &serde_json::Value) -> (items:
    Option<&Vec<serde_json::Value>>)
    ensures
        match items {
            Some(items) => json_model(*value) == JsonModel::Array(json_models(items@)),
            None => !(json_model(*value) is Array),
        },
;

/// `Value::as_u64`: the number, where the document is an integer from 0 to
/// `u64::MAX`.
pub assume_specification[ serde_json::Value::as_u64 ](value: &serde_json::Value) -> (number:
    Option<u64>)
    ensures
        number == match json_model(*value) {
            JsonModel::Number(NumberModel::Unsigned(n)) => Some(n),
            _ => None,
        },
;

/// `Value::as_str`: the text, where the document is a string.
pub assume_specification[ serde_json::Value::as_str ](value: &serde_json::Value) -> (text:
    Option<&str>)
    ensures
        match text {
            Some(text) => json_model(*value) == JsonModel::Text(text@),
            None => !(json_model(*value) is Text),
        },
;

/// `Value::as_bool`: the truth value, where the document is one.
pub assume_specification[ serde_json::Value::as_bool ](value: &serde_json::Value) -> (truth:
    Option<bool>)
    ensures
        truth == match json_model(*value) {
            JsonModel::Bool(b) => Some(b),
            _ => None,
        },
;

/// `Value::get` with a string: the member of an object under that key.
#[verifier::external_body]
pub(crate) fn member<'a>(value: &'a serde_json::Value, key: &str) -> (found: Option<
    &'a serde_json::Value,
>)
    ensures
        match found {
            Some(found) => member_of(json_model(*value), key@) == Some(json_model(*found)),
            None => member_of(json_model(*value), key@) is None,
        },
{
    value.get(key)
}

/// `Value::from` on a `u64`: the number as a document.
#[verifier::external_body]
pub(crate) fn number_value(number: u64) -> (value: serde_json::Value)
    ensures
        json_model(value) == JsonModel::Number(NumberModel::Unsigned(number)),
{
    serde_json::Value::from(number)
}

/// `Value::String`: the text as a document.
#[verifier::external_body]
pub(crate) fn text_value(text: String) -> (value: serde_json::Value)
    ensures
        json_model(value) == JsonModel::Text(text@),
{
    serde_json::Value::String(text)
}

/// `Value::Bool`: the truth value as a document.
#[verifier::external_body]
pub(crate) fn bool_value(truth: bool) -> (value: serde_json::Value)
    ensures
        json_model(value) == JsonModel::Bool(truth),
{
    serde_json::Value::Bool(truth)
}

/// `Value::Array`: the array of the given items.
#[verifier::external_body]
pub(crate) fn array_value(items: Vec<serde_json::Value>) -> (value: serde_json::Value)
    ensures
        json_model(value) == JsonModel::Array(json_models(items@)),
{
    serde_json::Value::Array(items)
}

/// `Value::Object` of the `Map` collected from the given members, whose
/// keys differ: the object with these members in this order.
#[verifier::external_body]
pub(crate) fn object_value(members: Vec<(String, serde_json::Value)>) -> (value: serde_json::Value)
    requires
        distinct_keys(member_models(members@)),
    ensures
        json_model(value) == JsonModel::Object(member_models(members@)),
{
    serde_json::Value::Object(members.into_iter().collect())
}

} // verus!
