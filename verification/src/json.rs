//! JSON documents as the mathematical tree they denote, and the accessors of
//! `serde_json` that the library reads them with.

use serde_json::Value;
use vstd::prelude::*;

verus! {

/// The tree that a JSON document denotes.
///
/// A number that is kept as an integer is that integer; one that is kept in
/// binary64 is known by its bits.
pub enum Json {
    Null,
    Bool(bool),
    Integer(int),
    Float(u64),
    Text(Seq<char>),
    Array(Seq<Json>),
    Object(Map<Seq<char>, Json>),
}

impl Json {
    /// The member `key` of an object.
    pub open spec fn member(self, key: Seq<char>) -> Option<Json> {
        match self {
            Json::Object(members) => if members.contains_key(key) {
                Some(members[key])
            } else {
                None
            },
            _ => None,
        }
    }

    /// The characters of a string.
    pub open spec fn text(self) -> Option<Seq<char>> {
        match self {
            Json::Text(text) => Some(text),
            _ => None,
        }
    }

    /// The elements of an array.
    pub open spec fn elements(self) -> Option<Seq<Json>> {
        match self {
            Json::Array(elements) => Some(elements),
            _ => None,
        }
    }

    /// The value of an integer between `low` and `high`, both included.
    pub open spec fn integer_within(self, low: int, high: int) -> Option<int> {
        match self {
            Json::Integer(n) => if low <= n <= high {
                Some(n)
            } else {
                None
            },
            _ => None,
        }
    }
}

/// `serde_json::Value`, a JSON document held in memory.
#[verifier::external_type_specification]
#[verifier::external_body]
pub struct ExValue(serde_json::Value);

/// What a `serde_json::Value` holds.
pub uninterp spec fn json_of(value: serde_json::Value) -> Json;

/// `serde_json::Value::get` with a string index: the member of an object under
/// that key, and nothing for any other value or an absent key.
#[verifier::external_body]
pub(crate) fn value_get<'a>(value: &'a Value, key: &str) -> (member: Option<&'a Value>)
    ensures
        match member {
            Some(member) => json_of(*value).member(key@) == Some(json_of(*member)),
            None => json_of(*value).member(key@) is None,
        },
{
    value.get(key)
}

/// What each value of a sequence holds.
pub open spec fn json_seq(values: Seq<serde_json::Value>) -> Seq<Json> {
    values.map_values(|value: serde_json::Value| json_of(value))
}

/// `serde_json::Value::as_str`: the characters of a string, and nothing for any
/// other value.
#[verifier::external_body]
pub(crate) fn value_as_str(value: &Value) -> (text: Option<&str>)
    ensures
        text.deep_view() == json_of(*value).text(),
{
    value.as_str()
}

/// `serde_json::Value::as_array`: the elements of an array, and nothing for any
/// other value.
#[verifier::external_body]
pub(crate) fn value_as_array(value: &Value) -> (elements: Option<&Vec<Value>>)
    ensures
        match elements {
            Some(elements) => json_of(*value).elements() == Some(json_seq(elements@)),
            None => json_of(*value).elements() is None,
        },
{
    value.as_array()
}

/// `serde_json::Value::as_i64`: the value of an integer that an `i64` can hold,
/// and nothing for any other value.
#[verifier::external_body]
pub(crate) fn value_as_i64(value: &Value) -> (n: Option<i64>)
    ensures
        match n {
            Some(n) => json_of(*value).integer_within(i64::MIN as int, i64::MAX as int) == Some(
                n as int,
            ),
            None => json_of(*value).integer_within(i64::MIN as int, i64::MAX as int) is None,
        },
{
    value.as_i64()
}

/// `serde_json::Value::as_u64`: the value of an integer that a `u64` can hold,
/// and nothing for any other value.
#[verifier::external_body]
pub(crate) fn value_as_u64(value: &Value) -> (n: Option<u64>)
    ensures
        match n {
            Some(n) => json_of(*value).integer_within(0, u64::MAX as int) == Some(n as int),
            None => json_of(*value).integer_within(0, u64::MAX as int) is None,
        },
{
    value.as_u64()
}

/// `serde_json::Error`, the reason why a document could not be read or written.
#[verifier::external_type_specification]
#[verifier::external_body]
pub struct ExError(serde_json::Error);

/// What a `serde_json::Error` says.
pub uninterp spec fn json_error_text(error: serde_json::Error) -> Seq<char>;

/// `serde_json::Error::to_string`: the message that `json_error_text` names.
#[verifier::external_body]
pub(crate) fn error_text(error: &serde_json::Error) -> (text: String)
    ensures
        text@ == json_error_text(*error),
{
    error.to_string()
}

/// What `serde_json` makes of a text: the document that it writes, or what the
/// error says where it writes none.
pub uninterp spec fn json_parsed(text: Seq<char>) -> Result<Json, Seq<char>>;

/// `serde_json::from_str` into a `Value`: the document or the error that
/// `json_parsed` names for the text.
#[verifier::external_body]
pub(crate) fn parse_value(text: &str) -> (parsed: Result<Value, serde_json::Error>)
    ensures
        match parsed {
            Ok(value) => json_parsed(text@) == Ok::<Json, Seq<char>>(json_of(value)),
            Err(error) => json_parsed(text@) == Err::<Json, Seq<char>>(json_error_text(error)),
        },
{
    serde_json::from_str(text)
}

/// The member `key` of an optional document.
pub open spec fn member_of(value: Option<Json>, key: Seq<char>) -> Option<Json> {
    match value {
        Some(value) => value.member(key),
        None => None,
    }
}

/// The characters under `key`, where a string stands there.
pub open spec fn text_at(value: Json, key: Seq<char>) -> Option<Seq<char>> {
    match value.member(key) {
        Some(member) => member.text(),
        None => None,
    }
}

/// The elements under `key`, where an array stands there.
pub open spec fn elements_at(value: Json, key: Seq<char>) -> Option<Seq<Json>> {
    match value.member(key) {
        Some(member) => member.elements(),
        None => None,
    }
}

/// The string under `key`, where one stands there.
pub(crate) fn str_at<'a>(value: &'a Value, key: &str) -> (text: Option<&'a str>)
    ensures
        text.deep_view() == text_at(json_of(*value), key@),
{
    match value_get(value, key) {
        Some(member) => value_as_str(member),
        None => None,
    }
}

/// The array under `key`, where one stands there.
pub(crate) fn array_at<'a>(value: &'a Value, key: &str) -> (elements: Option<&'a Vec<Value>>)
    ensures
        match elements {
            Some(elements) => elements_at(json_of(*value), key@) == Some(json_seq(elements@)),
            None => elements_at(json_of(*value), key@) is None,
        },
{
    match value_get(value, key) {
        Some(member) => value_as_array(member),
        None => None,
    }
}

/// `serde_json::Value::clone`: a value that holds the same document.
#[verifier::external_body]
pub(crate) fn value_clone(value: &Value) -> (copy: Value)
    ensures
        json_of(copy) == json_of(*value),
{
    value.clone()
}

/// `serde_json::Map::from_iter` over one entry: an object with a single member,
/// which is a string.
#[verifier::external_body]
pub(crate) fn object_with_text(key: &str, text: &str) -> (object: Value)
    ensures
        json_of(object) == Json::Object(Map::empty().insert(key@, Json::Text(text@))),
{
    Value::Object(serde_json::Map::from_iter([(key.to_string(), Value::String(text.to_string()))]))
}

/// The text that `serde_json` writes an array as, if it writes one.
pub uninterp spec fn array_text(elements: Seq<Json>) -> Option<Seq<char>>;

/// `serde_json::to_string` of several values: the text that `array_text` names
/// for the array of them. Members of an object are written in the order of
/// their keys, so that the text depends on nothing but what the values hold.
#[verifier::external_body]
pub(crate) fn values_to_string(values: &Vec<Value>) -> (text: Option<String>)
    ensures
        text.deep_view() == array_text(json_seq(values@)),
{
    serde_json::to_string(values).ok()
}

} // verus!
