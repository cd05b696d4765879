//! JSON documents as `serde_json` parses and holds them.
//!
//! A parsed document stays in a `serde_json::Value`. Verus cannot look into
//! one, so this module gives every `Value` a mathematical content, a
//! [`JsonValue`], and states what the few `serde_json` functions that the
//! library calls return in terms of that content. Those statements are
//! believed, not proved: they are the trusted base of everything that reads
//! a document.

use serde_json::Value;
use vstd::prelude::*;

verus! {

/// A JSON number, as far as the library tells numbers apart.
pub enum JsonNumber {
    /// A non-negative integer that fits in 64 bits.
    Unsigned(u64),
    /// Any other number: negative, fractional or out of range.
    Other,
}

/// The content of a JSON document.
pub enum JsonValue {
    Null,
    Bool(bool),
    Number(JsonNumber),
    Text(Seq<char>),
    Array(Seq<JsonValue>),
    Object(Map<Seq<char>, JsonValue>),
}

impl JsonValue {
    /// The member that an object holds under `key`.
    pub open spec fn member(self, key: Seq<char>) -> Option<JsonValue> {
        match self {
            JsonValue::Object(members) => if members.contains_key(key) {
                Some(members[key])
            } else {
                None
            },
            _ => None,
        }
    }

    /// The items of an array, in their order.
    pub open spec fn items(self) -> Option<Seq<JsonValue>> {
        match self {
            JsonValue::Array(items) => Some(items),
            _ => None,
        }
    }

    /// The characters of a string.
    pub open spec fn text(self) -> Option<Seq<char>> {
        match self {
            JsonValue::Text(chars) => Some(chars),
            _ => None,
        }
    }

    /// The value of a number that is a non-negative 64-bit integer.
    pub open spec fn unsigned(self) -> Option<u64> {
        match self {
            JsonValue::Number(JsonNumber::Unsigned(n)) => Some(n),
            _ => None,
        }
    }
}

/// `serde_json::Value`, a parsed document. Verus sees nothing inside it.
#[verifier::external_type_specification]
#[verifier::external_body]
pub struct ExValue(Value);

/// `serde_json::Error`, why a text was refused. It is only passed on.
#[verifier::external_type_specification]
#[verifier::external_body]
pub struct ExJsonError(serde_json::Error);

/// The content of a document that `serde_json` holds: what `Value::get`,
/// `Value::as_array`, `Value::as_str` and `Value::as_u64` show of it.
pub uninterp spec fn content(value: Value) -> JsonValue;

/// The content of the document that `serde_json::from_slice` reads from
/// `bytes`, or `None` where it reports an error.
pub uninterp spec fn parsed(bytes: Seq<u8>) -> Option<JsonValue>;

/// The contents of a list of documents, item by item.
pub open spec fn contents(values: Seq<Value>) -> Seq<JsonValue> {
    values.map_values(|value: Value| content(value))
}

/// `serde_json::from_slice`, read as a `Value`. Parsing is a function of the
/// bytes alone: the same bytes give the same document or the same refusal.
/// Nothing is said here of which bytes are JSON.
#[verifier::external_body]
pub(crate) fn parse(bytes: &[u8]) -> (document: Result<Value, serde_json::Error>)
    ensures
        match document {
            Ok(value) => parsed(bytes@) == Some(content(value)),
            Err(_) => parsed(bytes@) is None,
        },
{
    serde_json::from_slice::<Value>(bytes)
}

/// `Value::get` with a string key: the member of an object under that key,
/// and nothing where the value is no object or has no such member.
#[verifier::external_body]
pub(crate) fn member<'a>(value: &'a Value, key: &str) -> (found: Option<&'a Value>)
    ensures
        match found {
            Some(inner) => content(*value).member(key@) == Some(content(*inner)),
            None => content(*value).member(key@) is None,
        },
{
    value.get(key)
}

/// `Value::as_array`: the items of an array in their order, and nothing for
/// any other kind of value.
pub assume_specification<'a>[ Value::as_array ](value: &'a Value) -> (items: Option<&'a Vec<Value>>)
    ensures
        match items {
            Some(list) => content(*value).items() == Some(contents(list@)),
            None => content(*value).items() is None,
        },
;

/// `Value::as_str`: the characters of a string, and nothing for any other
/// kind of value.
pub assume_specification<'a>[ Value::as_str ](value: &'a Value) -> (text: Option<&'a str>)
    ensures
        match text {
            Some(chars) => content(*value).text() == Some(chars@),
            None => content(*value).text() is None,
        },
;

/// `Value::as_u64`: the value of a number that is a non-negative integer
/// below 2^64, and nothing for any other number or kind of value.
pub assume_specification[ Value::as_u64 ](value: &Value) -> (number: Option<u64>)
    ensures
        number == content(*value).unsigned(),
;

} // verus!
