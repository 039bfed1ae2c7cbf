//! Reading JSON documents, which is left to `serde_json`.
//!
//! A parsed document is a `serde_json::Value`, of which Verus sees nothing.
//! What such a value holds is modelled here by `Json`. Two names stand for
//! what is not stated: the document that `serde_json` reads from a text,
//! and the content of a value. Each wrapper calls one function of
//! `serde_json` and says, over the content, what the source of that
//! function shows. Nothing in this file is proved.

use crate::text::opt_text;
use crate::types::Timestamp;
use vstd::prelude::*;

verus! {

/// `serde_json::Value`: a parsed JSON document or a part of one.
#[verifier::external_type_specification]
#[verifier::external_body]
pub struct ExJsonValue(serde_json::Value);

/// What a JSON value holds.
pub enum Json {
    /// The value `null`.
    Null,
    /// A truth value.
    Bool(bool),
    /// A number: itself where it is an integer that fits 64 bits without
    /// a sign, and the bit pattern of the binary64 number that stands for
    /// it.
    Number { unsigned: Option<u64>, bits: u64 },
    /// A string.
    Text(Seq<char>),
    /// An array and its elements.
    Array(Seq<Json>),
    /// An object and its members by name.
    Object(Map<Seq<char>, Json>),
}

/// The document that `serde_json::from_str::<Value>` reads from `text`;
/// `None` where it reports an error.
pub uninterp spec fn json_of(text: Seq<char>) -> Option<Json>;

/// What `value` holds.
pub uninterp spec fn json_content(value: serde_json::Value) -> Json;

/// The instant that `str::parse::<chrono::DateTime<chrono::FixedOffset>>`
/// reads from `text`, if it reads one: the seconds since the Unix epoch as
/// `DateTime::timestamp` returns them, and the nanoseconds as
/// `DateTime::timestamp_subsec_nanos` does.
pub uninterp spec fn instant_of(text: Seq<char>) -> Option<Timestamp>;

/// What each of `values` holds, in order.
pub open spec fn contents(values: Seq<serde_json::Value>) -> Seq<Json> {
    Seq::new(values.len(), |i: int| json_content(values[i]))
}

impl Json {
    /// The member named `key`, if this is an object that has one.
    pub open spec fn member(self, key: Seq<char>) -> Option<Json> {
        match self {
            Json::Object(members) => if members.dom().contains(key) {
                Some(members[key])
            } else {
                None
            },
            _ => None,
        }
    }

    /// The elements, if this is an array.
    pub open spec fn items(self) -> Option<Seq<Json>> {
        match self {
            Json::Array(elements) => Some(elements),
            _ => None,
        }
    }

    /// The text, if this is a string.
    pub open spec fn text(self) -> Option<Seq<char>> {
        match self {
            Json::Text(t) => Some(t),
            _ => None,
        }
    }

    /// The number, if this is an integer that fits 64 bits without a sign.
    pub open spec fn unsigned(self) -> Option<u64> {
        match self {
            Json::Number { unsigned, .. } => unsigned,
            _ => None,
        }
    }

    /// The bit pattern of the number as a binary64, if this is a number.
    pub open spec fn number(self) -> Option<u64> {
        match self {
            Json::Number { bits, .. } => Some(bits),
            _ => None,
        }
    }
}

/// Calls `serde_json::from_str` for a `Value`. An error becomes `None`.
#[verifier::external_body]
pub(crate) fn parse(text: &str) -> (document: Option<serde_json::Value>)
    ensures
        match document {
            Some(value) => json_of(text@) == Some(json_content(value)),
            None => json_of(text@) is None,
        },
{
    match serde_json::from_str::<serde_json::Value>(text) {
        Ok(document) => Some(document),
        Err(_) => None,
    }
}

/// Calls `Value::is_object`, which tells whether the value is an object.
#[verifier::external_body]
pub(crate) fn is_object(value: &serde_json::Value) -> (yes: bool)
    ensures
        yes == json_content(*value) is Object,
{
    value.is_object()
}

/// Calls `Value::is_null`, which tells whether the value is null.
#[verifier::external_body]
pub(crate) fn is_null(value: &serde_json::Value) -> (yes: bool)
    ensures
        yes == json_content(*value) is Null,
{
    value.is_null()
}

/// Calls `Value::get` with a string key, which returns the member of that
/// name of an object, and nothing for any other value.
#[verifier::external_body]
pub(crate) fn member<'a>(value: &'a serde_json::Value, key: &str) -> (found: Option<
    &'a serde_json::Value,
>)
    ensures
        match found {
            Some(m) => json_content(*value).member(key@) == Some(json_content(*m)),
            None => json_content(*value).member(key@) is None,
        },
{
    value.get(key)
}

/// Calls `Value::as_array`, which returns the elements of an array, and
/// nothing for any other value.
#[verifier::external_body]
pub(crate) fn items(value: &serde_json::Value) -> (found: Option<&Vec<serde_json::Value>>)
    ensures
        match found {
            Some(list) => json_content(*value).items() == Some(contents(list@)),
            None => json_content(*value).items() is None,
        },
{
    value.as_array()
}

/// Calls `Value::as_str`, which returns the text of a string, and nothing
/// for any other value; the text is copied.
#[verifier::external_body]
pub(crate) fn string(value: &serde_json::Value) -> (found: Option<String>)
    ensures
        opt_text(found) == json_content(*value).text(),
{
    match value.as_str() {
        Some(text) => Some(String::from(text)),
        None => None,
    }
}

/// Calls `Value::as_u64`, which returns a number that is an integer and
/// fits 64 bits without a sign, and nothing for any other value.
#[verifier::external_body]
pub(crate) fn unsigned(value: &serde_json::Value) -> (found: Option<u64>)
    ensures
        found == json_content(*value).unsigned(),
{
    value.as_u64()
}

/// Calls `Value::as_f64`, which returns a number as a binary64, and
/// nothing for any other value; the bit pattern of the number is taken.
#[verifier::external_body]
pub(crate) fn number(value: &serde_json::Value) -> (found: Option<u64>)
    ensures
        found == json_content(*value).number(),
{
    match value.as_f64() {
        Some(x) => Some(x.to_bits()),
        None => None,
    }
}

/// Parses `text` as a `chrono::DateTime<chrono::FixedOffset>` and takes
/// its `timestamp` and `timestamp_subsec_nanos`. An error becomes `None`.
#[verifier::external_body]
pub(crate) fn instant(text: &str) -> (found: Option<Timestamp>)
    ensures
        found == instant_of(text@),
{
    match text.parse::<chrono::DateTime<chrono::FixedOffset>>() {
        Ok(t) => Some(Timestamp { secs: t.timestamp(), nanos: t.timestamp_subsec_nanos() }),
        Err(_) => None,
    }
}

} // verus!
