//! The calls into `serde_json` that the crate makes, each behind a contract.
//!
//! A parsed document is opaque to the verifier. What the calls return is named by the
//! uninterpreted functions below: each depends on its arguments alone, so the same text
//! always decodes to the same values. Nothing else is assumed about JSON.

use vstd::prelude::*;
use vstd::string::*;

verus! {

/// Trusted: the type `serde_json::Value`, a parsed JSON document. Opaque to the verifier:
/// it is only handed from one `serde_json` call to the next.
#[verifier::external_type_specification]
#[verifier::external_body]
pub struct ExJsonValue(serde_json::Value);

/// What `serde_json::from_str::<Value>` makes of a text: the parsed document, or `None`
/// where the text is not one JSON value.
pub uninterp spec fn json_parse(text: Seq<char>) -> Option<serde_json::Value>;

/// What `Value::get` with a string index finds: the member under `key` where the value
/// is an object that has one, else `None`.
pub uninterp spec fn json_member(value: serde_json::Value, key: Seq<char>) -> Option<
    serde_json::Value,
>;

/// What `Value::as_str` gives: the characters of a JSON string, `None` for any other value.
pub uninterp spec fn json_text(value: serde_json::Value) -> Option<Seq<char>>;

/// What `Value::as_u64` gives: the number where the value is an integer that fits `u64`,
/// else `None`.
pub uninterp spec fn json_u64(value: serde_json::Value) -> Option<u64>;

/// Trusted: calls `serde_json::from_str::<serde_json::Value>`. The result depends on the
/// text alone; a parse error is reported as `None`.
#[verifier::external_body]
pub(crate) fn parse_value(text: &str) -> (r: Option<serde_json::Value>)
    ensures
        r == json_parse(text@),
{
    serde_json::from_str::<serde_json::Value>(text).ok()
}

/// Trusted: calls `serde_json::Value::get` with a string index. The result depends on the
/// value and the key alone.
#[verifier::external_body]
pub(crate) fn member<'a>(value: &'a serde_json::Value, key: &str) -> (r: Option<&'a serde_json::Value>)
    ensures
        match r {
            Some(m) => json_member(*value, key@) == Some(*m),
            None => json_member(*value, key@) is None,
        },
{
    value.get(key)
}

/// Trusted: calls `serde_json::Value::as_str` and copies the characters it gives.
#[verifier::external_body]
pub(crate) fn text_of(value: &serde_json::Value) -> (r: Option<String>)
    ensures
        r.deep_view() == json_text(*value),
{
    value.as_str().map(|s| s.to_string())
}

/// Trusted: calls `serde_json::Value::as_u64`.
#[verifier::external_body]
pub(crate) fn unsigned_of(value: &serde_json::Value) -> (r: Option<u64>)
    ensures
        r == json_u64(*value),
{
    value.as_u64()
}

/// A member of a JSON object: its name and its value.
pub type Entry = (Seq<char>, serde_json::Value);

/// What iterating `Value::as_object` gives: for an object, its members in the order the
/// map yields them; `None` for any other value.
pub uninterp spec fn json_entries(value: serde_json::Value) -> Option<Seq<Entry>>;

/// The members as the verifier sees them.
pub open spec fn entries_view(entries: Seq<(String, serde_json::Value)>) -> Seq<Entry> {
    entries.map_values(|e: (String, serde_json::Value)| (e.0@, e.1))
}

/// Trusted: calls `serde_json::Value::as_object` and copies out the members that
/// `Map::iter` yields, in its order.
#[verifier::external_body]
pub(crate) fn entries_of(value: &serde_json::Value) -> (r: Option<
    Vec<(String, serde_json::Value)>,
>)
    ensures
        match r {
            Some(entries) => json_entries(*value) == Some(entries_view(entries@)),
            None => json_entries(*value) is None,
        },
{
    value.as_object().map(|m| m.iter().map(|(k, v)| (k.clone(), v.clone())).collect())
}

/// What `Value::is_object` answers: whether the value is a JSON object.
pub uninterp spec fn json_is_object(value: serde_json::Value) -> bool;

/// Trusted: calls `serde_json::Value::is_object`.
#[verifier::external_body]
pub(crate) fn is_object(value: &serde_json::Value) -> (r: bool)
    ensures
        r == json_is_object(*value),
{
    value.is_object()
}

/// What `Value::as_array` gives: the elements of a JSON array in order, `None` for any
/// other value.
pub uninterp spec fn json_elements(value: serde_json::Value) -> Option<Seq<serde_json::Value>>;

/// Trusted: calls `serde_json::Value::as_array` and copies the elements it gives.
#[verifier::external_body]
pub(crate) fn elements_of(value: &serde_json::Value) -> (r: Option<Vec<serde_json::Value>>)
    ensures
        match r {
            Some(elements) => json_elements(*value) == Some(elements@),
            None => json_elements(*value) is None,
        },
{
    value.as_array().cloned()
}

/// The JSON string under `key`, if `value` has one.
pub open spec fn text_member(value: serde_json::Value, key: Seq<char>) -> Option<Seq<char>> {
    match json_member(value, key) {
        Some(m) => json_text(m),
        None => None,
    }
}

/// The unsigned integer under `key`, if `value` has one.
pub open spec fn unsigned_member(value: serde_json::Value, key: Seq<char>) -> Option<u64> {
    match json_member(value, key) {
        Some(m) => json_u64(m),
        None => None,
    }
}

/// Reads the JSON string under `key`.
pub(crate) fn read_text(value: &serde_json::Value, key: &str) -> (r: Option<String>)
    ensures
        r.deep_view() == text_member(*value, key@),
{
    match member(value, key) {
        Some(m) => text_of(m),
        None => None,
    }
}

/// Reads the unsigned integer under `key`.
pub(crate) fn read_unsigned(value: &serde_json::Value, key: &str) -> (r: Option<u64>)
    ensures
        r == unsigned_member(*value, key@),
{
    match member(value, key) {
        Some(m) => unsigned_of(m),
        None => None,
    }
}

} // verus!
