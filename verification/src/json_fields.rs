//! Reading fields of one JSON log line through `serde_json`.
//!
//! Each reader parses the line with `serde_json::from_str` into a
//! `serde_json::Value` and looks up one field; what it returns is named by an
//! uninterpreted function of the line and the keys, since the JSON grammar is
//! `serde_json`'s and not restated here.
use vstd::prelude::*;

verus! {

/// Whether `text` parses as JSON whose top-level object has the field `key`.
pub uninterp spec fn json_has_field(text: Seq<char>, key: Seq<char>) -> bool;

/// The top-level field `key` of the JSON in `text`, when it is a non-negative integer that fits in `u64`.
pub uninterp spec fn json_u64_field(text: Seq<char>, key: Seq<char>) -> Option<u64>;

/// The top-level field `key` of the JSON in `text`, when it is a string.
pub uninterp spec fn json_str_field(text: Seq<char>, key: Seq<char>) -> Option<Seq<char>>;

/// The field `key` of the object under the top-level field `outer`, when it is a string.
pub uninterp spec fn json_nested_str_field(text: Seq<char>, outer: Seq<char>, key: Seq<char>) -> Option<Seq<char>>;

/// The field `key` of the object under the top-level field `outer`, when it is an integer in `u64`.
pub uninterp spec fn json_nested_u64_field(text: Seq<char>, outer: Seq<char>, key: Seq<char>) -> Option<u64>;

/// The field `key` of the object under the top-level field `outer`, when it is a boolean.
pub uninterp spec fn json_nested_bool_field(text: Seq<char>, outer: Seq<char>, key: Seq<char>) -> Option<bool>;

/// `serde_json::from_str::<Value>` followed by `Value::get(key).is_some()`:
/// claimed to depend on the text and the key alone.
#[verifier::external_body]
pub(crate) fn json_has(text: &str, key: &str) -> (r: bool)
    ensures
        r == json_has_field(text@, key@),
{
    match serde_json::from_str::<serde_json::Value>(text) {
        Ok(v) => v.get(key).is_some(),
        Err(_) => false,
    }
}

/// `serde_json::from_str::<Value>`, `Value::get(key)` and `Value::as_u64`:
/// claimed to depend on the text and the key alone.
#[verifier::external_body]
pub(crate) fn json_u64(text: &str, key: &str) -> (r: Option<u64>)
    ensures
        r == json_u64_field(text@, key@),
{
    let v: serde_json::Value = serde_json::from_str(text).ok()?;
    v.get(key)?.as_u64()
}

/// `serde_json::from_str::<Value>`, `Value::get(key)` and `Value::as_str`, copied into a `String`:
/// claimed to depend on the text and the key alone.
#[verifier::external_body]
pub(crate) fn json_str(text: &str, key: &str) -> (r: Option<String>)
    ensures
        r.deep_view() == json_str_field(text@, key@),
{
    let v: serde_json::Value = serde_json::from_str(text).ok()?;
    Some(v.get(key)?.as_str()?.to_string())
}

/// `serde_json::from_str::<Value>`, `Value::get(outer)`, `Value::get(key)` and `Value::as_str`:
/// claimed to depend on the text and the keys alone (`get` with a string finds nothing in a non-object).
#[verifier::external_body]
pub(crate) fn json_nested_str(text: &str, outer: &str, key: &str) -> (r: Option<String>)
    ensures
        r.deep_view() == json_nested_str_field(text@, outer@, key@),
{
    let v: serde_json::Value = serde_json::from_str(text).ok()?;
    Some(v.get(outer)?.get(key)?.as_str()?.to_string())
}

/// `serde_json::from_str::<Value>`, `Value::get(outer)`, `Value::get(key)` and `Value::as_u64`:
/// claimed to depend on the text and the keys alone.
#[verifier::external_body]
pub(crate) fn json_nested_u64(text: &str, outer: &str, key: &str) -> (r: Option<u64>)
    ensures
        r == json_nested_u64_field(text@, outer@, key@),
{
    let v: serde_json::Value = serde_json::from_str(text).ok()?;
    v.get(outer)?.get(key)?.as_u64()
}

/// `serde_json::from_str::<Value>`, `Value::get(outer)`, `Value::get(key)` and `Value::as_bool`:
/// claimed to depend on the text and the keys alone.
#[verifier::external_body]
pub(crate) fn json_nested_bool(text: &str, outer: &str, key: &str) -> (r: Option<bool>)
    ensures
        r == json_nested_bool_field(text@, outer@, key@),
{
    let v: serde_json::Value = serde_json::from_str(text).ok()?;
    v.get(outer)?.get(key)?.as_bool()
}

} // verus!
