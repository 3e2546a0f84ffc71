//! Reading JSON text, which is left to the `serde_json` crate.
//!
//! A parsed document is a value of that crate and stays closed to the
//! library: what parsing gives, and what is found inside a value, have
//! names here, so that contracts can say where a text came from.

use vstd::prelude::*;
use serde_json::Value;

verus! {

/// A parsed JSON value of `serde_json`.
#[verifier::external_type_specification]
#[verifier::external_body]
pub struct ExValue(serde_json::Value);

/// The error that `serde_json` gives for a text that it cannot read.
#[verifier::external_type_specification]
#[verifier::external_body]
pub struct ExError(serde_json::Error);

/// The value that `serde_json::from_str` reads from `text`, `None` where it
/// gives an error.
pub uninterp spec fn json_document(text: Seq<char>) -> Option<Value>;

/// What indexing `value` by the string `key` gives: the member of that name
/// where `value` is an object that has one, else the null value.
pub uninterp spec fn json_member(value: Value, key: Seq<char>) -> Value;

/// The text of `value` where it is a string, as `Value::as_str` gives it,
/// else `None`.
pub uninterp spec fn json_text(value: Value) -> Option<Seq<char>>;

/// Calls `serde_json::from_str` to read `text` as one JSON value. Trusted:
/// it gives the value that `json_document` names, and an error exactly
/// where that is `None`.
#[verifier::external_body]
pub(crate) fn parse(text: &str) -> (parsed: Result<Value, serde_json::Error>)
    ensures
        match parsed {
            Ok(value) => json_document(text@) == Some(value),
            Err(_) => json_document(text@) is None,
        },
{
    serde_json::from_str::<Value>(text)
}

/// Indexes `value` by `key`, which calls `serde_json`'s `Index` impl of
/// `Value` for strings. That impl does not panic on a missing member or on
/// a value that is no object: it gives the null value. Trusted: the result
/// is the one that `json_member` names.
#[verifier::external_body]
pub(crate) fn member<'a>(value: &'a Value, key: &str) -> (found: &'a Value)
    ensures
        *found == json_member(*value, key@),
{
    &value[key]
}

/// Calls `serde_json::Value::as_str` and hands back a copy of the text.
/// Trusted: the result is the one that `json_text` names.
#[verifier::external_body]
pub(crate) fn text_of(value: &Value) -> (text: Option<String>)
    ensures
        text.deep_view() == json_text(*value),
{
    match value.as_str() {
        Some(text) => Some(text.to_owned()),
        None => None,
    }
}

} // verus!
