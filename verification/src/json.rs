//! Reading JSON documents. A document is parsed by `serde_json`, and its
//! value is looked into through the accessors that `serde_json` offers. The
//! verifier sees nothing inside such a value: what the accessors return is
//! named here, and the rest of the library is stated over those names.

use crate::scan::option_view;
use vstd::prelude::*;

verus! {

/// `serde_json::Value`, a JSON value of any kind, as a type whose inside is
/// not looked into.
#[verifier::external_type_specification]
#[verifier::external_body]
pub struct ExValue(serde_json::Value);

/// `serde_json::Error`, the reason why a text is no JSON document, as a
/// type whose inside is not looked into.
#[verifier::external_type_specification]
#[verifier::external_body]
pub struct ExError(serde_json::Error);

/// The value that the JSON document `text` denotes, where `text` is one.
pub uninterp spec fn json_document(text: Seq<char>) -> Option<serde_json::Value>;

/// The member of `value` under `key`, where `value` is an object that has
/// such a member.
pub uninterp spec fn json_member(value: serde_json::Value, key: Seq<char>) -> Option<
    serde_json::Value,
>;

/// The characters of `value`, where `value` is a string.
pub uninterp spec fn json_text(value: serde_json::Value) -> Option<Seq<char>>;

/// The number `value`, where `value` is an integer from 0 to 2^64 - 1.
pub uninterp spec fn json_number(value: serde_json::Value) -> Option<u64>;

/// The elements of `value`, where `value` is an array.
pub uninterp spec fn json_items(value: serde_json::Value) -> Option<Seq<serde_json::Value>>;

/// `serde_json::from_str`, asked for a `Value`: the value that the whole of
/// `text` denotes, or an error where `text` is no JSON document. The
/// contract names the value and claims that it depends on `text` alone.
#[verifier::external_body]
pub(crate) fn parse(text: &str) -> (r: Result<serde_json::Value, serde_json::Error>)
    ensures
        match r {
            Ok(value) => json_document(text@) == Some(value),
            Err(_) => json_document(text@) is None,
        },
{
    serde_json::from_str(text)
}

/// `serde_json::Value::get` with a string index: the member under `key` of
/// an object, and nothing for a missing key or a value that is no object.
/// The contract names the member.
#[verifier::external_body]
pub(crate) fn member<'a>(value: &'a serde_json::Value, key: &str) -> (r: Option<
    &'a serde_json::Value,
>)
    ensures
        match r {
            Some(found) => json_member(*value, key@) == Some(*found),
            None => json_member(*value, key@) is None,
        },
{
    value.get(key)
}

/// `serde_json::Value::as_str`: the characters of a string, and nothing for
/// any other value. The contract names the characters.
pub assume_specification<'a>[ serde_json::Value::as_str ](value: &'a serde_json::Value) -> (r:
    Option<&'a str>)
    ensures
        match r {
            Some(s) => json_text(*value) == Some(s@),
            None => json_text(*value) is None,
        },
;

/// `serde_json::Value::as_u64`: the number, for an integer that fits in 64
/// bits without a sign, and nothing for any other value. The contract names
/// the number.
pub assume_specification[ serde_json::Value::as_u64 ](value: &serde_json::Value) -> (r: Option<
    u64,
>)
    ensures
        r == json_number(*value),
;

/// `serde_json::Value::as_array`: the elements of an array, and nothing for
/// any other value. The contract names the elements.
pub assume_specification<'a>[ serde_json::Value::as_array ](value: &'a serde_json::Value) -> (r:
    Option<&'a Vec<serde_json::Value>>)
    ensures
        match r {
            Some(items) => json_items(*value) == Some(items@),
            None => json_items(*value) is None,
        },
;

/// The string under `key` in the object `value`.
pub open spec fn member_text(value: serde_json::Value, key: Seq<char>) -> Option<Seq<char>> {
    match json_member(value, key) {
        Some(found) => json_text(found),
        None => None,
    }
}

/// The number under `key` in the object `value`.
pub open spec fn member_number(value: serde_json::Value, key: Seq<char>) -> Option<u64> {
    match json_member(value, key) {
        Some(found) => json_number(found),
        None => None,
    }
}

/// The string under `inner` in the object under `outer` in `value`.
pub open spec fn nested_text(value: serde_json::Value, outer: Seq<char>, inner: Seq<char>) -> Option<
    Seq<char>,
> {
    match json_member(value, outer) {
        Some(found) => member_text(found, inner),
        None => None,
    }
}

/// The number under `inner` in the object under `outer` in `value`.
pub open spec fn nested_number(
    value: serde_json::Value,
    outer: Seq<char>,
    inner: Seq<char>,
) -> Option<u64> {
    match json_member(value, outer) {
        Some(found) => member_number(found, inner),
        None => None,
    }
}

/// The string under `key` in the object `value`.
pub(crate) fn text_of(value: &serde_json::Value, key: &str) -> (r: Option<String>)
    ensures
        option_view(r) == member_text(*value, key@),
{
    match member(value, key) {
        Some(found) => match found.as_str() {
            Some(s) => Some(String::from_str(s)),
            None => None,
        },
        None => None,
    }
}

/// The number under `key` in the object `value`.
pub(crate) fn number_of(value: &serde_json::Value, key: &str) -> (r: Option<u64>)
    ensures
        r == member_number(*value, key@),
{
    match member(value, key) {
        Some(found) => found.as_u64(),
        None => None,
    }
}

/// The string under `inner` in the object under `outer` in `value`.
pub(crate) fn text_in(value: &serde_json::Value, outer: &str, inner: &str) -> (r: Option<String>)
    ensures
        option_view(r) == nested_text(*value, outer@, inner@),
{
    match member(value, outer) {
        Some(found) => text_of(found, inner),
        None => None,
    }
}

/// The number under `inner` in the object under `outer` in `value`.
pub(crate) fn number_in(value: &serde_json::Value, outer: &str, inner: &str) -> (r: Option<u64>)
    ensures
        r == nested_number(*value, outer@, inner@),
{
    match member(value, outer) {
        Some(found) => number_of(found, inner),
        None => None,
    }
}

} // verus!
