//! JSON values, which `serde_json` parses, builds and writes. None of that is verified here:
//! this file states what the rest of the library relies on.
//!
//! A `serde_json::Value` is opaque to the verifier. What can be read from one is named by the
//! functions below, one for each way of reading it.

use serde::de::Error;
use vstd::prelude::*;

verus! {

/// `serde_json::Value`: a JSON value, carried through as it is.
#[verifier::external_type_specification]
#[verifier::external_body]
pub struct ExJsonValue(serde_json::Value);

/// `serde_json::Error`: why `serde_json` could not read or write a value.
#[verifier::external_type_specification]
#[verifier::external_body]
pub struct ExJsonError(serde_json::Error);

/// The value that `serde_json::from_slice` reads from `bytes`, if it reads one.
pub uninterp spec fn json_parsed(bytes: Seq<u8>) -> Option<serde_json::Value>;

/// The bytes that `serde_json::to_vec` writes for `value`, if it writes any.
pub uninterp spec fn json_encoded(value: serde_json::Value) -> Option<Seq<u8>>;

/// What indexing `value` by `name` gives: the member of that name where `value` is an object
/// that has one, and `null` else.
pub uninterp spec fn json_member(value: serde_json::Value, name: Seq<char>) -> serde_json::Value;

/// The text of `value`, where it is a string.
pub uninterp spec fn json_text(value: serde_json::Value) -> Option<Seq<char>>;

/// The number in `value`, where it is an integer that fits in 64 bits with a sign.
pub uninterp spec fn json_int(value: serde_json::Value) -> Option<i64>;

/// The truth value in `value`, where it is a boolean.
pub uninterp spec fn json_flag(value: serde_json::Value) -> Option<bool>;

/// Whether `value` is `null`.
pub uninterp spec fn json_is_null(value: serde_json::Value) -> bool;

/// Whether `value` is an object.
pub uninterp spec fn json_is_object(value: serde_json::Value) -> bool;

/// Whether `value` is an object with a member of that name.
pub uninterp spec fn json_has_member(value: serde_json::Value, name: Seq<char>) -> bool;

/// Calls `serde_json::from_slice` for a `Value`. The contract only names the result: the
/// value read is a function of the bytes.
#[verifier::external_body]
pub(crate) fn json_from_slice(bytes: &[u8]) -> (r: Result<serde_json::Value, serde_json::Error>)
    ensures
        match r {
            Ok(value) => json_parsed(bytes@) == Some(value),
            Err(_) => json_parsed(bytes@).is_none(),
        },
{
    serde_json::from_slice::<serde_json::Value>(bytes)
}

/// Calls `serde_json::to_vec`. The contract only names the result: the bytes written are a
/// function of the value.
#[verifier::external_body]
pub(crate) fn json_to_vec(value: &serde_json::Value) -> (r: Result<Vec<u8>, serde_json::Error>)
    ensures
        match r {
            Ok(bytes) => json_encoded(*value) == Some(bytes@),
            Err(_) => json_encoded(*value).is_none(),
        },
{
    serde_json::to_vec(value)
}

/// Indexes a value by a name, as `value[name]` does. For a shared reference that never
/// panics: where there is no such member it gives `null`.
#[verifier::external_body]
pub(crate) fn json_index<'a>(value: &'a serde_json::Value, name: &str) -> (member:
    &'a serde_json::Value)
    ensures
        *member == json_member(*value, name@),
{
    &value[name]
}

/// Calls `Value::get` with a name, and says whether it found a member.
#[verifier::external_body]
pub(crate) fn json_has(value: &serde_json::Value, name: &str) -> (r: bool)
    ensures
        r == json_has_member(*value, name@),
{
    value.get(name).is_some()
}

/// Calls `Value::as_str`.
#[verifier::external_body]
pub(crate) fn json_as_str<'a>(value: &'a serde_json::Value) -> (r: Option<&'a str>)
    ensures
        match r {
            Some(s) => json_text(*value) == Some(s@),
            None => json_text(*value).is_none(),
        },
{
    value.as_str()
}

/// Calls `Value::as_i64`.
#[verifier::external_body]
pub(crate) fn json_as_i64(value: &serde_json::Value) -> (r: Option<i64>)
    ensures
        r == json_int(*value),
{
    value.as_i64()
}

/// Calls `Value::as_bool`.
#[verifier::external_body]
pub(crate) fn json_as_bool(value: &serde_json::Value) -> (r: Option<bool>)
    ensures
        r == json_flag(*value),
{
    value.as_bool()
}

/// Calls `Value::is_null`.
#[verifier::external_body]
pub(crate) fn json_null_check(value: &serde_json::Value) -> (r: bool)
    ensures
        r == json_is_null(*value),
{
    value.is_null()
}

/// `Value::clone`: the clone is the same value.
pub assume_specification[ <serde_json::Value as Clone>::clone ](
    value: &serde_json::Value,
) -> (copy: serde_json::Value)
    ensures
        copy == *value,
;

/// Makes an error of `serde_json` that carries `message`, with `custom` of serde's trait for
/// the errors of a deserializer. Nothing is claimed of it.
#[verifier::external_body]
pub(crate) fn json_error(message: &str) -> serde_json::Error {
    serde_json::Error::custom(message)
}

/// What an error of `serde_json` says of itself, by its `Display`. Nothing is claimed of
/// the text.
#[verifier::external_body]
pub(crate) fn json_error_text(error: &serde_json::Error) -> String {
    format!("{}", error)
}

/// The value `null`.
#[verifier::external_body]
pub(crate) fn json_null() -> (value: serde_json::Value)
    ensures
        json_is_null(value),
{
    serde_json::Value::Null
}

/// `Value::from` for a number: `as_i64` reads the number back.
#[verifier::external_body]
pub(crate) fn json_from_i64(n: i64) -> (value: serde_json::Value)
    ensures
        json_int(value) == Some(n),
{
    serde_json::Value::from(n)
}

/// `Value::from` for a text: `as_str` reads the text back.
#[verifier::external_body]
pub(crate) fn json_from_str(s: &str) -> (value: serde_json::Value)
    ensures
        json_text(value) == Some(s@),
{
    serde_json::Value::from(s)
}

/// `Value::from` for a boolean: `as_bool` reads it back.
#[verifier::external_body]
pub(crate) fn json_from_bool(b: bool) -> (value: serde_json::Value)
    ensures
        json_flag(value) == Some(b),
{
    serde_json::Value::from(b)
}

/// Sets a member, as `object[name] = member` does. That panics unless the value is an object
/// or `null`, which it takes for an empty object. Afterwards the value is an object that has
/// a member of that name, indexing it by `name` gives `member`, and every other member is as
/// it was.
#[verifier::external_body]
pub(crate) fn json_set(object: &mut serde_json::Value, name: &str, member: serde_json::Value)
    requires
        json_is_null(*old(object)) || json_is_object(*old(object)),
    ensures
        json_is_object(*final(object)),
        json_has_member(*final(object), name@),
        json_member(*final(object), name@) == member,
        forall|other: Seq<char>|
            other != name@ ==> #[trigger] json_member(*final(object), other) == json_member(
                *old(object),
                other,
            ),
        forall|other: Seq<char>|
            #[trigger] json_has_member(*old(object), other) ==> json_has_member(
                *final(object),
                other,
            ),
{
    object[name] = member;
}

} // verus!
