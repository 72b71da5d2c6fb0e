//! What the core reads and writes in a JSON document: the top-level `id` and
//! `method`, and the text of a whole frame. Everything else passes through
//! unread.
//!
//! The documents are `serde_json` values. Each function here makes one call
//! into `serde_json`, and its contract is taken on trust: it names what the
//! call returns and states the few facts about it that the core relies on.

use serde_json::Value;
use vstd::prelude::*;

verus! {

/// The document that `serde_json::from_str` reads from `text`, if `text` is
/// JSON.
pub uninterp spec fn json_parse(text: Seq<char>) -> Option<Value>;

/// The compact text that `serde_json` writes for `value`.
pub uninterp spec fn json_text(value: Value) -> Seq<char>;

/// Whether `value` is a JSON object.
pub uninterp spec fn json_is_object(value: Value) -> bool;

/// What `value[key]` reads: the member `key` of an object, and `null` where
/// `value` is no object or has no such member.
pub uninterp spec fn json_member(value: Value, key: Seq<char>) -> Value;

/// The object `value` after `value[key] = member`.
pub uninterp spec fn json_with_member(value: Value, key: Seq<char>, member: Value) -> Value;

/// The JSON number that stands for `number`.
pub uninterp spec fn json_number(number: u32) -> Value;

/// The number that `value` holds, if it is an integer that is not negative.
pub uninterp spec fn json_as_u64(value: Value) -> Option<u64>;

/// The characters of `value`, if it is a JSON string.
pub uninterp spec fn json_as_str(value: Value) -> Option<Seq<char>>;

/// `serde_json::from_str::<Value>`: reads a document from `text`. The
/// outcome depends on `text` alone; an error becomes `None`.
#[verifier::external_body]
pub(crate) fn parse(text: &str) -> (value: Option<Value>)
    ensures
        value == json_parse(text@),
{
    serde_json::from_str::<Value>(text).ok()
}

/// `Value::to_string`: the compact text of `value`.
#[verifier::external_body]
pub(crate) fn render(value: &Value) -> (text: String)
    ensures
        text@ == json_text(*value),
{
    value.to_string()
}

/// `Value::is_object`.
#[verifier::external_body]
pub(crate) fn is_object(value: &Value) -> (object: bool)
    ensures
        object == json_is_object(*value),
{
    value.is_object()
}

/// `value[key]`, the `Index<&str>` of `Value`. It never fails: where there
/// is nothing to read it yields `null`.
#[verifier::external_body]
pub(crate) fn member<'a>(value: &'a Value, key: &str) -> (found: &'a Value)
    ensures
        *found == json_member(*value, key@),
{
    &value[key]
}

/// `value[key] = member`, the `IndexMut<&str>` of `Value`, on an object.
/// The object then holds `member` under `key`, and under every other key
/// what it held before. (On a value that is neither an object nor `null` the
/// assignment panics; such values are kept out.)
#[verifier::external_body]
pub(crate) fn set_member(value: &mut Value, key: &str, member: Value)
    requires
        json_is_object(*old(value)),
    ensures
        *final(value) == json_with_member(*old(value), key@, member),
        json_is_object(*final(value)),
        json_member(*final(value), key@) == member,
        forall|other: Seq<char>|
            other != key@ ==> json_member(*final(value), other) == json_member(*old(value), other),
{
    value[key] = member;
}

/// `Value::from(u32)`: the JSON number for `id`. Read back as an unsigned
/// integer it is `id` again.
#[verifier::external_body]
pub(crate) fn number(id: u32) -> (value: Value)
    ensures
        value == json_number(id),
        json_as_u64(value) == Some(id as u64),
{
    Value::from(id)
}

/// `Value::Null`, the JSON `null`: no object, no number and no string.
#[verifier::external_body]
pub(crate) fn null() -> (value: Value)
    ensures
        !json_is_object(value),
        json_as_u64(value) is None,
        json_as_str(value) is None,
{
    Value::Null
}

/// `Value::as_u64`.
#[verifier::external_body]
pub(crate) fn as_u64(value: &Value) -> (number: Option<u64>)
    ensures
        number == json_as_u64(*value),
{
    value.as_u64()
}

/// `Value::as_str`.
#[verifier::external_body]
pub(crate) fn as_str<'a>(value: &'a Value) -> (text: Option<&'a str>)
    ensures
        match text {
            Some(text) => json_as_str(*value) == Some(text@),
            None => json_as_str(*value) is None,
        },
{
    value.as_str()
}

} // verus!
