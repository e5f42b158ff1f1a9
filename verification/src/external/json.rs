//! JSON values.

use serde_json::Value;
use vstd::prelude::*;

verus! {

/// A JSON value.
#[verifier::external_type_specification]
#[verifier::external_body]
pub struct ExValue(serde_json::Value);

/// The error for a text that is not JSON of the expected shape.
#[verifier::external_type_specification]
#[verifier::external_body]
pub struct ExJsonError(serde_json::Error);

/// The text that describes a JSON error.
pub uninterp spec fn json_error_text(error: serde_json::Error) -> Seq<char>;

/// Calls `to_string` of `serde_json::Error`: its description, a function of the
/// error.
#[verifier::external_body]
pub(crate) fn describe_json_error(error: &serde_json::Error) -> (text: String)
    ensures
        text@ == json_error_text(*error),
{
    error.to_string()
}

/// Whether a JSON value is an object.
pub uninterp spec fn json_is_object(value: Value) -> bool;

/// Calls `Value::is_object`: a function of the value.
#[verifier::external_body]
pub(crate) fn is_object(value: &Value) -> (object: bool)
    ensures
        object == json_is_object(*value),
{
    value.is_object()
}

/// The member `name` of a JSON object; nothing for any other value.
pub uninterp spec fn json_member(value: Value, name: Seq<char>) -> Option<Value>;

/// Calls `Value::get` with a text: the member of that name, a function of the
/// value and the name. Only an object has members.
#[verifier::external_body]
pub(crate) fn get_member<'a>(value: &'a Value, name: &str) -> (member: Option<&'a Value>)
    ensures
        member is Some <==> json_member(*value, name@) is Some,
        member matches Some(found) ==> json_member(*value, name@) == Some(*found)
            && json_is_object(*value),
{
    value.get(name)
}

/// The text that a JSON string holds; nothing for any other value.
pub uninterp spec fn json_string(value: Value) -> Option<Seq<char>>;

/// Calls `Value::as_str`: the text of a JSON string, a function of the value.
#[verifier::external_body]
pub(crate) fn get_string<'a>(value: &'a Value) -> (text: Option<&'a str>)
    ensures
        text is Some <==> json_string(*value) is Some,
        text matches Some(found) ==> json_string(*value) == Some(found@),
{
    value.as_str()
}

/// The number that a JSON number is, where it is whole, not negative and fits in
/// 64 bits; nothing for any other value.
pub uninterp spec fn json_number(value: Value) -> Option<u64>;

/// Calls `Value::as_u64`: a function of the value.
#[verifier::external_body]
pub(crate) fn get_number(value: &Value) -> (number: Option<u64>)
    ensures
        number == json_number(*value),
{
    value.as_u64()
}

/// The items of a JSON list, in order; nothing for any other value.
pub uninterp spec fn json_items(value: Value) -> Option<Seq<Value>>;

/// Calls `Value::as_array`: the items, a function of the value.
#[verifier::external_body]
pub(crate) fn get_items<'a>(value: &'a Value) -> (items: Option<&'a Vec<Value>>)
    ensures
        items is Some <==> json_items(*value) is Some,
        items matches Some(found) ==> json_items(*value) == Some(found@),
{
    value.as_array()
}

} // verus!
