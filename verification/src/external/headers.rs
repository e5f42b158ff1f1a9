//! HTTP headers.

use crate::text::ascii_lower_text;
use axum::http::header::ToStrError;
use axum::http::{HeaderMap, HeaderValue};
use vstd::prelude::*;

verus! {

/// The headers of a request.
#[verifier::external_type_specification]
#[verifier::external_body]
#[verifier::reject_recursive_types(T)]
pub struct ExHeaderMap<T>(axum::http::HeaderMap<T>);

/// The value of one header.
#[verifier::external_type_specification]
#[verifier::external_body]
pub struct ExHeaderValue(axum::http::HeaderValue);

/// The error for a header value that is not visible ASCII.
#[verifier::external_type_specification]
#[verifier::external_body]
pub struct ExToStrError(axum::http::header::ToStrError);

/// What a header map holds: for each header name, in lower case, the values
/// that were given for it, in order.
pub uninterp spec fn header_fields(headers: HeaderMap<HeaderValue>) -> Map<
    Seq<char>,
    Seq<Seq<u8>>,
>;

/// The bytes of a header value.
pub uninterp spec fn header_bytes(value: HeaderValue) -> Seq<u8>;

/// The first of the values that `fields` hold for `name`. Names are compared
/// without regard to case.
pub open spec fn first_value(fields: Map<Seq<char>, Seq<Seq<u8>>>, name: Seq<char>) -> Option<
    Seq<u8>,
> {
    let key = ascii_lower_text(name);
    if fields.contains_key(key) {
        Some(fields[key][0])
    } else {
        None
    }
}

/// Calls `HeaderMap::get` with a text as the name: the first of the values held
/// for that name, whatever its case, or nothing where there is none.
#[verifier::external_body]
pub(crate) fn get_header<'a>(headers: &'a HeaderMap<HeaderValue>, name: &str) -> (value: Option<
    &'a HeaderValue,
>)
    ensures
        value is Some <==> first_value(header_fields(*headers), name@) is Some,
        value matches Some(found) ==> first_value(header_fields(*headers), name@) == Some(
            header_bytes(*found),
        ),
{
    headers.get(name)
}

/// Whether all of `bytes` are visible ASCII characters, spaces or tabs.
pub open spec fn is_visible_ascii(bytes: Seq<u8>) -> bool {
    forall|i: int| 0 <= i < bytes.len() ==> 32 <= #[trigger] bytes[i] < 127 || bytes[i] == 9
}

/// The ASCII text that `bytes` spell.
pub open spec fn ascii_text(bytes: Seq<u8>) -> Seq<char> {
    bytes.map_values(|b: u8| b as char)
}

/// Calls `HeaderValue::to_str`: the value as text where all of it is visible
/// ASCII, and an error otherwise.
#[verifier::external_body]
pub(crate) fn header_str<'a>(value: &'a HeaderValue) -> (text: Result<&'a str, ToStrError>)
    ensures
        text is Ok <==> is_visible_ascii(header_bytes(*value)),
        text matches Ok(found) ==> found@ == ascii_text(header_bytes(*value)),
{
    value.to_str()
}

} // verus!
