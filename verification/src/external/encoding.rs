//! Base64, form encoding and comparison in constant time.

use crate::base64url::{base64_decoded, base64_encoded};
use base64::engine::general_purpose::URL_SAFE_NO_PAD;
use base64::Engine;
use subtle::ConstantTimeEq;
use vstd::prelude::*;

verus! {

/// Calls `Engine::decode` of `URL_SAFE_NO_PAD`: the bytes that the text is the
/// Base64 form of, and nothing where it is that of none, be it for a foreign
/// character, for padding or for unused bits that are not zero. Why a text was
/// not accepted is not handed on.
#[verifier::external_body]
pub(crate) fn decode_base64(text: &str) -> (bytes: Option<Vec<u8>>)
    ensures
        bytes is None <==> base64_decoded(text@) is None,
        bytes matches Some(found) ==> base64_encoded(found@) == text@,
{
    URL_SAFE_NO_PAD.decode(text).ok()
}

/// Calls `Engine::encode` of `URL_SAFE_NO_PAD`: the Base64 form of the bytes.
#[verifier::external_body]
pub(crate) fn encode_base64(bytes: &[u8]) -> (text: String)
    ensures
        text@ == base64_encoded(bytes@),
{
    URL_SAFE_NO_PAD.encode(bytes)
}

/// The (name, value) pairs that a query string holds, decoded, in order.
pub uninterp spec fn form_pairs(query: Seq<char>) -> Seq<(Seq<char>, Seq<char>)>;

/// The texts of a list of pairs.
pub open spec fn pair_texts(pairs: Seq<(String, String)>) -> Seq<(Seq<char>, Seq<char>)> {
    pairs.map_values(|pair: (String, String)| (pair.0@, pair.1@))
}

/// Whether `text` is ASCII without the characters that form encoding gives a
/// meaning to.
pub open spec fn is_plain(text: Seq<char>) -> bool {
    forall|i: int|
        0 <= i < text.len() ==> #[trigger] text[i] < '\u{80}' && text[i] != '&' && text[i] != '='
            && text[i] != '%' && text[i] != '+'
}

/// Calls `form_urlencoded::parse` and collects the pairs. The result is a
/// function of the query. A query made of one plain name, `=` and one plain
/// value is that one pair, unchanged.
#[verifier::external_body]
pub(crate) fn parse_form(query: &str) -> (pairs: Vec<(String, String)>)
    ensures
        pair_texts(pairs@) == form_pairs(query@),
        forall|name: Seq<char>, value: Seq<char>|
            #![trigger name + seq!['='] + value]
            is_plain(name) && is_plain(value) && query@ == name + seq!['='] + value
                ==> pair_texts(pairs@) == seq![(name, value)],
{
    url::form_urlencoded::parse(query.as_bytes()).into_owned().collect()
}

/// Calls `ConstantTimeEq::ct_eq` on two byte slices: whether they are equal. Its
/// documentation adds that the time it takes does not depend on what slices of
/// the same length hold; that is not part of the contract.
#[verifier::external_body]
pub(crate) fn constant_time_eq(a: &[u8], b: &[u8]) -> (equal: bool)
    ensures
        equal == (a@ == b@),
{
    bool::from(a.ct_eq(b))
}

} // verus!
