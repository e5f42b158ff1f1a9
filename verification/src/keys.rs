//! Where signing keys are found, and how they are read from what is found.

use crate::algorithm::{resolve_algorithm, resolved, Algorithm};
use crate::error::{joined, viewed, OidcError, OidcErrorView};
use crate::external::json::{describe_json_error, json_error_text};
use crate::external::jwt::{
    describe_jwt_error, ec_pem_key, find_jwk, first_with_id, jwk_decoding_key, jwk_key_algorithm,
    jwk_key_id, jwk_set_keys, jwt_error_text, parse_jwk, parse_jwk_set, parsed_jwk, parsed_jwk_set,
    rsa_pem_key,
};
use crate::text::{
    contains_text, is_white_space, occurs, occurs_at, replace_text, replaced, starts_with_text,
    trim_text, trimmed, trimmed_left, trimmed_right,
};
use jsonwebtoken::errors::Error;
use jsonwebtoken::jwk::{Jwk, JwkSet};
use jsonwebtoken::DecodingKey;
use vstd::prelude::*;
use vstd::string::StringExecFns;
use vstd::utf8::encode_utf8;

verus! {

// Location.

/// Where a signing key is fetched from.
#[derive(Debug, PartialEq, Eq)]
pub enum KeyLocation {
    /// A URL that answers with this one key.
    SingleKey(String),
    /// A URL that answers with a set of keys.
    KeySet(String),
}

/// A `KeyLocation` with its text as a sequence of characters.
pub enum KeyLocationView {
    SingleKey(Seq<char>),
    KeySet(Seq<char>),
}

impl View for KeyLocation {
    type V = KeyLocationView;

    open spec fn view(&self) -> KeyLocationView {
        match *self {
            KeyLocation::SingleKey(url) => KeyLocationView::SingleKey(url@),
            KeyLocation::KeySet(url) => KeyLocationView::KeySet(url@),
        }
    }
}

impl KeyLocationView {
    /// The URL to fetch.
    pub open spec fn url(self) -> Seq<char> {
        match self {
            KeyLocationView::SingleKey(url) => url,
            KeyLocationView::KeySet(url) => url,
        }
    }
}

impl KeyLocation {
    /// The URL to fetch.
    pub fn url(&self) -> (url: &str)
        ensures
            url@ == self@.url(),
    {
        match self {
            KeyLocation::SingleKey(url) => url,
            KeyLocation::KeySet(url) => url,
        }
    }
}

/// Where the key `kid` is found: with the placeholder `{kid}` in the
/// configured URL, under the URL with the identifier in its place; without, in
/// the set under the URL itself.
pub open spec fn location_of(jwks_url: Seq<char>, kid: Seq<char>) -> KeyLocationView {
    if occurs(jwks_url, "{kid}"@) {
        KeyLocationView::SingleKey(replaced(jwks_url, "{kid}"@, kid))
    } else {
        KeyLocationView::KeySet(jwks_url)
    }
}

/// Where the key `kid` is found.
pub fn key_location(jwks_url: &str, kid: &str) -> (location: KeyLocation)
    ensures
        location@ == location_of(jwks_url@, kid@),
{
    proof {
        reveal_strlit("{kid}");
    }
    if contains_text(jwks_url, "{kid}") {
        KeyLocation::SingleKey(replace_text(jwks_url, "{kid}", kid))
    } else {
        KeyLocation::KeySet(jwks_url.to_owned())
    }
}

// Reading keys.

/// A key, or the error of reading it after `label`.
pub open spec fn labelled(label: Seq<char>, key: Result<DecodingKey, Error>) -> Result<
    DecodingKey,
    OidcErrorView,
> {
    match key {
        Ok(found) => Ok(found),
        Err(error) => Err(OidcErrorView::KeyFetch(label + jwt_error_text(error))),
    }
}

/// A key, or the error of reading it after `label`.
pub fn label_key(label: &str, key: Result<DecodingKey, Error>) -> (result: Result<
    DecodingKey,
    OidcError,
>)
    ensures
        viewed(result) == labelled(label@, key),
{
    match key {
        Ok(found) => Ok(found),
        Err(error) => Err(OidcError::KeyFetch(joined(label, &describe_jwt_error(&error)))),
    }
}

/// The key that a parsed JSON Web Key describes.
pub open spec fn key_of_jwk(jwk: Result<Jwk, serde_json::Error>) -> Result<
    DecodingKey,
    OidcErrorView,
> {
    match jwk {
        Ok(found) => labelled("JWK decode: "@, jwk_decoding_key(found)),
        Err(error) => Err(OidcErrorView::KeyFetch("JWK parse: "@ + json_error_text(error))),
    }
}

/// The key that a parsed JSON Web Key describes.
pub fn key_from_jwk(jwk: Result<Jwk, serde_json::Error>) -> (result: Result<
    DecodingKey,
    OidcError,
>)
    ensures
        viewed(result) == key_of_jwk(jwk),
{
    match jwk {
        Ok(found) => label_key("JWK decode: ", DecodingKey::from_jwk(&found)),
        Err(error) => Err(
            OidcError::KeyFetch(joined("JWK parse: ", &describe_json_error(&error))),
        ),
    }
}

/// The key in the answer of a URL for one key: a PEM file, read as the kind of
/// key that `alg` uses, or else a JSON Web Key.
pub open spec fn single_key(body: Seq<char>, alg: Algorithm) -> Result<
    DecodingKey,
    OidcErrorView,
> {
    let text = trimmed(body);
    if occurs_at(text, "-----BEGIN"@, 0) {
        match alg {
            Algorithm::ES256 | Algorithm::ES384 => labelled(
                "EC PEM parse: "@,
                ec_pem_key(encode_utf8(text)),
            ),
            _ => labelled("RSA PEM parse: "@, rsa_pem_key(encode_utf8(text))),
        }
    } else {
        key_of_jwk(parsed_jwk(text))
    }
}

/// Reads the key in the answer of a URL for one key.
pub fn read_single_key(body: &str, alg: Algorithm) -> (result: Result<DecodingKey, OidcError>)
    ensures
        viewed(result) == single_key(body@, alg),
{
    let text = trim_text(body);
    if starts_with_text(text, "-----BEGIN") {
        match alg {
            Algorithm::ES256 | Algorithm::ES384 => label_key(
                "EC PEM parse: ",
                DecodingKey::from_ec_pem(text.as_bytes()),
            ),
            _ => label_key("RSA PEM parse: ", DecodingKey::from_rsa_pem(text.as_bytes())),
        }
    } else {
        key_from_jwk(parse_jwk(text))
    }
}

/// The key `kid` of a parsed key set, with its algorithm. The set is searched
/// first; then the algorithm and then the key is read.
pub open spec fn key_in_set(set: Result<JwkSet, serde_json::Error>, kid: Seq<char>) -> Result<
    (DecodingKey, Algorithm),
    OidcErrorView,
> {
    match set {
        Err(error) => Err(OidcErrorView::KeyFetch("JWKS parse: "@ + json_error_text(error))),
        Ok(found) => match first_with_id(jwk_set_keys(found), kid) {
            None => Err(OidcErrorView::KeyFetch("kid '"@ + kid + "' not found in JWKS"@)),
            Some(jwk) => match resolved(jwk_key_algorithm(jwk)) {
                Err(error) => Err(error),
                Ok(alg) => match labelled("JWK decode: "@, jwk_decoding_key(jwk)) {
                    Err(error) => Err(error),
                    Ok(key) => Ok((key, alg)),
                },
            },
        },
    }
}

/// Finds the key `kid` of a parsed key set.
pub fn find_key(set: Result<JwkSet, serde_json::Error>, kid: &str) -> (result: Result<
    (DecodingKey, Algorithm),
    OidcError,
>)
    ensures
        viewed(result) == key_in_set(set, kid@),
{
    let found = match set {
        Ok(found) => found,
        Err(error) => {
            return Err(
                OidcError::KeyFetch(joined("JWKS parse: ", &describe_json_error(&error))),
            );
        },
    };
    let jwk = match find_jwk(&found, kid) {
        Some(jwk) => jwk,
        None => {
            let mut text = joined("kid '", kid);
            text.append("' not found in JWKS");
            return Err(OidcError::KeyFetch(text));
        },
    };
    let alg = match resolve_algorithm(jwk) {
        Ok(alg) => alg,
        Err(error) => {
            return Err(error);
        },
    };
    match label_key("JWK decode: ", DecodingKey::from_jwk(jwk)) {
        Ok(key) => Ok((key, alg)),
        Err(error) => Err(error),
    }
}

/// Reads the key `kid` in the answer of a URL for a set of keys.
pub fn read_jwks_key(body: &str, kid: &str) -> (result: Result<
    (DecodingKey, Algorithm),
    OidcError,
>)
    ensures
        viewed(result) == key_in_set(parsed_jwk_set(body@), kid@),
{
    find_key(parse_jwk_set(body), kid)
}

/// The key in the answer of `location`, with its algorithm: for a single key
/// the algorithm that was asked for, for a key of a set its own.
pub open spec fn key_in_answer(
    location: KeyLocationView,
    kid: Seq<char>,
    alg: Algorithm,
    body: Seq<char>,
) -> Result<(DecodingKey, Algorithm), OidcErrorView> {
    match location {
        KeyLocationView::SingleKey(_) => match single_key(body, alg) {
            Ok(key) => Ok((key, alg)),
            Err(error) => Err(error),
        },
        KeyLocationView::KeySet(_) => key_in_set(parsed_jwk_set(body), kid),
    }
}

/// Reads the key in the answer of `location`.
pub fn read_answer(location: &KeyLocation, kid: &str, alg: Algorithm, body: &str) -> (result:
    Result<(DecodingKey, Algorithm), OidcError>)
    ensures
        viewed(result) == key_in_answer(location@, kid@, alg, body@),
{
    match location {
        KeyLocation::SingleKey(_) => match read_single_key(body, alg) {
            Ok(key) => Ok((key, alg)),
            Err(error) => Err(error),
        },
        KeyLocation::KeySet(_) => read_jwks_key(body, kid),
    }
}

// Fetching.

/// How fetching a URL failed, with the description of the failure.
#[derive(Debug, PartialEq, Eq)]
pub enum FetchFailure {
    /// No answer came.
    Request(String),
    /// The answer was an error.
    Status(String),
    /// The answer could not be read.
    Body(String),
}

/// The error that a failure to fetch `url` is reported as.
pub open spec fn fetch_error(url: Seq<char>, failure: FetchFailure) -> OidcErrorView {
    OidcErrorView::KeyFetch(
        match failure {
            FetchFailure::Request(text) => "HTTP request to "@ + url + ": "@ + text@,
            FetchFailure::Status(text) => "HTTP "@ + url + ": "@ + text@,
            FetchFailure::Body(text) => "reading body from "@ + url + ": "@ + text@,
        },
    )
}

/// Reports a failure to fetch `url`.
pub fn report_fetch_failure(url: &str, failure: &FetchFailure) -> (error: OidcError)
    ensures
        error@ == fetch_error(url@, *failure),
{
    let (label, text) = match failure {
        FetchFailure::Request(text) => ("HTTP request to ", text),
        FetchFailure::Status(text) => ("HTTP ", text),
        FetchFailure::Body(text) => ("reading body from ", text),
    };
    let mut report = joined(label, url);
    report.append(": ");
    report.append(text);
    OidcError::KeyFetch(report)
}

// What holds of all keys.

proof fn lemma_first_with_id(keys: Seq<Jwk>, kid: Seq<char>)
    ensures
        first_with_id(keys, kid) is None ==> forall|i: int|
            0 <= i < keys.len() ==> jwk_key_id(#[trigger] keys[i]) != Some(kid),
        first_with_id(keys, kid) matches Some(jwk) ==> jwk_key_id(jwk) == Some(kid)
            && keys.contains(jwk),
    decreases keys.len(),
{
    if keys.len() > 0 && jwk_key_id(keys[0]) != Some(kid) {
        let rest = keys.skip(1);
        lemma_first_with_id(rest, kid);
        assert forall|i: int| 0 <= i < keys.len() && first_with_id(keys, kid) is None implies
            jwk_key_id(#[trigger] keys[i]) != Some(kid) by {
            if i > 0 {
                assert(rest[i - 1] == keys[i]);
            }
        }
        if let Some(jwk) = first_with_id(keys, kid) {
            let i = choose|i: int| 0 <= i < rest.len() && rest[i] == jwk;
            assert(keys[i + 1] == jwk);
        }
    } else if keys.len() > 0 {
        assert(keys.contains(keys[0]));
    }
}

/// A key taken from a set is one of the set, carries the identifier that was
/// asked for, and comes with the algorithm that it names.
pub proof fn law_key_of_set_is_the_one_asked_for(set: JwkSet, kid: Seq<char>)
    requires
        key_in_set(Ok(set), kid) is Ok,
    ensures
        exists|jwk: Jwk|
            {
                &&& #[trigger] jwk_set_keys(set).contains(jwk)
                &&& jwk_key_id(jwk) == Some(kid)
                &&& jwk_decoding_key(jwk) == Ok::<DecodingKey, Error>(
                    (key_in_set(Ok(set), kid)->Ok_0).0,
                )
                &&& resolved(jwk_key_algorithm(jwk)) == Ok::<Algorithm, OidcErrorView>(
                    (key_in_set(Ok(set), kid)->Ok_0).1,
                )
            },
{
    lemma_first_with_id(jwk_set_keys(set), kid);
    let jwk = first_with_id(jwk_set_keys(set), kid)->0;
    assert(jwk_set_keys(set).contains(jwk));
}

/// Where no key of a set carries the identifier, none is taken.
pub proof fn law_unknown_identifier_finds_no_key(set: JwkSet, kid: Seq<char>)
    requires
        forall|i: int|
            0 <= i < jwk_set_keys(set).len() ==> jwk_key_id(#[trigger] jwk_set_keys(set)[i]) != Some(
                kid,
            ),
    ensures
        key_in_set(Ok(set), kid) == Err::<(DecodingKey, Algorithm), OidcErrorView>(
            OidcErrorView::KeyFetch("kid '"@ + kid + "' not found in JWKS"@),
        ),
{
    lemma_first_with_id(jwk_set_keys(set), kid);
    if let Some(jwk) = first_with_id(jwk_set_keys(set), kid) {
        let i = choose|i: int|
            0 <= i < jwk_set_keys(set).len() && jwk_set_keys(set)[i] == jwk;
        assert(jwk_key_id(jwk_set_keys(set)[i]) == Some(kid));
    }
}

/// A key of a set is never for a shared-secret algorithm.
pub proof fn law_key_of_set_is_not_a_shared_secret(
    set: Result<JwkSet, serde_json::Error>,
    kid: Seq<char>,
)
    ensures
        key_in_set(set, kid) matches Ok((_, alg)) ==> alg != Algorithm::HS256 && alg
            != Algorithm::HS384 && alg != Algorithm::HS512,
{
}

proof fn lemma_nothing_to_replace(text: Seq<char>, pattern: Seq<char>, value: Seq<char>)
    requires
        !occurs(text, pattern),
    ensures
        replaced(text, pattern, value) == text,
    decreases text.len(),
{
    if text.len() > 0 && pattern.len() > 0 {
        let rest = text.skip(1);
        assert(!occurs_at(text, pattern, 0));
        assert forall|at: int| !occurs_at(rest, pattern, at) by {
            if occurs_at(rest, pattern, at) {
                assert(text.subrange(at + 1, at + 1 + pattern.len()) =~= rest.subrange(
                    at,
                    at + pattern.len(),
                ));
                assert(occurs_at(text, pattern, at + 1));
            }
        }
        lemma_nothing_to_replace(rest, pattern, value);
        assert(seq![text[0]] + rest =~= text);
    }
}

proof fn lemma_one_to_replace(
    before: Seq<char>,
    after: Seq<char>,
    pattern: Seq<char>,
    value: Seq<char>,
)
    requires
        pattern.len() > 0,
        forall|at: int|
            0 <= at < before.len() ==> !occurs_at(before + pattern + after, pattern, at),
        !occurs(after, pattern),
    ensures
        replaced(before + pattern + after, pattern, value) == before + value + after,
    decreases before.len(),
{
    let text = before + pattern + after;
    if before.len() == 0 {
        assert(text.subrange(0, pattern.len() as int) =~= pattern);
        assert(text.skip(pattern.len() as int) =~= after);
        lemma_nothing_to_replace(after, pattern, value);
        assert(value + after =~= before + value + after);
    } else {
        let shorter = before.skip(1);
        let rest = shorter + pattern + after;
        assert(!occurs_at(text, pattern, 0));
        assert(text.skip(1) =~= rest);
        assert forall|at: int| 0 <= at < shorter.len() implies !occurs_at(rest, pattern, at) by {
            if occurs_at(rest, pattern, at) {
                assert(text.subrange(at + 1, at + 1 + pattern.len()) =~= rest.subrange(
                    at,
                    at + pattern.len(),
                ));
                assert(occurs_at(text, pattern, at + 1));
            }
        }
        lemma_one_to_replace(shorter, after, pattern, value);
        assert(seq![text[0]] + (shorter + value + after) =~= before + value + after);
    }
}

/// A URL with one placeholder is fetched with the identifier in its place and
/// nothing else changed.
pub proof fn law_placeholder_becomes_identifier(
    before: Seq<char>,
    after: Seq<char>,
    kid: Seq<char>,
)
    requires
        forall|at: int|
            0 <= at < before.len() ==> !occurs_at(before + "{kid}"@ + after, "{kid}"@, at),
        !occurs(after, "{kid}"@),
    ensures
        location_of(before + "{kid}"@ + after, kid) == KeyLocationView::SingleKey(
            before + kid + after,
        ),
{
    let url = before + "{kid}"@ + after;
    reveal_strlit("{kid}");
    assert(url.subrange(before.len() as int, (before.len() + "{kid}"@.len()) as int)
        =~= "{kid}"@);
    assert(occurs_at(url, "{kid}"@, before.len() as int));
    lemma_one_to_replace(before, after, "{kid}"@, kid);
}


// Where keys come from, in terms of URLs and answers.

/// A URL without the placeholder is that of a set of keys, whatever key is asked
/// for.
pub proof fn law_url_without_placeholder_is_a_set(url: Seq<char>, kid: Seq<char>)
    requires
        forall|at: int|
            0 <= at <= url.len() - 5 ==> #[trigger] url.subrange(at, at + 5) != "{kid}"@,
    ensures
        location_of(url, kid) == KeyLocationView::KeySet(url),
{
    reveal_strlit("{kid}");
    assert forall|at: int| !occurs_at(url, "{kid}"@, at) by {
        if occurs_at(url, "{kid}"@, at) {
            assert(url.subrange(at, at + 5) == "{kid}"@);
        }
    }
}

/// A URL with the placeholder is that of one key: the identifier, as it is,
/// stands in the place of the first one, and so on in what follows. What stands
/// before stays.
pub proof fn law_identifier_takes_the_place_of_the_placeholder(
    before: Seq<char>,
    after: Seq<char>,
    kid: Seq<char>,
)
    requires
        forall|at: int|
            0 <= at < before.len() ==> #[trigger] (before + "{kid}"@ + after).subrange(at, at + 5)
                != "{kid}"@,
    ensures
        location_of(before + "{kid}"@ + after, kid) == KeyLocationView::SingleKey(
            before + kid + (match location_of(after, kid) {
                KeyLocationView::SingleKey(url) => url,
                KeyLocationView::KeySet(url) => url,
            }),
        ),
{
    let url = before + "{kid}"@ + after;
    reveal_strlit("{kid}");
    assert(url.subrange(before.len() as int, (before.len() + "{kid}"@.len()) as int)
        =~= "{kid}"@);
    assert(occurs_at(url, "{kid}"@, before.len() as int));
    assert forall|at: int| 0 <= at < before.len() implies !occurs_at(url, "{kid}"@, at) by {
        assert(url.subrange(at, at + 5) != "{kid}"@);
    }
    lemma_first_to_replace(before, after, "{kid}"@, kid);
    if !occurs(after, "{kid}"@) {
        lemma_nothing_to_replace(after, "{kid}"@, kid);
    }
}

proof fn lemma_first_to_replace(
    before: Seq<char>,
    after: Seq<char>,
    pattern: Seq<char>,
    value: Seq<char>,
)
    requires
        pattern.len() > 0,
        forall|at: int|
            0 <= at < before.len() ==> !occurs_at(before + pattern + after, pattern, at),
    ensures
        replaced(before + pattern + after, pattern, value) == before + value + replaced(
            after,
            pattern,
            value,
        ),
    decreases before.len(),
{
    let text = before + pattern + after;
    let tail = replaced(after, pattern, value);
    if before.len() == 0 {
        assert(text.subrange(0, pattern.len() as int) =~= pattern);
        assert(text.skip(pattern.len() as int) =~= after);
        assert(value + tail =~= before + value + tail);
    } else {
        let shorter = before.skip(1);
        let rest = shorter + pattern + after;
        assert(!occurs_at(text, pattern, 0));
        assert(text.skip(1) =~= rest);
        assert forall|at: int| 0 <= at < shorter.len() implies !occurs_at(rest, pattern, at) by {
            if occurs_at(rest, pattern, at) {
                assert(text.subrange(at + 1, at + 1 + pattern.len()) =~= rest.subrange(
                    at,
                    at + pattern.len(),
                ));
                assert(occurs_at(text, pattern, at + 1));
            }
        }
        lemma_first_to_replace(shorter, after, pattern, value);
        assert(seq![text[0]] + (shorter + value + tail) =~= before + value + tail);
    }
}

/// The URL that is fetched is that of the location, and the view of a location
/// holds its URL as it is.
pub proof fn law_location_url(location: KeyLocation)
    ensures
        match location {
            KeyLocation::SingleKey(url) => location@ == KeyLocationView::SingleKey(url@)
                && location@.url() == url@,
            KeyLocation::KeySet(url) => location@ == KeyLocationView::KeySet(url@)
                && location@.url() == url@,
        },
{
}

/// The white space around an answer does not count: what is read is the text
/// between, all of it.
pub proof fn law_white_space_around_an_answer(
    before: Seq<char>,
    inner: Seq<char>,
    after: Seq<char>,
)
    requires
        forall|i: int| 0 <= i < before.len() ==> is_white_space(before[i]),
        forall|i: int| 0 <= i < after.len() ==> is_white_space(after[i]),
        inner.len() > 0 ==> !is_white_space(inner[0]) && !is_white_space(inner[inner.len() - 1]),
        inner.len() == 0 ==> after.len() == 0,
    ensures
        trimmed(before + inner + after) == inner,
{
    lemma_trimmed_left(before, inner + after);
    assert(before + inner + after =~= before + (inner + after));
    lemma_trimmed_right(inner, after);
}

proof fn lemma_trimmed_left(before: Seq<char>, rest: Seq<char>)
    requires
        forall|i: int| 0 <= i < before.len() ==> is_white_space(before[i]),
        rest.len() > 0 ==> !is_white_space(rest[0]),
    ensures
        trimmed_left(before + rest) == rest,
    decreases before.len(),
{
    if before.len() > 0 {
        lemma_trimmed_left(before.skip(1), rest);
        assert((before + rest).skip(1) =~= before.skip(1) + rest);
        assert((before + rest)[0] == before[0]);
    } else {
        assert(before + rest =~= rest);
    }
}

proof fn lemma_trimmed_right(rest: Seq<char>, after: Seq<char>)
    requires
        forall|i: int| 0 <= i < after.len() ==> is_white_space(after[i]),
        rest.len() > 0 ==> !is_white_space(rest[rest.len() - 1]),
    ensures
        trimmed_right(rest + after) == rest,
    decreases after.len(),
{
    if after.len() > 0 {
        lemma_trimmed_right(rest, after.drop_last());
        assert((rest + after).drop_last() =~= rest + after.drop_last());
        assert((rest + after).last() == after[after.len() - 1]);
    } else {
        assert(rest + after =~= rest);
    }
}

/// What counts as white space, by code point.
pub proof fn law_white_space(c: char)
    ensures
        is_white_space(c) <==> {
            let code = c as u32;
            ||| 0x9 <= code <= 0xD
            ||| code == 0x20
            ||| code == 0x85
            ||| code == 0xA0
            ||| code == 0x1680
            ||| 0x2000 <= code <= 0x200A
            ||| code == 0x2028
            ||| code == 0x2029
            ||| code == 0x202F
            ||| code == 0x205F
            ||| code == 0x3000
        },
{
}

/// A key file that starts with `-----BEGIN` is read whole as a PEM file: of an
/// elliptic-curve key for the two ECDSA algorithms, of an RSA key for all others.
pub proof fn law_pem_file_is_read(body: Seq<char>, rest: Seq<char>, alg: Algorithm)
    requires
        trimmed(body) == "-----BEGIN"@ + rest,
    ensures
        ({
            let file = encode_utf8("-----BEGIN"@ + rest);
            if alg == Algorithm::ES256 || alg == Algorithm::ES384 {
                match ec_pem_key(file) {
                    Ok(key) => single_key(body, alg) == Ok::<DecodingKey, OidcErrorView>(key),
                    Err(error) => single_key(body, alg) == Err::<DecodingKey, OidcErrorView>(
                        OidcErrorView::KeyFetch("EC PEM parse: "@ + jwt_error_text(error)),
                    ),
                }
            } else {
                match rsa_pem_key(file) {
                    Ok(key) => single_key(body, alg) == Ok::<DecodingKey, OidcErrorView>(key),
                    Err(error) => single_key(body, alg) == Err::<DecodingKey, OidcErrorView>(
                        OidcErrorView::KeyFetch("RSA PEM parse: "@ + jwt_error_text(error)),
                    ),
                }
            }
        }),
{
    let text = "-----BEGIN"@ + rest;
    assert(text.subrange(0, "-----BEGIN"@.len() as int) =~= "-----BEGIN"@);
    assert(occurs_at(text, "-----BEGIN"@, 0));
}

/// Any other key file is read whole as a JSON Web Key, whatever the algorithm.
pub proof fn law_other_key_file_is_a_jwk(body: Seq<char>, alg: Algorithm)
    requires
        forall|rest: Seq<char>| trimmed(body) != #[trigger] ("-----BEGIN"@ + rest),
    ensures
        match parsed_jwk(trimmed(body)) {
            Ok(jwk) => match jwk_decoding_key(jwk) {
                Ok(key) => single_key(body, alg) == Ok::<DecodingKey, OidcErrorView>(key),
                Err(error) => single_key(body, alg) == Err::<DecodingKey, OidcErrorView>(
                    OidcErrorView::KeyFetch("JWK decode: "@ + jwt_error_text(error)),
                ),
            },
            Err(error) => single_key(body, alg) == Err::<DecodingKey, OidcErrorView>(
                OidcErrorView::KeyFetch("JWK parse: "@ + json_error_text(error)),
            ),
        },
{
    let text = trimmed(body);
    if occurs_at(text, "-----BEGIN"@, 0) {
        let rest = text.skip("-----BEGIN"@.len() as int);
        assert(text =~= "-----BEGIN"@ + rest);
    }
}

/// Of a set, the first key whose identifier is the one asked for, character for
/// character, is taken, for the algorithm that it names; the algorithm is looked
/// at before the key is read.
pub proof fn law_first_key_with_the_identifier_is_taken(
    set: JwkSet,
    before: Seq<Jwk>,
    jwk: Jwk,
    after: Seq<Jwk>,
    kid: Seq<char>,
)
    requires
        jwk_set_keys(set) == before + seq![jwk] + after,
        forall|i: int| 0 <= i < before.len() ==> jwk_key_id(#[trigger] before[i]) != Some(kid),
        jwk_key_id(jwk) == Some(kid),
    ensures
        match (resolved(jwk_key_algorithm(jwk)), jwk_decoding_key(jwk)) {
            (Err(error), _) => key_in_set(Ok(set), kid) == Err::<
                (DecodingKey, Algorithm),
                OidcErrorView,
            >(error),
            (Ok(_), Err(error)) => key_in_set(Ok(set), kid) == Err::<
                (DecodingKey, Algorithm),
                OidcErrorView,
            >(OidcErrorView::KeyFetch("JWK decode: "@ + jwt_error_text(error))),
            (Ok(alg), Ok(key)) => key_in_set(Ok(set), kid) == Ok::<
                (DecodingKey, Algorithm),
                OidcErrorView,
            >((key, alg)),
        },
{
    lemma_first_found(before, jwk, after, kid);
}

proof fn lemma_first_found(before: Seq<Jwk>, jwk: Jwk, after: Seq<Jwk>, kid: Seq<char>)
    requires
        forall|i: int| 0 <= i < before.len() ==> jwk_key_id(#[trigger] before[i]) != Some(kid),
        jwk_key_id(jwk) == Some(kid),
    ensures
        first_with_id(before + seq![jwk] + after, kid) == Some(jwk),
    decreases before.len(),
{
    let keys = before + seq![jwk] + after;
    if before.len() > 0 {
        let rest = before.skip(1);
        assert(keys[0] == before[0]);
        assert forall|i: int| 0 <= i < rest.len() implies jwk_key_id(#[trigger] rest[i]) != Some(
            kid,
        ) by {
            assert(rest[i] == before[i + 1]);
        }
        assert(keys.skip(1) =~= rest + seq![jwk] + after);
        lemma_first_found(rest, jwk, after, kid);
    } else {
        assert(keys[0] == jwk);
    }
}

/// A text that is not a key set gives the words of the parser. A key from its
/// own URL is for the algorithm that was asked for, a key of a set for its own.
pub proof fn law_answers_are_read_by_their_place(
    url: Seq<char>,
    kid: Seq<char>,
    alg: Algorithm,
    body: Seq<char>,
)
    ensures
        match single_key(body, alg) {
            Ok(key) => key_in_answer(KeyLocationView::SingleKey(url), kid, alg, body) == Ok::<
                (DecodingKey, Algorithm),
                OidcErrorView,
            >((key, alg)),
            Err(error) => key_in_answer(KeyLocationView::SingleKey(url), kid, alg, body) == Err::<
                (DecodingKey, Algorithm),
                OidcErrorView,
            >(error),
        },
        match parsed_jwk_set(body) {
            Ok(set) => key_in_answer(KeyLocationView::KeySet(url), kid, alg, body) == key_in_set(
                Ok(set),
                kid,
            ),
            Err(error) => key_in_answer(KeyLocationView::KeySet(url), kid, alg, body) == Err::<
                (DecodingKey, Algorithm),
                OidcErrorView,
            >(OidcErrorView::KeyFetch("JWKS parse: "@ + json_error_text(error))),
        },
{
}

/// A fetch that failed is reported with the URL and the words of the failure.
pub proof fn law_fetch_failures_are_reported(url: Seq<char>, text: String)
    ensures
        fetch_error(url, FetchFailure::Request(text)) == OidcErrorView::KeyFetch(
            "HTTP request to "@ + url + ": "@ + text@,
        ),
        fetch_error(url, FetchFailure::Status(text)) == OidcErrorView::KeyFetch(
            "HTTP "@ + url + ": "@ + text@,
        ),
        fetch_error(url, FetchFailure::Body(text)) == OidcErrorView::KeyFetch(
            "reading body from "@ + url + ": "@ + text@,
        ),
{
}

} // verus!
