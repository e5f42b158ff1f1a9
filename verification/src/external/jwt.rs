//! JSON Web Tokens and JSON Web Keys.
//!
//! What depends on cryptography is computed by the provider that the features
//! of the `jsonwebtoken` crate select; this crate installs no other.

use crate::algorithm::{Algorithm, KeyAlgorithm};
use crate::claims::{claim_number, claim_texts};
use crate::external::json::{json_is_object, json_member};
use jsonwebtoken::errors::Error;
use jsonwebtoken::jwk::{Jwk, JwkSet, KeyAlgorithm as NamedAlgorithm};
use jsonwebtoken::{Algorithm as JwtAlgorithm, DecodingKey, Validation};
use serde_json::Value;
use vstd::prelude::*;

verus! {

/// A key that signatures are verified with.
#[verifier::external_type_specification]
#[verifier::external_body]
pub struct ExDecodingKey(jsonwebtoken::DecodingKey);

/// An error of the token library.
#[verifier::external_type_specification]
#[verifier::external_body]
pub struct ExJwtError(jsonwebtoken::errors::Error);

/// A JSON Web Key.
#[verifier::external_type_specification]
#[verifier::external_body]
pub struct ExJwk(jsonwebtoken::jwk::Jwk);

/// A set of JSON Web Keys.
#[verifier::external_type_specification]
#[verifier::external_body]
pub struct ExJwkSet(jsonwebtoken::jwk::JwkSet);

/// The checks that the claims of a token are put to.
#[verifier::external_type_specification]
#[verifier::external_body]
pub struct ExValidation(jsonwebtoken::Validation);

// Errors.

/// The text that describes an error of the token library.
pub uninterp spec fn jwt_error_text(error: Error) -> Seq<char>;

/// Calls `to_string` of `jsonwebtoken::errors::Error`: its description, a
/// function of the error.
#[verifier::external_body]
pub(crate) fn describe_jwt_error(error: &Error) -> (text: String)
    ensures
        text@ == jwt_error_text(*error),
{
    error.to_string()
}

// Keys.

/// `DecodingKey::clone`: a key with the same contents.
pub assume_specification[ <DecodingKey as Clone>::clone ](key: &DecodingKey) -> (copy: DecodingKey)
    ensures
        copy == *key,
;

/// The elliptic-curve key that a PEM file holds.
pub uninterp spec fn ec_pem_key(pem: Seq<u8>) -> Result<DecodingKey, Error>;

/// `DecodingKey::from_ec_pem`: the result is a function of the file. The call
/// recurses into the structures that a file nests; one that nests them so deep
/// that the stack is exhausted is not considered.
pub assume_specification[ DecodingKey::from_ec_pem ](key: &[u8]) -> (result: Result<
    DecodingKey,
    Error,
>)
    ensures
        result == ec_pem_key(key@),
;

/// The RSA key that a PEM file holds.
pub uninterp spec fn rsa_pem_key(pem: Seq<u8>) -> Result<DecodingKey, Error>;

/// `DecodingKey::from_rsa_pem`: the result is a function of the file. What is
/// said of nested structures above holds here too.
pub assume_specification[ DecodingKey::from_rsa_pem ](key: &[u8]) -> (result: Result<
    DecodingKey,
    Error,
>)
    ensures
        result == rsa_pem_key(key@),
;

/// The verification key that a JSON Web Key describes.
pub uninterp spec fn jwk_decoding_key(jwk: Jwk) -> Result<DecodingKey, Error>;

/// `DecodingKey::from_jwk`: the result is a function of the JSON Web Key.
pub assume_specification[ DecodingKey::from_jwk ](jwk: &Jwk) -> (result: Result<
    DecodingKey,
    Error,
>)
    ensures
        result == jwk_decoding_key(*jwk),
;

/// The JSON Web Key that a JSON text describes.
pub uninterp spec fn parsed_jwk(text: Seq<char>) -> Result<Jwk, serde_json::Error>;

/// Calls `serde_json::from_str` for a JSON Web Key: the result is a function of
/// the text.
#[verifier::external_body]
pub(crate) fn parse_jwk(text: &str) -> (result: Result<Jwk, serde_json::Error>)
    ensures
        result == parsed_jwk(text@),
{
    serde_json::from_str::<Jwk>(text)
}

/// The set of JSON Web Keys that a JSON text describes.
pub uninterp spec fn parsed_jwk_set(text: Seq<char>) -> Result<JwkSet, serde_json::Error>;

/// Calls `serde_json::from_str` for a set of JSON Web Keys: the result is a
/// function of the text.
#[verifier::external_body]
pub(crate) fn parse_jwk_set(text: &str) -> (result: Result<JwkSet, serde_json::Error>)
    ensures
        result == parsed_jwk_set(text@),
{
    serde_json::from_str::<JwkSet>(text)
}

/// What a key set holds: its keys, in order.
pub uninterp spec fn jwk_set_keys(set: JwkSet) -> Seq<Jwk>;

/// The identifier (`kid`) of a JSON Web Key, if it has one.
pub uninterp spec fn jwk_key_id(jwk: Jwk) -> Option<Seq<char>>;

/// The first of `keys` whose identifier is `kid`.
pub open spec fn first_with_id(keys: Seq<Jwk>, kid: Seq<char>) -> Option<Jwk>
    decreases keys.len(),
{
    if keys.len() == 0 {
        None
    } else if jwk_key_id(keys[0]) == Some(kid) {
        Some(keys[0])
    } else {
        first_with_id(keys.skip(1), kid)
    }
}

/// Calls `JwkSet::find`: the first key of the set whose identifier is `kid`.
#[verifier::external_body]
pub(crate) fn find_jwk<'a>(set: &'a JwkSet, kid: &str) -> (found: Option<&'a Jwk>)
    ensures
        found is Some <==> first_with_id(jwk_set_keys(*set), kid@) is Some,
        found matches Some(jwk) ==> first_with_id(jwk_set_keys(*set), kid@) == Some(*jwk)
            && jwk_key_id(*jwk) == Some(kid@),
{
    set.find(kid)
}

/// The algorithm that a JSON Web Key names, if it names one.
pub uninterp spec fn jwk_key_algorithm(jwk: Jwk) -> Option<KeyAlgorithm>;

/// Reads the field `common.key_algorithm` of a JSON Web Key, variant for
/// variant.
#[verifier::external_body]
pub(crate) fn jwk_algorithm(jwk: &Jwk) -> (alg: Option<KeyAlgorithm>)
    ensures
        alg == jwk_key_algorithm(*jwk),
{
    Some(match jwk.common.key_algorithm? {
        NamedAlgorithm::HS256 => KeyAlgorithm::HS256, NamedAlgorithm::HS384 => KeyAlgorithm::HS384,
        NamedAlgorithm::HS512 => KeyAlgorithm::HS512, NamedAlgorithm::ES256 => KeyAlgorithm::ES256,
        NamedAlgorithm::ES384 => KeyAlgorithm::ES384, NamedAlgorithm::EdDSA => KeyAlgorithm::EdDSA,
        NamedAlgorithm::RS256 => KeyAlgorithm::RS256, NamedAlgorithm::RS384 => KeyAlgorithm::RS384,
        NamedAlgorithm::RS512 => KeyAlgorithm::RS512, NamedAlgorithm::PS256 => KeyAlgorithm::PS256,
        NamedAlgorithm::PS384 => KeyAlgorithm::PS384, NamedAlgorithm::PS512 => KeyAlgorithm::PS512,
        NamedAlgorithm::RSA1_5 => KeyAlgorithm::Rsa15, NamedAlgorithm::RSA_OAEP => KeyAlgorithm::RsaOaep,
        NamedAlgorithm::RSA_OAEP_256 => KeyAlgorithm::RsaOaep256,
        NamedAlgorithm::UNKNOWN_ALGORITHM => KeyAlgorithm::Unknown,
    })
}

// Tokens.

/// What the header of a token names: the identifier of the signing key, if
/// there is one, and the algorithm.
pub uninterp spec fn jwt_header(token: Seq<char>) -> Result<(Option<Seq<char>>, Algorithm), Error>;

/// The text of an optional string.
pub open spec fn optional_text(text: Option<String>) -> Option<Seq<char>> {
    match text {
        Some(found) => Some(found@),
        None => None,
    }
}

/// A decoded header, with the text of its key identifier.
pub open spec fn header_texts(header: Result<(Option<String>, Algorithm), Error>) -> Result<
    (Option<Seq<char>>, Algorithm),
    Error,
> {
    match header {
        Ok(found) => Ok((optional_text(found.0), found.1)),
        Err(error) => Err(error),
    }
}

/// Calls `jsonwebtoken::decode_header` and reads the fields `kid` and `alg`,
/// the algorithm variant for variant. The result is a function of the token.
#[verifier::external_body]
pub(crate) fn decode_header(token: &str) -> (header: Result<(Option<String>, Algorithm), Error>)
    ensures
        header_texts(header) == jwt_header(token@),
{
    let header = jsonwebtoken::decode_header(token)?;
    let alg = match header.alg {
        JwtAlgorithm::HS256 => Algorithm::HS256, JwtAlgorithm::HS384 => Algorithm::HS384,
        JwtAlgorithm::HS512 => Algorithm::HS512, JwtAlgorithm::ES256 => Algorithm::ES256,
        JwtAlgorithm::ES384 => Algorithm::ES384, JwtAlgorithm::EdDSA => Algorithm::EdDSA,
        JwtAlgorithm::RS256 => Algorithm::RS256, JwtAlgorithm::RS384 => Algorithm::RS384,
        JwtAlgorithm::RS512 => Algorithm::RS512, JwtAlgorithm::PS256 => Algorithm::PS256,
        JwtAlgorithm::PS384 => Algorithm::PS384, JwtAlgorithm::PS512 => Algorithm::PS512,
    };
    Ok((header.kid, alg))
}

/// Whether `signature`, in URL-safe Base64 without padding, is a signature of
/// `message` under `key` and `alg`; an error where the question cannot be put.
pub uninterp spec fn signature_verdict(
    signature: Seq<char>,
    message: Seq<u8>,
    key: DecodingKey,
    alg: Algorithm,
) -> Result<bool, Error>;

/// Calls `jsonwebtoken::crypto::verify`: the result is a function of the four
/// arguments.
#[verifier::external_body]
pub(crate) fn verify(
    signature: &str,
    message: &[u8],
    key: &DecodingKey,
    alg: Algorithm,
) -> (verdict: Result<bool, Error>)
    ensures
        verdict == signature_verdict(signature@, message@, *key, alg),
{
    let alg = match alg {
        Algorithm::HS256 => JwtAlgorithm::HS256, Algorithm::HS384 => JwtAlgorithm::HS384,
        Algorithm::HS512 => JwtAlgorithm::HS512, Algorithm::ES256 => JwtAlgorithm::ES256,
        Algorithm::ES384 => JwtAlgorithm::ES384, Algorithm::EdDSA => JwtAlgorithm::EdDSA,
        Algorithm::RS256 => JwtAlgorithm::RS256, Algorithm::RS384 => JwtAlgorithm::RS384,
        Algorithm::RS512 => JwtAlgorithm::RS512, Algorithm::PS256 => JwtAlgorithm::PS256,
        Algorithm::PS384 => JwtAlgorithm::PS384, Algorithm::PS512 => JwtAlgorithm::PS512,
    };
    jsonwebtoken::crypto::verify(signature, message, key, alg)
}

// Claims.

/// What a `Validation` asks of a token.
pub struct ClaimRules {
    /// The algorithms that the token header may name.
    pub algorithms: Seq<Algorithm>,
    /// Whether the signature is verified.
    pub validate_signature: bool,
    /// The claims that must be there.
    pub required: Set<Seq<char>>,
    /// Whether the time in `exp` must not be past.
    pub validate_exp: bool,
    /// Whether the time in `nbf` must be past.
    pub validate_nbf: bool,
    /// By how many seconds the clock may be off.
    pub leeway: nat,
    /// How many seconds before `exp` a token counts as expired.
    pub margin: nat,
    /// The issuers of which a claim `iss` must be one.
    pub issuers: Option<Set<Seq<char>>>,
    /// Whether a claim `aud` is looked at.
    pub validate_aud: bool,
    /// The audiences of which a claim `aud` must be one.
    pub audiences: Option<Set<Seq<char>>>,
    /// What a claim `sub` must be.
    pub subject: Option<Seq<char>>,
}

/// The rules that a `Validation` holds.
pub uninterp spec fn validation_rules(validation: Validation) -> ClaimRules;

/// The rules that a new `Validation` for `alg` holds.
pub open spec fn default_rules(alg: Algorithm) -> ClaimRules {
    ClaimRules {
        algorithms: seq![alg],
        validate_signature: true,
        required: set!["exp"@],
        validate_exp: true,
        validate_nbf: false,
        leeway: 60,
        margin: 0,
        issuers: None,
        validate_aud: true,
        audiences: None,
        subject: None,
    }
}

/// Calls `Validation::new`: the rules of a new `Validation`.
#[verifier::external_body]
pub(crate) fn new_validation(alg: Algorithm) -> (validation: Validation)
    ensures
        validation_rules(validation) == default_rules(alg),
{
    let alg = match alg {
        Algorithm::HS256 => JwtAlgorithm::HS256, Algorithm::HS384 => JwtAlgorithm::HS384,
        Algorithm::HS512 => JwtAlgorithm::HS512, Algorithm::ES256 => JwtAlgorithm::ES256,
        Algorithm::ES384 => JwtAlgorithm::ES384, Algorithm::EdDSA => JwtAlgorithm::EdDSA,
        Algorithm::RS256 => JwtAlgorithm::RS256, Algorithm::RS384 => JwtAlgorithm::RS384,
        Algorithm::RS512 => JwtAlgorithm::RS512, Algorithm::PS256 => JwtAlgorithm::PS256,
        Algorithm::PS384 => JwtAlgorithm::PS384, Algorithm::PS512 => JwtAlgorithm::PS512,
    };
    Validation::new(alg)
}

/// Calls `Validation::insecure_disable_signature_validation`: turns that one
/// check off.
#[allow(deprecated)]
#[verifier::external_body]
pub(crate) fn disable_signature_validation(validation: &mut Validation)
    ensures
        validation_rules(*final(validation)) == (ClaimRules {
            validate_signature: false,
            ..validation_rules(*old(validation))
        }),
{
    validation.insecure_disable_signature_validation()
}

/// The set of the texts in a list.
pub open spec fn text_set(items: Seq<String>) -> Set<Seq<char>> {
    items.map_values(|item: String| item@).to_set()
}

/// Calls `Validation::set_issuer`: the issuers become those in the list.
#[verifier::external_body]
pub(crate) fn set_issuers(validation: &mut Validation, issuers: &[String])
    ensures
        validation_rules(*final(validation)) == (ClaimRules {
            issuers: Some(text_set(issuers@)),
            ..validation_rules(*old(validation))
        }),
{
    validation.set_issuer(issuers)
}

/// Calls `Validation::set_audience`: the audiences become those in the list.
#[verifier::external_body]
pub(crate) fn set_audiences(validation: &mut Validation, audiences: &[String])
    ensures
        validation_rules(*final(validation)) == (ClaimRules {
            audiences: Some(text_set(audiences@)),
            ..validation_rules(*old(validation))
        }),
{
    validation.set_audience(audiences)
}

/// Writes the field `validate_exp` of a `Validation`.
#[verifier::external_body]
pub(crate) fn set_validate_exp(validation: &mut Validation, value: bool)
    ensures
        validation_rules(*final(validation)) == (ClaimRules {
            validate_exp: value,
            ..validation_rules(*old(validation))
        }),
{
    validation.validate_exp = value
}

/// Writes the field `validate_aud` of a `Validation`.
#[verifier::external_body]
pub(crate) fn set_validate_aud(validation: &mut Validation, value: bool)
    ensures
        validation_rules(*final(validation)) == (ClaimRules {
            validate_aud: value,
            ..validation_rules(*old(validation))
        }),
{
    validation.validate_aud = value
}

/// What decoding `token` at a time, in seconds since 1970, returns: its claims,
/// where they pass `rules`.
pub uninterp spec fn decode_outcome(
    token: Seq<char>,
    key: DecodingKey,
    rules: ClaimRules,
    seconds: u64,
) -> Result<Value, Error>;

/// Whether one of `names` is among those allowed.
pub open spec fn names_one_of(names: Seq<Seq<char>>, allowed: Set<Seq<char>>) -> bool {
    exists|i: int| 0 <= i < names.len() && allowed.contains(#[trigger] names[i])
}

/// What claims that passed the rules satisfy at every time: an object has the
/// member `exp`, and of the issuers and audiences that they name, in a string or
/// a list of strings, one is allowed.
pub open spec fn claims_pass(rules: ClaimRules, claims: Value) -> bool {
    &&& json_is_object(claims) ==> json_member(claims, "exp"@) is Some
    &&& claim_texts(claims, "iss"@) matches Some(names) ==> (rules.issuers matches Some(allowed)
        ==> names_one_of(names, allowed))
    &&& claim_texts(claims, "aud"@) matches Some(names) ==> (rules.validate_aud ==> (
    rules.audiences matches Some(allowed) && names_one_of(names, allowed)))
}

/// Whether a token whose `exp` is `expiry` has not expired at a time.
pub open spec fn unexpired(rules: ClaimRules, expiry: u64, seconds: u64) -> bool {
    seconds + rules.margin <= expiry + rules.leeway
}

/// What holds where decoding a token at a time returned `claims`. They pass the
/// rules. No time gives other claims, and none gives any once their `exp` is
/// past. They are returned at every earlier time too, and at every time at which
/// `exp` is not past. Times at which the leeway reaches back before 1970 are left
/// out.
pub open spec fn decoded_at(
    token: Seq<char>,
    key: DecodingKey,
    rules: ClaimRules,
    seconds: u64,
    claims: Value,
) -> bool {
    &&& claims_pass(rules, claims)
    &&& forall|other: u64|
        (#[trigger] decode_outcome(token, key, rules, other) matches Ok(again) ==> {
            &&& again == claims
            &&& claim_number(claims, "exp"@) matches Some(expiry) ==> unexpired(
                rules,
                expiry,
                other,
            )
        })
    &&& forall|other: u64|
        rules.leeway <= other && (other <= seconds || (claim_number(claims, "exp"@) matches Some(
            expiry,
        ) && unexpired(rules, expiry, other))) ==> #[trigger] decode_outcome(
            token,
            key,
            rules,
            other,
        ) is Ok
}

/// Calls `jsonwebtoken::decode` for a JSON value and takes its claims. The
/// result is a function of the arguments and of the time of the call, which
/// must be later than the first minute of 1970. What holds of claims that are
/// returned, at this and at other times, is stated for rules that look at `exp`
/// and not at `nbf`. When a token expires whose `exp` is a number with a
/// fraction, on which tokens decoding succeeds at all, and which error comes is
/// not stated.
#[verifier::external_body]
pub(crate) fn decode_claims(token: &str, key: &DecodingKey, validation: &Validation) -> (claims:
    Result<Value, Error>)
    requires
        validation_rules(*validation).required == set!["exp"@],
        validation_rules(*validation).validate_exp,
        !validation_rules(*validation).validate_nbf,
        validation_rules(*validation).leeway <= 60,
    ensures
        exists|seconds: u64|
            claims == (#[trigger] decode_outcome(
                token@,
                *key,
                validation_rules(*validation),
                seconds,
            )) && (claims matches Ok(found) ==> decoded_at(
                token@,
                *key,
                validation_rules(*validation),
                seconds,
                found,
            )),
{
    jsonwebtoken::decode::<Value>(token, key, validation).map(|data| data.claims)
}

} // verus!
