//! JSON Web Tokens: normalization, signature and claims.
//!
//! A token is three segments separated by dots: header, payload and signature,
//! each in URL-safe Base64. Some identity providers keep the padding (`=`) of
//! the segments, and sign over the padded text. The signature is therefore
//! verified over the token as it came, while header and claims are read from a
//! copy without padding.

use crate::algorithm::Algorithm;
use crate::base64url::{
    base64_decoded, base64_encoded, law_base64_alphabet, law_base64_round_trip,
};
use crate::claims::{claims_of, read_claims};
use crate::config::{GatewayOidcConfig, OidcConfigView};
use crate::der::{
    big_endian, der_to_raw, integer_fits, law_der_form_is_needed,
    law_der_signature_becomes_its_integers, try_der_to_raw, written_der,
};
use crate::error::{joined, viewed_text, OidcError, OidcErrorView};
use crate::external::encoding::{decode_base64, encode_base64};
use crate::external::json::{json_member, json_string};
use crate::external::jwt::{
    decode_claims, decode_header, decode_outcome, decoded_at, describe_jwt_error,
    disable_signature_validation, header_texts, jwt_error_text, jwt_header, new_validation,
    set_audiences, set_issuers, set_validate_aud, set_validate_exp,
    signature_verdict, text_set, validation_rules, verify, ClaimRules,
};
use crate::text::{
    joined_by, lacks, lemma_split_first, lemma_split_joins, lemma_split_pieces, lemma_split_whole,
    lemma_trimmed_end, lemma_trimmed_padding, split, split_text, trim_end_char, trimmed_end,
};
use jsonwebtoken::errors::Error;
use jsonwebtoken::{DecodingKey, Validation};
use serde_json::Value;
use vstd::prelude::*;
use vstd::string::StringExecFns;
use vstd::utf8::encode_utf8;

verus! {

// Normalization.

/// A segment without its padding.
pub open spec fn unpadded(segment: Seq<char>) -> Seq<char> {
    trimmed_end(segment, '=')
}

/// The segments of a token.
pub open spec fn segments(jwt: Seq<char>) -> Seq<Seq<char>> {
    split(jwt, '.')
}

/// A text of three segments.
pub open spec fn three_segments(header: Seq<char>, payload: Seq<char>, signature: Seq<char>) -> Seq<
    char,
> {
    header.push('.') + payload.push('.') + signature
}

/// A token with the padding of its segments removed. What does not have three
/// segments stays as it is.
pub open spec fn normalized(jwt: Seq<char>) -> Seq<char> {
    let parts = segments(jwt);
    if parts.len() == 3 {
        three_segments(unpadded(parts[0]), unpadded(parts[1]), unpadded(parts[2]))
    } else {
        jwt
    }
}

/// Removes the padding of a segment.
pub fn normalize_b64_segment(seg: &str) -> (text: String)
    ensures
        text@ == unpadded(seg@),
{
    trim_end_char(seg, '=').to_owned()
}

/// Removes the padding of all three segments of a token.
pub fn normalize_jwt_for_claims(jwt: &str) -> (text: String)
    ensures
        text@ == normalized(jwt@),
{
    let parts = split_text(jwt, '.');
    let ghost shown = parts@.map_values(|piece: &str| piece@);
    if parts.len() != 3 {
        return jwt.to_owned();
    }
    assert(shown[0] == parts@[0]@ && shown[1] == parts@[1]@ && shown[2] == parts@[2]@);
    let mut text = normalize_b64_segment(parts[0]);
    text.append(".");
    text.append(&normalize_b64_segment(parts[1]));
    text.append(".");
    text.append(&normalize_b64_segment(parts[2]));
    proof {
        reveal_strlit(".");
    }
    assert("."@ =~= seq!['.']);
    assert(text@ =~= normalized(jwt@));
    text
}

// Signature.

/// The text that the signature of a token is over: what stands before the last
/// dot, padding included.
pub open spec fn signing_input(jwt: Seq<char>) -> Seq<char> {
    segments(jwt)[0].push('.') + segments(jwt)[1]
}

/// A signature in the form that verification takes: an ECDSA signature in DER
/// form is converted, all others are taken as they are.
pub open spec fn presented_signature(bytes: Seq<u8>, alg: Algorithm) -> Seq<u8> {
    match der_to_raw(bytes, alg) {
        Some(raw) => raw,
        None => bytes,
    }
}

/// Whether `jwt` carries a valid signature under `key` and `alg`.
pub open spec fn signature_valid(jwt: Seq<char>, key: DecodingKey, alg: Algorithm) -> bool {
    &&& segments(jwt).len() == 3
    &&& base64_decoded(unpadded(segments(jwt)[2])) matches Some(bytes)
    &&& signature_verdict(
        base64_encoded(presented_signature(bytes, alg)),
        encode_utf8(signing_input(jwt)),
        key,
        alg,
    ) matches Ok(valid)
    &&& valid
}

/// The form of a decoded signature that verification takes.
pub fn signature_to_present(bytes: Vec<u8>, alg: Algorithm) -> (presented: Vec<u8>)
    ensures
        presented@ == presented_signature(bytes@, alg),
{
    match try_der_to_raw(&bytes, alg) {
        Some(raw) => raw,
        None => bytes,
    }
}

/// What a verdict on a signature means for the token.
pub fn accept_verdict(verdict: Result<bool, Error>) -> (result: Result<(), OidcError>)
    ensures
        result is Ok <==> (verdict matches Ok(valid) && valid),
        result matches Err(error) ==> error == OidcError::InvalidSignature,
{
    match verdict {
        Ok(true) => Ok(()),
        _ => Err(OidcError::InvalidSignature),
    }
}

/// Verifies the signature of a token over its original text.
///
/// Padding of the signature segment is tolerated, and so is the DER form of an
/// ECDSA signature.
pub fn verify_signature(original_jwt: &str, key: &DecodingKey, alg: Algorithm) -> (result: Result<
    (),
    OidcError,
>)
    ensures
        result is Ok <==> signature_valid(original_jwt@, *key, alg),
        result matches Err(error) ==> error == OidcError::InvalidSignature,
{
    let parts = split_text(original_jwt, '.');
    let ghost shown = parts@.map_values(|piece: &str| piece@);
    if parts.len() != 3 {
        return Err(OidcError::InvalidSignature);
    }
    assert(shown[0] == parts@[0]@ && shown[1] == parts@[1]@ && shown[2] == parts@[2]@);
    let mut input = parts[0].to_owned();
    input.append(".");
    input.append(parts[1]);
    proof {
        reveal_strlit(".");
    }
    assert("."@ =~= seq!['.']);
    assert(input@ =~= signing_input(original_jwt@));

    let decoded = match decode_base64(trim_end_char(parts[2], '=')) {
        Some(bytes) => bytes,
        None => {
            return Err(OidcError::InvalidSignature);
        },
    };
    proof {
        law_base64_round_trip(decoded@);
    }
    let presented = signature_to_present(decoded, alg);
    let signature = encode_base64(&presented);
    accept_verdict(verify(&signature, input.as_str().as_bytes(), key, alg))
}

// Key request.

/// The key that a decoded token header asks for: its identifier and algorithm.
pub open spec fn header_request(
    header: Result<(Option<Seq<char>>, Algorithm), Error>,
) -> Result<(Seq<char>, Algorithm), OidcErrorView> {
    match header {
        Ok((Some(kid), alg)) => Ok((kid, alg)),
        Ok((None, _)) => Err(OidcErrorView::MissingKid),
        Err(error) => Err(
            OidcErrorView::InvalidClaims("malformed header: "@ + jwt_error_text(error)),
        ),
    }
}

/// The key that a token asks for.
pub open spec fn key_request(jwt: Seq<char>) -> Result<(Seq<char>, Algorithm), OidcErrorView> {
    header_request(jwt_header(normalized(jwt)))
}

/// A key request with the text of its key identifier.
pub open spec fn viewed_request(
    request: Result<(String, Algorithm), OidcError>,
) -> Result<(Seq<char>, Algorithm), OidcErrorView> {
    match request {
        Ok((kid, alg)) => Ok((kid@, alg)),
        Err(error) => Err(error@),
    }
}

/// The key that a decoded token header asks for.
pub fn request_from_header(
    header: Result<(Option<String>, Algorithm), Error>,
) -> (request: Result<(String, Algorithm), OidcError>)
    ensures
        viewed_request(request) == header_request(header_texts(header)),
{
    match header {
        Ok((Some(kid), alg)) => Ok((kid, alg)),
        Ok((None, _)) => Err(OidcError::MissingKid),
        Err(error) => Err(
            OidcError::InvalidClaims(joined("malformed header: ", &describe_jwt_error(&error))),
        ),
    }
}

/// Reads the unverified header of a token to learn which key it asks for.
pub fn requested_key(jwt: &str) -> (request: Result<(String, Algorithm), OidcError>)
    ensures
        viewed_request(request) == key_request(jwt@),
{
    request_from_header(decode_header(&normalize_jwt_for_claims(jwt)))
}

// Claims.

/// The set of one text, where there is one.
pub open spec fn just(text: Option<Seq<char>>) -> Option<Set<Seq<char>>> {
    match text {
        Some(found) => Some(set![found]),
        None => None,
    }
}

/// The rules that the claims of a token are put to. The signature is not
/// verified a second time. An issuer and an audience count only where one is
/// configured.
pub open spec fn claim_rules(config: OidcConfigView, alg: Algorithm) -> ClaimRules {
    ClaimRules {
        algorithms: seq![alg],
        validate_signature: false,
        required: set!["exp"@],
        validate_exp: true,
        validate_nbf: false,
        leeway: 60,
        margin: 0,
        issuers: just(config.issuer),
        validate_aud: config.audience is Some,
        audiences: just(config.audience),
        subject: None,
    }
}

/// The list of one text.
fn singleton(text: &String) -> (items: Vec<String>)
    ensures
        text_set(items@) == set![text@],
{
    let mut items: Vec<String> = Vec::new();
    items.push(text.clone());
    let ghost texts = items@.map_values(|item: String| item@);
    assert(texts[0] == text@);
    assert(texts.to_set() =~= set![text@]);
    items
}

/// Sets up the checks that the claims of a token are put to.
pub fn claim_validation(config: &GatewayOidcConfig, alg: Algorithm) -> (validation: Validation)
    ensures
        validation_rules(validation) == claim_rules(config@, alg),
{
    let mut validation = new_validation(alg);
    disable_signature_validation(&mut validation);
    match &config.issuer {
        Some(issuer) => {
            set_issuers(&mut validation, &singleton(issuer));
        },
        None => {
            set_validate_exp(&mut validation, true);
        },
    }
    match &config.audience {
        Some(audience) => {
            set_audiences(&mut validation, &singleton(audience));
        },
        None => {
            set_validate_aud(&mut validation, false);
        },
    }
    validation
}

/// Whom the claims are about: the claim `sub`, or `unknown` where it is not
/// there or not a string.
pub open spec fn subject(claims: Value) -> Seq<char> {
    match claims_of(claims).subject {
        Some(name) => name,
        None => "unknown"@,
    }
}

/// What decoded claims mean for the token.
pub open spec fn decoded_subject(decoded: Result<Value, Error>) -> Result<
    Seq<char>,
    OidcErrorView,
> {
    match decoded {
        Ok(claims) => Ok(subject(claims)),
        Err(error) => Err(OidcErrorView::InvalidClaims(jwt_error_text(error))),
    }
}

/// The subject that decoded claims name.
pub fn subject_from_claims(decoded: Result<Value, Error>) -> (result: Result<String, OidcError>)
    ensures
        viewed_text(result) == decoded_subject(decoded),
{
    match decoded {
        Ok(claims) => match read_claims(&claims).subject {
            Some(name) => Ok(name),
            None => Ok("unknown".to_owned()),
        },
        Err(error) => Err(OidcError::InvalidClaims(describe_jwt_error(&error))),
    }
}

/// The results that checking a token under `key` and `alg` can have. Without a
/// valid signature there is one. With one, it is what decoding the claims at
/// some time gives.
pub open spec fn check_result(
    config: OidcConfigView,
    jwt: Seq<char>,
    key: DecodingKey,
    alg: Algorithm,
    result: Result<Seq<char>, OidcErrorView>,
) -> bool {
    let rules = claim_rules(config, alg);
    if signature_valid(jwt, key, alg) {
        exists|seconds: u64|
            {
                let decoded = #[trigger] decode_outcome(normalized(jwt), key, rules, seconds);
                &&& result == decoded_subject(decoded)
                &&& decoded matches Ok(claims) ==> decoded_at(
                    normalized(jwt),
                    key,
                    rules,
                    seconds,
                    claims,
                )
            }
    } else {
        result == Err::<Seq<char>, OidcErrorView>(OidcErrorView::InvalidSignature)
    }
}

/// Checks a token with its key: first the signature, then the claims. Returns
/// the subject.
pub fn check_jwt(
    config: &GatewayOidcConfig,
    jwt: &str,
    key: &DecodingKey,
    alg: Algorithm,
) -> (result: Result<String, OidcError>)
    ensures
        check_result(config@, jwt@, *key, alg, viewed_text(result)),
{
    match verify_signature(jwt, key, alg) {
        Ok(()) => {},
        Err(error) => {
            return Err(error);
        },
    }
    let token = normalize_jwt_for_claims(jwt);
    let validation = claim_validation(config, alg);
    subject_from_claims(decode_claims(&token, key, &validation))
}

// What holds of all tokens.

/// A text of three segments without dots in them splits into the three.
proof fn lemma_three_segments_split(header: Seq<char>, payload: Seq<char>, signature: Seq<char>)
    requires
        lacks(header, '.'),
        lacks(payload, '.'),
        lacks(signature, '.'),
    ensures
        segments(three_segments(header, payload, signature)) == seq![header, payload, signature],
{
    let rest = payload.push('.') + signature;
    lemma_split_whole(signature, '.');
    lemma_split_first(payload, signature, '.');
    lemma_split_first(header, rest, '.');
    assert(three_segments(header, payload, signature) =~= header.push('.') + rest);
    assert(seq![header] + (seq![payload] + seq![signature]) =~= seq![header, payload, signature]);
}

/// A token of three segments is the text of its three segments.
proof fn lemma_three_segments_whole(jwt: Seq<char>)
    requires
        segments(jwt).len() == 3,
    ensures
        ({
            let parts = segments(jwt);
            &&& jwt == three_segments(parts[0], parts[1], parts[2])
            &&& lacks(parts[0], '.')
            &&& lacks(parts[1], '.')
            &&& lacks(parts[2], '.')
        }),
{
    let parts = segments(jwt);
    lemma_split_pieces(jwt, '.');
    lemma_split_joins(jwt, '.');
    assert(lacks(parts[0], '.') && lacks(parts[1], '.') && lacks(parts[2], '.'));
    let two = parts.drop_last();
    assert(two.drop_last() =~= seq![parts[0]]);
    assert(joined_by(two.drop_last(), '.') == parts[0]);
    assert(joined_by(two, '.') == parts[0].push('.') + parts[1]);
    assert((parts[0].push('.') + parts[1]).push('.') + parts[2] =~= three_segments(
        parts[0],
        parts[1],
        parts[2],
    ));
}

proof fn lemma_unpadding_adds_no_dot(segment: Seq<char>)
    requires
        lacks(segment, '.'),
    ensures
        lacks(unpadded(segment), '.'),
{
    lemma_trimmed_end(segment, '=');
}

/// The segments of a normalized token are those of the token, without padding.
pub proof fn law_normalization_unpads_segments(jwt: Seq<char>)
    requires
        segments(jwt).len() == 3,
    ensures
        segments(normalized(jwt)) == seq![
            unpadded(segments(jwt)[0]),
            unpadded(segments(jwt)[1]),
            unpadded(segments(jwt)[2]),
        ],
{
    let parts = segments(jwt);
    lemma_three_segments_whole(jwt);
    lemma_unpadding_adds_no_dot(parts[0]);
    lemma_unpadding_adds_no_dot(parts[1]);
    lemma_unpadding_adds_no_dot(parts[2]);
    lemma_three_segments_split(unpadded(parts[0]), unpadded(parts[1]), unpadded(parts[2]));
}

/// Normalizing a normalized token changes nothing.
pub proof fn law_normalization_idempotent(jwt: Seq<char>)
    ensures
        normalized(normalized(jwt)) == normalized(jwt),
{
    let parts = segments(jwt);
    if parts.len() == 3 {
        law_normalization_unpads_segments(jwt);
        lemma_trimmed_end(parts[0], '=');
        lemma_trimmed_end(parts[1], '=');
        lemma_trimmed_end(parts[2], '=');
    }
}

/// A token whose segments have no padding, as the standard has it, stays as it
/// is.
pub proof fn law_normalization_keeps_unpadded(jwt: Seq<char>)
    requires
        forall|i: int|
            0 <= i < segments(jwt).len() && (#[trigger] segments(jwt)[i]).len() > 0
                ==> segments(jwt)[i].last() != '=',
    ensures
        normalized(jwt) == jwt,
{
    let parts = segments(jwt);
    if parts.len() == 3 {
        lemma_three_segments_whole(jwt);
        assert(unpadded(parts[0]) == parts[0]);
        assert(unpadded(parts[1]) == parts[1]);
        assert(unpadded(parts[2]) == parts[2]);
    }
}

/// A normalized token holds no padding character, where the segments of the
/// token hold it only as padding.
pub proof fn law_normalization_removes_padding(jwt: Seq<char>)
    requires
        segments(jwt).len() == 3,
        forall|i: int| 0 <= i < 3 ==> lacks(unpadded(#[trigger] segments(jwt)[i]), '='),
    ensures
        lacks(normalized(jwt), '='),
{
    let parts = segments(jwt);
    assert(lacks(unpadded(parts[0]), '='));
    assert(lacks(unpadded(parts[1]), '='));
    assert(lacks(unpadded(parts[2]), '='));
}

/// The signature is over the token as it came: the signing input, a dot and the
/// signature segment are the token, character for character.
pub proof fn law_signing_input_is_original_text(jwt: Seq<char>)
    requires
        segments(jwt).len() == 3,
    ensures
        signing_input(jwt).push('.') + segments(jwt)[2] == jwt,
{
    lemma_three_segments_whole(jwt);
    assert(signing_input(jwt).push('.') + segments(jwt)[2] =~= three_segments(
        segments(jwt)[0],
        segments(jwt)[1],
        segments(jwt)[2],
    ));
}

/// Padding at the end of the signature makes no difference to its validity.
pub proof fn law_signature_padding_is_tolerated(
    header: Seq<char>,
    payload: Seq<char>,
    signature: Seq<char>,
    padding: nat,
    key: DecodingKey,
    alg: Algorithm,
)
    requires
        lacks(header, '.'),
        lacks(payload, '.'),
        lacks(signature, '.'),
    ensures
        signature_valid(
            three_segments(header, payload, signature + Seq::new(padding, |i: int| '=')),
            key,
            alg,
        ) == signature_valid(three_segments(header, payload, signature), key, alg),
{
    let padded = signature + Seq::new(padding, |i: int| '=');
    assert(lacks(padded, '.'));
    lemma_three_segments_split(header, payload, signature);
    lemma_three_segments_split(header, payload, padded);
    lemma_trimmed_padding(signature, '=', padding);
}

/// An ECDSA signature is judged alike in its DER form and in its raw form: two
/// tokens that differ only in that are both valid or both not. A raw signature
/// that itself reads as a DER signature is left out.
pub proof fn law_der_and_raw_signatures_agree(
    header: Seq<char>,
    payload: Seq<char>,
    der: Seq<u8>,
    raw: Seq<u8>,
    key: DecodingKey,
    alg: Algorithm,
)
    requires
        lacks(header, '.'),
        lacks(payload, '.'),
        der_to_raw(der, alg) == Some(raw),
        der_to_raw(raw, alg) is None,
    ensures
        signature_valid(three_segments(header, payload, base64_encoded(der)), key, alg)
            == signature_valid(three_segments(header, payload, base64_encoded(raw)), key, alg),
{
    law_signature_is_read(header, payload, der, key, alg);
    law_signature_is_read(header, payload, raw, key, alg);
}

/// A token that was put together from header, payload and the Base64 form of a
/// signature is valid exactly where verification accepts that signature, raw
/// if it was in DER form, over header, dot and payload.
pub proof fn law_signature_is_read(
    header: Seq<char>,
    payload: Seq<char>,
    signature: Seq<u8>,
    key: DecodingKey,
    alg: Algorithm,
)
    requires
        lacks(header, '.'),
        lacks(payload, '.'),
    ensures
        signature_valid(three_segments(header, payload, base64_encoded(signature)), key, alg) == (
        signature_verdict(
            base64_encoded(presented_signature(signature, alg)),
            encode_utf8(header.push('.') + payload),
            key,
            alg,
        ) matches Ok(valid) && valid),
{
    let segment = base64_encoded(signature);
    law_base64_alphabet(signature);
    law_base64_round_trip(signature);
    lemma_three_segments_split(header, payload, segment);
    assert(unpadded(segment) == segment);
}

// What tokens mean, in terms of their text, their signature and their claims.

/// Three texts with dots between them.
pub open spec fn dotted(header: Seq<char>, payload: Seq<char>, signature: Seq<char>) -> Seq<char> {
    header + seq!['.'] + payload + seq!['.'] + signature
}

/// `text` with a number of `=` behind it.
pub open spec fn with_padding(text: Seq<char>, padding: nat) -> Seq<char> {
    text + Seq::new(padding, |i: int| '=')
}

/// Of a token with two dots, the three segments are what stands before, between
/// and after the dots.
pub proof fn law_segments_lie_between_the_dots(
    header: Seq<char>,
    payload: Seq<char>,
    signature: Seq<char>,
)
    requires
        forall|i: int| 0 <= i < header.len() ==> header[i] != '.',
        forall|i: int| 0 <= i < payload.len() ==> payload[i] != '.',
        forall|i: int| 0 <= i < signature.len() ==> signature[i] != '.',
    ensures
        segments(dotted(header, payload, signature)) == seq![
            header,
            payload,
            signature,
        ],
{
    assert(dotted(header, payload, signature) =~= three_segments(header, payload, signature));
    lemma_three_segments_split(header, payload, signature);
}

/// Only a text with two dots has three segments.
pub proof fn law_three_segments_need_two_dots(jwt: Seq<char>)
    requires
        segments(jwt).len() == 3,
    ensures
        ({
            let parts = segments(jwt);
            &&& jwt == dotted(parts[0], parts[1], parts[2])
            &&& forall|i: int| 0 <= i < parts[0].len() ==> parts[0][i] != '.'
            &&& forall|i: int| 0 <= i < parts[1].len() ==> parts[1][i] != '.'
            &&& forall|i: int| 0 <= i < parts[2].len() ==> parts[2][i] != '.'
        }),
{
    let parts = segments(jwt);
    lemma_three_segments_whole(jwt);
    assert(three_segments(parts[0], parts[1], parts[2]) =~= dotted(parts[0], parts[1], parts[2]));
}

/// Removing the padding of a segment takes away the `=` at its end, all of them
/// and nothing else.
pub proof fn law_unpadding_removes_exactly_the_padding(core: Seq<char>, padding: nat)
    requires
        core.len() > 0 ==> core[core.len() - 1] != '=',
    ensures
        unpadded(with_padding(core, padding)) == core,
{
    lemma_trimmed_padding(core, '=', padding);
}

/// Normalizing a token of three padded segments leaves the three segments and
/// the dots between them.
pub proof fn law_normalized_token(
    header: Seq<char>,
    payload: Seq<char>,
    signature: Seq<char>,
    paddings: (nat, nat, nat),
)
    requires
        forall|i: int| 0 <= i < header.len() ==> header[i] != '.',
        forall|i: int| 0 <= i < payload.len() ==> payload[i] != '.',
        forall|i: int| 0 <= i < signature.len() ==> signature[i] != '.',
        header.len() > 0 ==> header[header.len() - 1] != '=',
        payload.len() > 0 ==> payload[payload.len() - 1] != '=',
        signature.len() > 0 ==> signature[signature.len() - 1] != '=',
    ensures
        normalized(
            dotted(
                with_padding(header, paddings.0),
                with_padding(payload, paddings.1),
                with_padding(signature, paddings.2),
            ),
        ) == dotted(header, payload, signature),
{
    let first = with_padding(header, paddings.0);
    let second = with_padding(payload, paddings.1);
    let third = with_padding(signature, paddings.2);
    law_segments_lie_between_the_dots(first, second, third);
    law_unpadding_removes_exactly_the_padding(header, paddings.0);
    law_unpadding_removes_exactly_the_padding(payload, paddings.1);
    law_unpadding_removes_exactly_the_padding(signature, paddings.2);
    assert(three_segments(header, payload, signature) =~= dotted(header, payload, signature));
}

/// A text that does not hold exactly two dots is not changed by normalization.
pub proof fn law_other_texts_are_not_normalized(jwt: Seq<char>)
    requires
        forall|header: Seq<char>, payload: Seq<char>, signature: Seq<char>|
            jwt == #[trigger] dotted(header, payload, signature) ==> {
                ||| header.contains('.')
                ||| payload.contains('.')
                ||| signature.contains('.')
            },
    ensures
        normalized(jwt) == jwt,
{
    let parts = segments(jwt);
    if parts.len() == 3 {
        law_three_segments_need_two_dots(jwt);
        assert(jwt == dotted(parts[0], parts[1], parts[2]));
    }
}

/// Outside the DER form the bytes of a signature go to verification as they
/// are, all of them, together with the header, the dot and the payload. Padding
/// at the end of the token makes no difference. The bytes are not in DER form
/// where the algorithm is not ECDSA, or where they do not hold two integers that
/// fit the curve, each after a tag and a length, behind a sequence tag.
pub proof fn law_signature_bytes_reach_verification(
    header: Seq<char>,
    payload: Seq<char>,
    signature: Seq<u8>,
    padding: nat,
    key: DecodingKey,
    alg: Algorithm,
)
    requires
        forall|i: int| 0 <= i < header.len() ==> header[i] != '.',
        forall|i: int| 0 <= i < payload.len() ==> payload[i] != '.',
        ({
            ||| alg != Algorithm::ES256 && alg != Algorithm::ES384
            ||| forall|length: u8, r: Seq<u8>, s: Seq<u8>, rest: Seq<u8>|
                r.len() <= 255 && s.len() <= 255 && signature == #[trigger] written_der(
                    length,
                    r,
                    s,
                    rest,
                ) ==> !(integer_fits(r, alg) && integer_fits(s, alg))
        }),
    ensures
        signature_valid(
            dotted(
                header,
                payload,
                with_padding(base64_encoded(signature), padding),
            ),
            key,
            alg,
        ) == (signature_verdict(
            base64_encoded(signature),
            encode_utf8(header + seq!['.'] + payload),
            key,
            alg,
        ) == Ok::<bool, Error>(true)),
{
    law_der_form_is_needed(signature, alg);
    lemma_encoded_signature(header, payload, signature, padding, key, alg);
}

/// What a token with an encoded signature comes to.
proof fn lemma_encoded_signature(
    header: Seq<char>,
    payload: Seq<char>,
    signature: Seq<u8>,
    padding: nat,
    key: DecodingKey,
    alg: Algorithm,
)
    requires
        lacks(header, '.'),
        lacks(payload, '.'),
    ensures
        signature_valid(
            dotted(
                header,
                payload,
                with_padding(base64_encoded(signature), padding),
            ),
            key,
            alg,
        ) == (signature_verdict(
            base64_encoded(presented_signature(signature, alg)),
            encode_utf8(header + seq!['.'] + payload),
            key,
            alg,
        ) == Ok::<bool, Error>(true)),
{
    let segment = base64_encoded(signature);
    let padded = with_padding(segment, padding);
    law_base64_alphabet(signature);
    law_base64_round_trip(signature);
    law_segments_lie_between_the_dots(header, payload, padded);
    assert(segment.len() > 0 ==> segment[segment.len() - 1] != '=');
    law_unpadding_removes_exactly_the_padding(segment, padding);
    assert(header.push('.') + payload =~= header + seq!['.'] + payload);
}

/// An ECDSA signature in DER form goes to verification as its two integers, each
/// in as many bytes as the curve takes, together with the header, the dot and
/// the payload.
pub proof fn law_der_signature_reaches_verification_raw(
    header: Seq<char>,
    payload: Seq<char>,
    length: u8,
    r: Seq<u8>,
    s: Seq<u8>,
    rest: Seq<u8>,
    raw: Seq<u8>,
    width: nat,
    padding: nat,
    key: DecodingKey,
    alg: Algorithm,
)
    requires
        forall|i: int| 0 <= i < header.len() ==> header[i] != '.',
        forall|i: int| 0 <= i < payload.len() ==> payload[i] != '.',
        alg == Algorithm::ES256 && width == 32 || alg == Algorithm::ES384 && width == 48,
        integer_fits(r, alg),
        integer_fits(s, alg),
        raw.len() == 2 * width,
        big_endian(raw.take(width as int)) == big_endian(r),
        big_endian(raw.skip(width as int)) == big_endian(s),
    ensures
        signature_valid(
            dotted(
                header,
                payload,
                with_padding(base64_encoded(written_der(length, r, s, rest)), padding),
            ),
            key,
            alg,
        ) == (signature_verdict(
            base64_encoded(raw),
            encode_utf8(header + seq!['.'] + payload),
            key,
            alg,
        ) == Ok::<bool, Error>(true)),
{
    let der = written_der(length, r, s, rest);
    law_der_signature_becomes_its_integers(length, r, s, rest, raw, alg);
    lemma_encoded_signature(header, payload, der, padding, key, alg);
}

/// Only a token whose last segment is the Base64 form of some bytes, padded or
/// not, can be valid.
pub proof fn law_valid_token_carries_an_encoded_signature(
    jwt: Seq<char>,
    key: DecodingKey,
    alg: Algorithm,
)
    requires
        signature_valid(jwt, key, alg),
    ensures
        exists|header: Seq<char>, payload: Seq<char>, signature: Seq<u8>, padding: nat|
            {
                &&& jwt == #[trigger] dotted(
                    header,
                    payload,
                    with_padding(base64_encoded(signature), padding),
                )
                &&& !header.contains('.')
                &&& !payload.contains('.')
            },
{
    let parts = segments(jwt);
    law_three_segments_need_two_dots(jwt);
    let padding = lemma_padding_of(parts[2]);
    let signature = base64_decoded(unpadded(parts[2]))->0;
    assert(base64_encoded(signature) == unpadded(parts[2]));
    assert(jwt == dotted(
        parts[0],
        parts[1],
        with_padding(base64_encoded(signature), padding),
    ));
}

/// How much padding a segment has.
proof fn lemma_padding_of(segment: Seq<char>) -> (padding: nat)
    ensures
        segment == with_padding(unpadded(segment), padding),
    decreases segment.len(),
{
    if segment.len() > 0 && segment.last() == '=' {
        let shorter = segment.drop_last();
        let fewer = lemma_padding_of(shorter);
        assert(segment =~= shorter.push('='));
        assert(segment =~= with_padding(unpadded(segment), fewer + 1));
        fewer + 1
    } else {
        assert(segment =~= with_padding(unpadded(segment), 0));
        0
    }
}

/// The key that is asked for is the one that the header of the normalized token
/// names, by the identifier as it stands there and for the algorithm as it
/// stands there. Without an identifier, or without a header, there is none.
pub proof fn law_key_is_the_one_the_header_names(jwt: Seq<char>)
    ensures
        match jwt_header(normalized(jwt)) {
            Ok((Some(kid), alg)) => key_request(jwt) == Ok::<(Seq<char>, Algorithm), OidcErrorView>(
                (kid, alg),
            ),
            Ok((None, _)) => key_request(jwt) == Err::<(Seq<char>, Algorithm), OidcErrorView>(
                OidcErrorView::MissingKid,
            ),
            Err(error) => key_request(jwt) == Err::<(Seq<char>, Algorithm), OidcErrorView>(
                OidcErrorView::InvalidClaims("malformed header: "@ + jwt_error_text(error)),
            ),
        },
{
}

/// The subject of claims is the string in their member `sub`. No other member
/// counts; without that one, or where it is not a string, it is `unknown`.
pub proof fn law_subject_is_the_member_sub(claims: Value)
    ensures
        match json_member(claims, "sub"@) {
            Some(member) => match json_string(member) {
                Some(text) => subject(claims) == text,
                None => subject(claims) == "unknown"@,
            },
            None => subject(claims) == "unknown"@,
        },
{
}

/// Claims with the same member `sub` have the same subject.
pub proof fn law_no_other_claim_counts(one: Value, other: Value)
    requires
        json_member(one, "sub"@) == json_member(other, "sub"@),
    ensures
        subject(one) == subject(other),
{
}

/// What claims are put to: the time in `exp`, with a leeway of one minute, and
/// the issuer and the audience that are configured, if any. Nothing else.
pub proof fn law_rules_follow_the_configuration(config: OidcConfigView, alg: Algorithm)
    ensures
        claim_rules(config, alg) == (ClaimRules {
            algorithms: seq![alg],
            validate_signature: false,
            required: set!["exp"@],
            validate_exp: true,
            validate_nbf: false,
            leeway: 60,
            margin: 0,
            issuers: match config.issuer {
                Some(issuer) => Some(set![issuer]),
                None => None,
            },
            validate_aud: config.audience is Some,
            audiences: match config.audience {
                Some(audience) => Some(set![audience]),
                None => None,
            },
            subject: None,
        }),
{
}

/// Checking a token that is validly signed comes to what decoding its normalized
/// text, under its key and the configured rules, gives at some time: the string
/// in the member `sub` of the claims, or `unknown`, or a refusal that carries the
/// decoder's words. Any other token is refused for its signature.
pub proof fn law_checked_token(
    config: OidcConfigView,
    jwt: Seq<char>,
    key: DecodingKey,
    alg: Algorithm,
    result: Result<Seq<char>, OidcErrorView>,
)
    requires
        check_result(config, jwt, key, alg, result),
    ensures
        !signature_valid(jwt, key, alg) ==> result == Err::<Seq<char>, OidcErrorView>(
            OidcErrorView::InvalidSignature,
        ),
        signature_valid(jwt, key, alg) ==> exists|seconds: u64|
            match #[trigger] decode_outcome(
                normalized(jwt),
                key,
                claim_rules(config, alg),
                seconds,
            ) {
                Ok(claims) => result == Ok::<Seq<char>, OidcErrorView>(
                    match json_member(claims, "sub"@) {
                        Some(member) => match json_string(member) {
                            Some(text) => text,
                            None => "unknown"@,
                        },
                        None => "unknown"@,
                    },
                ),
                Err(error) => result == Err::<Seq<char>, OidcErrorView>(
                    OidcErrorView::InvalidClaims(jwt_error_text(error)),
                ),
            },
{
    let rules = claim_rules(config, alg);
    if signature_valid(jwt, key, alg) {
        let seconds = choose|seconds: u64|
            result == decoded_subject(
                #[trigger] decode_outcome(normalized(jwt), key, rules, seconds),
            );
        if let Ok(claims) = decode_outcome(normalized(jwt), key, rules, seconds) {
            law_subject_is_the_member_sub(claims);
        }
    }
}

} // verus!
