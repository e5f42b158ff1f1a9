use base64::engine::general_purpose::URL_SAFE_NO_PAD;
use base64::Engine;
use gateway_auth::claims::{read_claims, Claims};
use gateway_auth::jwt::{
    accept_verdict, check_jwt, claim_validation, request_from_header, requested_key,
    signature_to_present, subject_from_claims,
};
use gateway_auth::{
    normalize_b64_segment, normalize_jwt_for_claims, verify_signature, Algorithm,
    GatewayOidcConfig, OidcError,
};
use jsonwebtoken::errors::{Error, ErrorKind};
use jsonwebtoken::{DecodingKey, EncodingKey, Header};
use serde_json::Value;
use std::time::{SystemTime, UNIX_EPOCH};

/// The public key of the elliptic-curve example of RFC 7515.
const EC_X: &str = "f83OJ3D2xF1Bg8vub9tLe1gHMzV76e8Tus9uPHvRVEU";
const EC_Y: &str = "x_FEzRu9m36HLN_tue659LNpXW6pCyStikYjKIWI5a0";

/// Claims for `alice`, from `https://issuer.example`, to `gateway`.
const ES256_INPUT: &str = "eyJhbGciOiJFUzI1NiIsImtpZCI6ImVjLWtleSJ9.eyJzdWIiOiJhbGljZSIsImlzcyI6Imh0dHBzOi8vaXNzdWVyLmV4YW1wbGUiLCJhdWQiOiJnYXRld2F5IiwiZXhwIjo5OTk5OTk5OTk5fQ";
const ES256_RAW: &str = "5FTxGDC7FOInTZjBJFQYyP4q497riOU9f6Zj374oO7V_rNWR-ySgoagbsthGsZBt4JLvXYh84LfST0XNejDZKA";
const ES256_DER: &str = "MEUCIQDkVPEYMLsU4idNmMEkVBjI_irj3uuI5T1_pmPfvig7tQIgf6zVkfskoKGoG7LYRrGQbeCS712IfOC30k9FzXow2Sg";

/// The same claims, signed over padded segments.
const PADDED_INPUT: &str = "eyJhbGciOiJFUzI1NiIsImtpZCI6ImVjLWtleS0xIn0=.eyJzdWIiOiJhbGljZSIsImlzcyI6Imh0dHBzOi8vaXNzdWVyLmV4YW1wbGUiLCJhdWQiOiJnYXRld2F5IiwiZXhwIjo5OTk5OTk5OTk5fQ==";
const PADDED_RAW: &str = "-uVXcbTOXXVVkkks97tZcpbowIw4nx1Eceyq4oC6ku6hxV3uC14lsBB8Wpdwt87XZuZJW67OZdioO0ol40byzw==";
const PADDED_DER: &str = "MEYCIQD65VdxtM5ddVWSSSz3u1lylujAjDifHURx7KrigLqS7gIhAKHFXe4LXiWwEHxal3C3ztdm5klbrs5l2Kg7SiXjRvLP";

/// The same claims, signed on the larger curve.
const P384_X: &str = "5tU41gHqj9wrd6IKcH23EMY3Iw5t5xilAJov4J34Rij8aiAS2ppGDxrQZFFAx5NS";
const P384_Y: &str = "GfryFT33oyj1V00x2OaMaI69GQ7A5MbELeybZ3GOvdWCDIHdq6OsOnCswmNNdPcp";
const ES384_INPUT: &str = "eyJhbGciOiJFUzM4NCIsImtpZCI6InAzODQta2V5In0.eyJzdWIiOiJhbGljZSIsImlzcyI6Imh0dHBzOi8vaXNzdWVyLmV4YW1wbGUiLCJhdWQiOiJnYXRld2F5IiwiZXhwIjo5OTk5OTk5OTk5fQ";
const ES384_RAW: &str = "6ub1DQWxzTtro8S8yUFwHfK6arhBzCNoyEH6NfHYfDKCNZP7-7dLscMexFLTWY9vaWiWmRjrKV0ggwq0BbBnmFgGBrfQO4_NG2M0sx7sdjthGHhzKQ-0Ed4FUuMG_YnS";
const ES384_DER: &str = "MGUCMQDq5vUNBbHNO2ujxLzJQXAd8rpquEHMI2jIQfo18dh8MoI1k_v7t0uxwx7EUtNZj28CMGlolpkY6yldIIMKtAWwZ5hYBga30DuPzRtjNLMe7HY7YRh4cykPtBHeBVLjBv2J0g";

const SECRET: &[u8] = b"test-secret-at-least-256-bits!!!";

fn token_of(input: &str, signature: &str) -> String {
    format!("{input}.{signature}")
}

fn ec_key() -> DecodingKey {
    DecodingKey::from_ec_components(EC_X, EC_Y).unwrap()
}

fn claims(members: &[(&str, Value)]) -> Value {
    let mut object = serde_json::Map::new();
    for (name, value) in members {
        object.insert(name.to_string(), value.clone());
    }
    Value::Object(object)
}

fn hs256_token(claims: &Value) -> String {
    let header = Header::new(jsonwebtoken::Algorithm::HS256);
    jsonwebtoken::encode(&header, claims, &EncodingKey::from_secret(SECRET)).unwrap()
}

fn check(config: &GatewayOidcConfig, claims: &Value) -> Result<String, OidcError> {
    let key = DecodingKey::from_secret(SECRET);
    check_jwt(config, &hs256_token(claims), &key, Algorithm::HS256)
}

fn config(issuer: Option<&str>, audience: Option<&str>) -> GatewayOidcConfig {
    GatewayOidcConfig {
        header: "x-amzn-oidc-data".to_string(),
        jwks_url: "https://keys.example/jwks".to_string(),
        issuer: issuer.map(str::to_string),
        audience: audience.map(str::to_string),
    }
}

fn far_future() -> Value {
    Value::from(9999999999u64)
}

fn refused(text: &str) -> Result<String, OidcError> {
    Err(OidcError::InvalidClaims(text.to_string()))
}

// Normalization.

#[test]
fn test_normalize_jwt_noop_for_rfc_compliant() {
    let jwt = "eyJhbGciOiJIUzI1NiJ9.eyJzdWIiOiJ0ZXN0In0.sig";
    assert_eq!(normalize_jwt_for_claims(jwt), jwt);
}

#[test]
fn test_normalize_jwt_strips_padding() {
    let jwt = "eyJhbGciOiJIUzI1NiJ9==.eyJzdWIiOiJ0ZXN0In0=.c2ln";
    let normalized = normalize_jwt_for_claims(jwt);
    assert!(!normalized.contains('='));
    assert!(normalized.starts_with("eyJhbGciOiJIUzI1NiJ9."));
}

#[test]
fn test_normalize_b64_segment_no_padding() {
    assert_eq!(normalize_b64_segment("abc"), "abc");
}

#[test]
fn test_normalize_b64_segment_with_padding() {
    assert_eq!(normalize_b64_segment("abc=="), "abc");
}

#[test]
fn padding_inside_a_segment_stays() {
    assert_eq!(normalize_b64_segment("=a=b="), "=a=b");
    assert_eq!(normalize_b64_segment("==="), "");
    assert_eq!(normalize_b64_segment(""), "");
}

#[test]
fn all_three_segments_lose_their_padding() {
    assert_eq!(normalize_jwt_for_claims("a=.b==.c==="), "a.b.c");
    assert_eq!(normalize_jwt_for_claims("=.=.="), "..");
}

#[test]
fn other_numbers_of_segments_stay_as_they_are() {
    for text in ["", "a=", "a=.b=", "a=.b=.c=.d=", "....="] {
        assert_eq!(normalize_jwt_for_claims(text), text);
    }
}

#[test]
fn normalizing_twice_changes_nothing() {
    let once = normalize_jwt_for_claims("a==.b=.c");
    assert_eq!(normalize_jwt_for_claims(&once), once);
}

// Signature.

#[test]
fn test_verify_signature_rejects_tampered_payload() {
    let secret = b"test-secret-at-least-256-bits!!!";
    let header = Header::new(jsonwebtoken::Algorithm::HS256);
    let mut object = serde_json::Map::new();
    object.insert("sub".to_string(), Value::from("alice"));
    object.insert("exp".to_string(), Value::from(9999999999u64));
    let claims = Value::Object(object);
    let token = jsonwebtoken::encode(&header, &claims, &EncodingKey::from_secret(secret)).unwrap();

    // Valid signature should pass.
    let key = DecodingKey::from_secret(secret);
    assert!(verify_signature(&token, &key, Algorithm::HS256).is_ok());

    // Tamper with the payload: the signature should fail.
    let parts: Vec<&str> = token.split('.').collect();
    let tampered = format!("{}.{}.{}", parts[0], "dGFtcGVyZWQ", parts[2]);
    assert!(verify_signature(&tampered, &key, Algorithm::HS256).is_err());
}

#[test]
fn raw_and_der_signatures_are_both_accepted() {
    for signature in [ES256_RAW, ES256_DER] {
        let token = token_of(ES256_INPUT, signature);
        assert_eq!(verify_signature(&token, &ec_key(), Algorithm::ES256), Ok(()));
    }
    let key = DecodingKey::from_ec_components(P384_X, P384_Y).unwrap();
    for signature in [ES384_RAW, ES384_DER] {
        let token = token_of(ES384_INPUT, signature);
        assert_eq!(verify_signature(&token, &key, Algorithm::ES384), Ok(()));
    }
}

#[test]
fn signature_is_over_the_padded_text() {
    for signature in [PADDED_RAW, PADDED_DER] {
        let token = token_of(PADDED_INPUT, signature);
        assert_eq!(verify_signature(&token, &ec_key(), Algorithm::ES256), Ok(()));
        // Without the padding of header and payload it is another text.
        let normalized = normalize_jwt_for_claims(&token);
        assert_eq!(
            verify_signature(&normalized, &ec_key(), Algorithm::ES256),
            Err(OidcError::InvalidSignature)
        );
    }
}

#[test]
fn padding_of_the_signature_is_tolerated() {
    for padding in ["", "=", "==", "====="] {
        let token = format!("{ES256_INPUT}.{ES256_RAW}{padding}");
        assert_eq!(verify_signature(&token, &ec_key(), Algorithm::ES256), Ok(()));
    }
}

#[test]
fn signature_needs_three_segments() {
    let key = DecodingKey::from_secret(SECRET);
    for text in ["", "a", "a.b", "a.b.c.d"] {
        assert_eq!(
            verify_signature(text, &key, Algorithm::HS256),
            Err(OidcError::InvalidSignature)
        );
    }
}

#[test]
fn signature_must_be_base64() {
    let token = token_of(ES256_INPUT, "!!");
    assert_eq!(
        verify_signature(&token, &ec_key(), Algorithm::ES256),
        Err(OidcError::InvalidSignature)
    );
}

#[test]
fn key_and_algorithm_must_match() {
    let token = token_of(ES256_INPUT, ES256_RAW);
    for alg in [Algorithm::ES384, Algorithm::RS256, Algorithm::HS256, Algorithm::EdDSA] {
        assert_eq!(
            verify_signature(&token, &ec_key(), alg),
            Err(OidcError::InvalidSignature)
        );
    }
    let other = DecodingKey::from_ec_components(EC_Y, EC_X).unwrap();
    assert_eq!(
        verify_signature(&token, &other, Algorithm::ES256),
        Err(OidcError::InvalidSignature)
    );
}

#[test]
fn only_a_positive_verdict_is_accepted() {
    assert_eq!(accept_verdict(Ok(true)), Ok(()));
    assert_eq!(accept_verdict(Ok(false)), Err(OidcError::InvalidSignature));
    let error = Error::from(ErrorKind::InvalidKeyFormat);
    assert_eq!(accept_verdict(Err(error)), Err(OidcError::InvalidSignature));
}

#[test]
fn der_signature_is_presented_raw() {
    let der = URL_SAFE_NO_PAD.decode(ES256_DER).unwrap();
    let raw = URL_SAFE_NO_PAD.decode(ES256_RAW).unwrap();
    assert_eq!(signature_to_present(der.clone(), Algorithm::ES256), raw);
    assert_eq!(signature_to_present(raw.clone(), Algorithm::ES256), raw);
    assert_eq!(signature_to_present(der.clone(), Algorithm::RS256), der);
}

// Key request.

#[test]
fn header_names_key_and_algorithm() {
    let token = token_of(ES256_INPUT, ES256_RAW);
    assert_eq!(
        requested_key(&token),
        Ok(("ec-key".to_string(), Algorithm::ES256))
    );
    let padded = token_of(PADDED_INPUT, PADDED_RAW);
    assert_eq!(
        requested_key(&padded),
        Ok(("ec-key-1".to_string(), Algorithm::ES256))
    );
    let larger = token_of(ES384_INPUT, ES384_RAW);
    assert_eq!(
        requested_key(&larger),
        Ok(("p384-key".to_string(), Algorithm::ES384))
    );
}

#[test]
fn every_algorithm_is_read_under_its_name() {
    for (name, alg) in [
        ("HS256", Algorithm::HS256),
        ("HS384", Algorithm::HS384),
        ("HS512", Algorithm::HS512),
        ("ES256", Algorithm::ES256),
        ("ES384", Algorithm::ES384),
        ("RS256", Algorithm::RS256),
        ("RS384", Algorithm::RS384),
        ("RS512", Algorithm::RS512),
        ("PS256", Algorithm::PS256),
        ("PS384", Algorithm::PS384),
        ("PS512", Algorithm::PS512),
        ("EdDSA", Algorithm::EdDSA),
    ] {
        let header = URL_SAFE_NO_PAD.encode(format!("{{\"alg\":\"{name}\",\"kid\":\"k\"}}"));
        assert_eq!(
            requested_key(&format!("{header}.e30.e30")),
            Ok(("k".to_string(), alg))
        );
    }
}

#[test]
fn header_without_key_identifier_is_refused() {
    let token = hs256_token(&claims(&[("exp", far_future())]));
    assert_eq!(requested_key(&token), Err(OidcError::MissingKid));
    assert_eq!(
        request_from_header(Ok((None, Algorithm::ES256))),
        Err(OidcError::MissingKid)
    );
}

#[test]
fn malformed_header_is_refused() {
    assert_eq!(
        requested_key("no dots"),
        Err(OidcError::InvalidClaims(
            "malformed header: InvalidToken".to_string()
        ))
    );
    let error = Error::from(ErrorKind::InvalidToken);
    assert_eq!(
        request_from_header(Err(error)),
        Err(OidcError::InvalidClaims(
            "malformed header: InvalidToken".to_string()
        ))
    );
    assert_eq!(
        request_from_header(Ok((Some("k".to_string()), Algorithm::RS512))),
        Ok(("k".to_string(), Algorithm::RS512))
    );
}

// Claims.

#[test]
fn subject_is_returned() {
    let members = [("sub", Value::from("alice")), ("exp", far_future())];
    assert_eq!(check(&config(None, None), &claims(&members)), Ok("alice".to_string()));
}

#[test]
fn missing_subject_is_unknown() {
    let members = [("exp", far_future())];
    assert_eq!(check(&config(None, None), &claims(&members)), Ok("unknown".to_string()));
    let members = [("sub", Value::from(7)), ("exp", far_future())];
    assert_eq!(check(&config(None, None), &claims(&members)), Ok("unknown".to_string()));
    assert_eq!(subject_from_claims(Ok(Value::Null)), Ok("unknown".to_string()));
}

#[test]
fn refused_claims_are_reported() {
    let error = Error::from(ErrorKind::ExpiredSignature);
    assert_eq!(subject_from_claims(Err(error)), refused("ExpiredSignature"));
}

#[test]
fn expired_token_is_refused() {
    let members = [("sub", Value::from("alice")), ("exp", Value::from(1000000000u64))];
    assert_eq!(check(&config(None, None), &claims(&members)), refused("ExpiredSignature"));
}

#[test]
fn token_without_expiry_is_refused() {
    let members = [("sub", Value::from("alice"))];
    assert_eq!(
        check(&config(None, None), &claims(&members)),
        refused("Missing required claim: exp")
    );
}

#[test]
fn issuer_must_be_the_configured_one() {
    let members = [
        ("sub", Value::from("alice")),
        ("iss", Value::from("https://issuer.example")),
        ("exp", far_future()),
    ];
    let claims = claims(&members);
    assert_eq!(
        check(&config(Some("https://issuer.example"), None), &claims),
        Ok("alice".to_string())
    );
    assert_eq!(
        check(&config(Some("https://other.example"), None), &claims),
        refused("InvalidIssuer")
    );
    // Without a configured issuer any will do.
    assert_eq!(check(&config(None, None), &claims), Ok("alice".to_string()));
}

#[test]
fn audience_counts_where_one_is_configured() {
    let members = [
        ("sub", Value::from("alice")),
        ("aud", Value::from("gateway")),
        ("exp", far_future()),
    ];
    let claims = claims(&members);
    assert_eq!(check(&config(None, Some("gateway")), &claims), Ok("alice".to_string()));
    assert_eq!(
        check(&config(None, Some("other")), &claims),
        refused("InvalidAudience")
    );
    assert_eq!(check(&config(None, None), &claims), Ok("alice".to_string()));
}

#[test]
fn signature_is_checked_before_the_claims() {
    let members = [("exp", Value::from(1000000000u64))];
    let key = DecodingKey::from_secret(b"another secret");
    assert_eq!(
        check_jwt(
            &config(None, None),
            &hs256_token(&claims(&members)),
            &key,
            Algorithm::HS256
        ),
        Err(OidcError::InvalidSignature)
    );
}

#[test]
fn padded_token_is_checked() {
    let issuer = Some("https://issuer.example");
    let token = token_of(PADDED_INPUT, PADDED_RAW);
    assert_eq!(
        check_jwt(&config(issuer, Some("gateway")), &token, &ec_key(), Algorithm::ES256),
        Ok("alice".to_string())
    );
}

#[test]
fn validation_holds_the_configured_rules() {
    let validation = claim_validation(&config(Some("i"), Some("a")), Algorithm::ES384);
    assert_eq!(validation.algorithms, vec![jsonwebtoken::Algorithm::ES384]);
    assert!(validation.validate_exp);
    assert!(!validation.validate_nbf);
    assert!(validation.validate_aud);
    assert_eq!(validation.leeway, 60);
    assert_eq!(validation.reject_tokens_expiring_in_less_than, 0);
    assert_eq!(validation.sub, None);
    let issuers = validation.iss.unwrap();
    assert!(issuers.len() == 1 && issuers.contains("i"));
    let audiences = validation.aud.unwrap();
    assert!(audiences.len() == 1 && audiences.contains("a"));
    let required = validation.required_spec_claims;
    assert!(required.len() == 1 && required.contains("exp"));

    let open = claim_validation(&config(None, None), Algorithm::RS256);
    assert_eq!(open.iss, None);
    assert_eq!(open.aud, None);
    assert!(!open.validate_aud);
    assert!(open.validate_exp);
}

#[test]
fn accepting_a_token_twice_gives_the_same_subject() {
    let members = [("sub", Value::from("alice")), ("exp", far_future())];
    let claims = claims(&members);
    let first = check(&config(None, None), &claims);
    assert_eq!(first, Ok("alice".to_string()));
    assert_eq!(check(&config(None, None), &claims), first);
}

fn seconds_now() -> u64 {
    SystemTime::now().duration_since(UNIX_EPOCH).unwrap().as_secs()
}

fn list(items: &[&str]) -> Value {
    Value::Array(items.iter().map(|item| Value::from(*item)).collect())
}

#[test]
fn token_expires_a_minute_after_its_time() {
    let at = |exp: u64| claims(&[("sub", Value::from("alice")), ("exp", Value::from(exp))]);
    let open = config(None, None);
    assert_eq!(check(&open, &at(seconds_now() - 30)), Ok("alice".to_string()));
    assert_eq!(check(&open, &at(seconds_now() + 30)), Ok("alice".to_string()));
    assert_eq!(check(&open, &at(seconds_now() - 90)), refused("ExpiredSignature"));
}

#[test]
fn empty_claims_are_refused() {
    assert_eq!(
        check(&config(None, None), &claims(&[])),
        refused("Missing required claim: exp")
    );
}

#[test]
fn one_of_several_issuers_and_audiences_is_enough() {
    let both = [
        ("sub", Value::from("alice")),
        ("iss", list(&["other", "i"])),
        ("aud", list(&["a", "other"])),
        ("exp", far_future()),
    ];
    let both = claims(&both);
    assert_eq!(check(&config(Some("i"), Some("a")), &both), Ok("alice".to_string()));
    assert_eq!(check(&config(Some("x"), Some("a")), &both), refused("InvalidIssuer"));
    assert_eq!(check(&config(Some("i"), Some("x")), &both), refused("InvalidAudience"));
    assert_eq!(check(&config(None, None), &both), Ok("alice".to_string()));
    let none = claims(&[("iss", list(&[])), ("exp", far_future())]);
    assert_eq!(check(&config(Some("i"), None), &none), refused("InvalidIssuer"));
}

#[test]
fn claims_are_read() {
    let value = claims(&[
        ("sub", Value::from("alice")),
        ("exp", Value::from(7u64)),
        ("iss", Value::from("i")),
        ("aud", list(&["a", "b"])),
    ]);
    assert_eq!(
        read_claims(&value),
        Claims {
            object: true,
            subject: Some("alice".to_string()),
            expiry: Some(7),
            issuers: Some(vec!["i".to_string()]),
            audiences: Some(vec!["a".to_string(), "b".to_string()]),
        }
    );
    let odd = claims(&[
        ("sub", Value::from(1)),
        ("exp", Value::from(-7)),
        ("iss", Value::Array(vec![Value::from("i"), Value::Null])),
        ("aud", list(&[])),
    ]);
    assert_eq!(
        read_claims(&odd),
        Claims {
            object: true,
            subject: None,
            expiry: None,
            issuers: None,
            audiences: Some(Vec::new()),
        }
    );
    assert_eq!(
        read_claims(&list(&["sub"])),
        Claims {
            object: false,
            subject: None,
            expiry: None,
            issuers: None,
            audiences: None,
        }
    );
}

#[test]
fn signature_must_be_in_its_one_encoding() {
    // The last character holds two bits that are not used.
    let key = DecodingKey::from_secret(SECRET);
    let token = hs256_token(&claims(&[("exp", far_future())]));
    assert_eq!(verify_signature(&token, &key, Algorithm::HS256), Ok(()));
    let (rest, last) = token.split_at(token.len() - 1);
    let alphabet = "ABCDEFGHIJKLMNOPQRSTUVWXYZabcdefghijklmnopqrstuvwxyz0123456789-_";
    let at = alphabet.find(last).unwrap();
    assert_eq!(at % 4, 0);
    let other = format!("{rest}{}", &alphabet[at + 1..at + 2]);
    assert_eq!(
        verify_signature(&other, &key, Algorithm::HS256),
        Err(OidcError::InvalidSignature)
    );
}
