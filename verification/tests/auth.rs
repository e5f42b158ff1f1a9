use axum::body::Body;
use axum::http::{HeaderMap, HeaderValue, Method, Request};
use gateway_auth::auth::{
    allows_query_token_auth, bearer_matches, decide, query_token, query_token_matches, read_header,
    same_token, token_among,
};
use gateway_auth::key_cache::CachedKey;
use gateway_auth::{
    auth_middleware, resume_auth, Algorithm, AuthOutcome, AuthState, AuthStep, FetchFailure,
    GatewayOidcConfig, KeyCache, KeyLocation, OidcError, OidcState, PendingKey,
};
use jsonwebtoken::DecodingKey;

const TEST_BEARER_TOKEN: &str = "test-bearer-token";
const TEST_AUTH_SECRET_TOKEN: &str = "test-auth-secret-token";

const OK: u16 = 200;
const UNAUTHORIZED: u16 = 401;

const EC_PEM: &str = "-----BEGIN PUBLIC KEY-----
MFkwEwYHKoZIzj0CAQYIKoZIzj0DAQcDQgAEf83OJ3D2xF1Bg8vub9tLe1gHMzV7
6e8Tus9uPHvRVEXH8UTNG72bfocs3+257rn0s2ldbqkLJK2KRiMohYjlrQ==
-----END PUBLIC KEY-----
";

/// For `alice`, from `https://issuer.example`, to `gateway`, with padding.
const PADDED_TOKEN: &str = "eyJhbGciOiJFUzI1NiIsImtpZCI6ImVjLWtleS0xIn0=.eyJzdWIiOiJhbGljZSIsImlzcyI6Imh0dHBzOi8vaXNzdWVyLmV4YW1wbGUiLCJhdWQiOiJnYXRld2F5IiwiZXhwIjo5OTk5OTk5OTk5fQ==.-uVXcbTOXXVVkkks97tZcpbowIw4nx1Eceyq4oC6ku6hxV3uC14lsBB8Wpdwt87XZuZJW67OZdioO0ol40byzw==";

fn outcome(token: &str, request: &Request<Body>) -> AuthOutcome {
    let state = AuthState {
        token: token.to_string(),
        oidc: None,
    };
    match auth_middleware(&state, &KeyCache::new(), request.headers(), request, 0) {
        AuthStep::Decided(outcome) => outcome,
        AuthStep::Fetch { .. } => panic!("nothing to fetch"),
    }
}

fn status(token: &str, request: Request<Body>) -> u16 {
    match outcome(token, &request).refusal() {
        None => OK,
        Some(refusal) => refusal.status,
    }
}

fn get(uri: &str) -> Request<Body> {
    Request::builder().uri(uri).body(Body::empty()).unwrap()
}

fn with_authorization(uri: &str, value: &str) -> Request<Body> {
    Request::builder()
        .uri(uri)
        .header("Authorization", value)
        .body(Body::empty())
        .unwrap()
}

fn oidc_config() -> GatewayOidcConfig {
    GatewayOidcConfig {
        header: "x-amzn-oidc-data".to_string(),
        jwks_url: "https://keys.example/{kid}".to_string(),
        issuer: Some("https://issuer.example".to_string()),
        audience: Some("gateway".to_string()),
    }
}

fn oidc_state() -> AuthState {
    AuthState {
        token: TEST_AUTH_SECRET_TOKEN.to_string(),
        oidc: Some(OidcState::from_config(&oidc_config())),
    }
}

fn with_jwt(uri: &str, jwt: &str) -> Request<Body> {
    Request::builder()
        .uri(uri)
        .header("x-amzn-oidc-data", jwt)
        .body(Body::empty())
        .unwrap()
}

#[test]
fn test_auth_state_clone() {
    let state = AuthState {
        token: TEST_BEARER_TOKEN.to_string(),
        oidc: None,
    };
    let cloned = state.clone();
    assert_eq!(cloned.token, TEST_BEARER_TOKEN);
}

#[test]
fn test_valid_bearer_token_passes() {
    let req = with_authorization(
        "/api/chat/events",
        &format!("Bearer {TEST_AUTH_SECRET_TOKEN}"),
    );
    assert_eq!(status(TEST_AUTH_SECRET_TOKEN, req), OK);
}

#[test]
fn test_invalid_bearer_token_rejected() {
    let req = with_authorization("/api/chat/events", "Bearer wrong-token");
    assert_eq!(status(TEST_AUTH_SECRET_TOKEN, req), UNAUTHORIZED);
}

#[test]
fn test_query_token_allowed_for_chat_events() {
    let req = get(&format!("/api/chat/events?token={TEST_AUTH_SECRET_TOKEN}"));
    assert_eq!(status(TEST_AUTH_SECRET_TOKEN, req), OK);
}

#[test]
fn test_query_token_allowed_for_logs_events() {
    let req = get(&format!("/api/logs/events?token={TEST_AUTH_SECRET_TOKEN}"));
    assert_eq!(status(TEST_AUTH_SECRET_TOKEN, req), OK);
}

#[test]
fn test_query_token_allowed_for_ws_upgrade() {
    let req = get(&format!("/api/chat/ws?token={TEST_AUTH_SECRET_TOKEN}"));
    assert_eq!(status(TEST_AUTH_SECRET_TOKEN, req), OK);
}

#[test]
fn test_query_token_url_encoded() {
    // Token with characters that get percent-encoded in URLs.
    let raw_token = "tok+en/with spaces";
    let req = get("/api/chat/events?token=tok%2Ben%2Fwith%20spaces");
    assert_eq!(status(raw_token, req), OK);
}

#[test]
fn test_query_token_url_encoded_mismatch() {
    // Encoded value decodes to "wrong-token", not "real-token".
    let req = get("/api/chat/events?token=wrong%2Dtoken");
    assert_eq!(status("real-token", req), UNAUTHORIZED);
}

#[test]
fn test_query_token_rejected_for_non_sse_get() {
    let req = get(&format!("/api/chat/history?token={TEST_AUTH_SECRET_TOKEN}"));
    assert_eq!(status(TEST_AUTH_SECRET_TOKEN, req), UNAUTHORIZED);
}

#[test]
fn test_query_token_rejected_for_post() {
    let req = Request::builder()
        .method(Method::POST)
        .uri(format!("/api/chat/send?token={TEST_AUTH_SECRET_TOKEN}"))
        .body(Body::empty())
        .unwrap();
    assert_eq!(status(TEST_AUTH_SECRET_TOKEN, req), UNAUTHORIZED);
}

#[test]
fn test_query_token_invalid_rejected() {
    let req = get("/api/chat/events?token=wrong-token");
    assert_eq!(status(TEST_AUTH_SECRET_TOKEN, req), UNAUTHORIZED);
}

#[test]
fn test_no_auth_at_all_rejected() {
    assert_eq!(
        status(TEST_AUTH_SECRET_TOKEN, get("/api/chat/events")),
        UNAUTHORIZED
    );
}

#[test]
fn test_bearer_header_works_for_post() {
    let req = Request::builder()
        .method(Method::POST)
        .uri("/api/chat/send")
        .header("Authorization", format!("Bearer {TEST_AUTH_SECRET_TOKEN}"))
        .body(Body::empty())
        .unwrap();
    assert_eq!(status(TEST_AUTH_SECRET_TOKEN, req), OK);
}

#[test]
fn test_bearer_prefix_case_insensitive() {
    let req = with_authorization(
        "/api/chat/events",
        &format!("bearer {TEST_AUTH_SECRET_TOKEN}"),
    );
    assert_eq!(status(TEST_AUTH_SECRET_TOKEN, req), OK);
}

#[test]
fn test_bearer_prefix_mixed_case() {
    let req = with_authorization(
        "/api/chat/events",
        &format!("BEARER {TEST_AUTH_SECRET_TOKEN}"),
    );
    assert_eq!(status(TEST_AUTH_SECRET_TOKEN, req), OK);
}

#[test]
fn test_empty_bearer_token_rejected() {
    let req = with_authorization("/api/chat/events", "Bearer ");
    assert_eq!(status(TEST_AUTH_SECRET_TOKEN, req), UNAUTHORIZED);
}

#[test]
fn test_token_with_whitespace_rejected() {
    let req = with_authorization(
        "/api/chat/events",
        &format!("Bearer  {TEST_AUTH_SECRET_TOKEN}"),
    );
    assert_eq!(status(TEST_AUTH_SECRET_TOKEN, req), UNAUTHORIZED);
}

// Bearer tokens.

#[test]
fn bearer_value_needs_scheme_space_and_token() {
    assert!(bearer_matches("Bearer abc", "abc"));
    assert!(bearer_matches("bEaReR abc", "abc"));
    assert!(!bearer_matches("Bearer abcd", "abc"));
    assert!(!bearer_matches("Bearer ab", "abc"));
    assert!(!bearer_matches("Bearer  abc", "abc"));
    assert!(!bearer_matches("Bearer\tabc", "abc"));
    assert!(!bearer_matches("Basic abc", "abc"));
    assert!(!bearer_matches("Bearers abc", "abc"));
    assert!(!bearer_matches("abc", "abc"));
    assert!(!bearer_matches("", ""));
}

#[test]
fn empty_token_is_never_a_bearer_token() {
    assert!(!bearer_matches("Bearer ", ""));
    let req = with_authorization("/api/chat/events", "Bearer ");
    assert_eq!(status("", req), UNAUTHORIZED);
}

#[test]
fn tokens_are_compared_whole() {
    assert!(same_token("", ""));
    assert!(same_token("tökén", "tökén"));
    assert!(!same_token("abc", "abd"));
    assert!(!same_token("abc", "ab"));
    assert!(!same_token("ABC", "abc"));
}

#[test]
fn bearer_token_wins_over_oidc_token() {
    let request = Request::builder()
        .uri("/api/chat/history")
        .header("Authorization", format!("Bearer {TEST_AUTH_SECRET_TOKEN}"))
        .header("x-amzn-oidc-data", PADDED_TOKEN)
        .body(Body::empty())
        .unwrap();
    match auth_middleware(&oidc_state(), &KeyCache::new(), request.headers(), &request, 0) {
        AuthStep::Decided(outcome) => assert_eq!(
            outcome,
            AuthOutcome {
                allowed: true,
                oidc: None
            }
        ),
        AuthStep::Fetch { .. } => panic!("no key is needed"),
    }
}

// Headers.

#[test]
fn first_value_of_a_header_counts() {
    let mut headers = HeaderMap::new();
    headers.append("x-name", HeaderValue::from_static("one"));
    headers.append("x-name", HeaderValue::from_static("two"));
    assert_eq!(read_header(&headers, "X-Name"), Some("one"));
    assert_eq!(read_header(&headers, "x-other"), None);
    assert_eq!(read_header(&headers, "not a header name"), None);
}

#[test]
fn header_that_is_not_visible_ascii_is_not_read() {
    let mut headers = HeaderMap::new();
    headers.insert("x-name", HeaderValue::from_bytes(b"caf\xc3\xa9").unwrap());
    assert_eq!(read_header(&headers, "x-name"), None);
    headers.insert("x-name", HeaderValue::from_static("a\tb c"));
    assert_eq!(read_header(&headers, "x-name"), Some("a\tb c"));
}

#[test]
fn token_outside_ascii_is_not_a_bearer_token() {
    let mut request = get("/api/chat/events");
    let value = HeaderValue::from_bytes("Bearer tökén".as_bytes()).unwrap();
    request.headers_mut().insert("authorization", value);
    assert_eq!(status("tökén", request), UNAUTHORIZED);
}

// Query parameter.

#[test]
fn query_auth_is_for_streaming_gets() {
    assert!(allows_query_token_auth(&get("/api/chat/events")));
    assert!(allows_query_token_auth(&get("/api/logs/events?x=1")));
    assert!(allows_query_token_auth(&get("/api/chat/ws")));
    assert!(!allows_query_token_auth(&get("/api/chat/ws/")));
    assert!(!allows_query_token_auth(&get("/API/chat/ws")));
    assert!(!allows_query_token_auth(&get("/")));
    for method in [Method::POST, Method::HEAD, Method::OPTIONS] {
        let request = Request::builder()
            .method(method)
            .uri("/api/chat/events")
            .body(Body::empty())
            .unwrap();
        assert!(!allows_query_token_auth(&request));
    }
}

#[test]
fn query_token_is_decoded() {
    assert_eq!(query_token(&get("/a?token=b%20c+d")), Some("b c d".to_string()));
    assert_eq!(query_token(&get("/a?%74oken=x")), Some("x".to_string()));
    assert_eq!(query_token(&get("/a?token")), Some(String::new()));
    assert_eq!(query_token(&get("/a?other=x")), None);
    assert_eq!(query_token(&get("/a?Token=x")), None);
    assert_eq!(query_token(&get("/a?")), None);
    assert_eq!(query_token(&get("/a")), None);
}

#[test]
fn first_token_parameter_counts() {
    assert_eq!(
        query_token(&get("/a?x=1&token=first&token=second")),
        Some("first".to_string())
    );
    let pairs = vec![
        ("x".to_string(), "1".to_string()),
        ("token".to_string(), "first".to_string()),
        ("token".to_string(), "second".to_string()),
    ];
    assert_eq!(token_among(&pairs), Some("first".to_string()));
    assert_eq!(token_among(&Vec::new()), None);
}

#[test]
fn query_token_must_match_and_be_allowed() {
    assert!(query_token_matches(&get("/api/chat/ws?token=abc"), "abc"));
    assert!(!query_token_matches(&get("/api/chat/ws?token=abcd"), "abc"));
    assert!(!query_token_matches(&get("/api/chat/ws"), "abc"));
    assert!(!query_token_matches(&get("/api/chat/send?token=abc"), "abc"));
}

#[test]
fn wrong_bearer_token_falls_back_to_query() {
    let req = with_authorization("/api/chat/ws?token=abc", "Bearer wrong");
    assert_eq!(status("abc", req), OK);
}

// Decision.

#[test]
fn refusal_never_says_why() {
    let silent = AuthOutcome {
        allowed: false,
        oidc: None,
    };
    let failed = AuthOutcome {
        allowed: false,
        oidc: Some(Err(OidcError::KeyFetch("secret detail".to_string()))),
    };
    assert_eq!(silent.refusal(), failed.refusal());
    let refusal = failed.refusal().unwrap();
    assert_eq!(refusal.status, 401);
    assert_eq!(refusal.body, "Invalid or missing auth token");
    let passed = AuthOutcome {
        allowed: true,
        oidc: None,
    };
    assert_eq!(passed.refusal(), None);
}

#[test]
fn accepted_oidc_token_decides() {
    let request = get("/api/chat/history");
    let accepted = decide(&request, "abc", Some(Ok("alice".to_string())));
    assert!(accepted.allowed);
    assert_eq!(accepted.oidc, Some(Ok("alice".to_string())));
    let refused = decide(&request, "abc", Some(Err(OidcError::InvalidSignature)));
    assert!(!refused.allowed);
    assert_eq!(refused.oidc, Some(Err(OidcError::InvalidSignature)));
}

#[test]
fn refused_oidc_token_leaves_it_to_the_query() {
    let request = with_jwt(
        &format!("/api/chat/events?token={TEST_AUTH_SECRET_TOKEN}"),
        "not a token",
    );
    match auth_middleware(&oidc_state(), &KeyCache::new(), request.headers(), &request, 0) {
        AuthStep::Decided(outcome) => {
            assert!(outcome.allowed);
            assert!(matches!(outcome.oidc, Some(Err(OidcError::InvalidClaims(_)))));
        }
        AuthStep::Fetch { .. } => panic!("no key is named"),
    }
}

#[test]
fn malformed_oidc_token_is_refused() {
    let request = with_jwt("/api/chat/history", "not a token");
    match auth_middleware(&oidc_state(), &KeyCache::new(), request.headers(), &request, 0) {
        AuthStep::Decided(outcome) => {
            assert_eq!(outcome.refusal().unwrap().status, 401);
            assert_eq!(
                outcome.oidc,
                Some(Err(OidcError::InvalidClaims(
                    "malformed header: InvalidToken".to_string()
                )))
            );
        }
        AuthStep::Fetch { .. } => panic!("no key is named"),
    }
}

#[test]
fn oidc_token_without_configuration_is_not_looked_at() {
    let request = with_jwt("/api/chat/history", PADDED_TOKEN);
    let decided = outcome(TEST_AUTH_SECRET_TOKEN, &request);
    assert_eq!(
        decided,
        AuthOutcome {
            allowed: false,
            oidc: None
        }
    );
}

#[test]
fn oidc_token_is_accepted_after_its_key_is_fetched() {
    let state = oidc_state();
    let mut cache = KeyCache::new();
    let request = with_jwt("/api/chat/history", PADDED_TOKEN);
    let (jwt, pending) = match auth_middleware(&state, &cache, request.headers(), &request, 10) {
        AuthStep::Fetch { jwt, pending } => (jwt, pending),
        AuthStep::Decided(_) => panic!("the key is not at hand"),
    };
    assert_eq!(jwt, PADDED_TOKEN);
    assert_eq!(pending.kid, "ec-key-1");
    assert_eq!(
        pending.location,
        KeyLocation::SingleKey("https://keys.example/ec-key-1".to_string())
    );
    let done = resume_auth(&state, &mut cache, &request, &jwt, &pending, Ok(EC_PEM.to_string()), 20);
    assert!(done.allowed);
    assert_eq!(done.oidc, Some(Ok("alice".to_string())));

    // The key is kept: the next request is decided at once.
    match auth_middleware(&state, &cache, request.headers(), &request, 30) {
        AuthStep::Decided(outcome) => assert!(outcome.allowed),
        AuthStep::Fetch { .. } => panic!("the key is at hand"),
    }
}

#[test]
fn failed_fetch_refuses_the_request() {
    let state = oidc_state();
    let mut cache = KeyCache::new();
    let request = with_jwt("/api/chat/history", PADDED_TOKEN);
    let (jwt, pending) = match auth_middleware(&state, &cache, request.headers(), &request, 0) {
        AuthStep::Fetch { jwt, pending } => (jwt, pending),
        AuthStep::Decided(_) => panic!("the key is not at hand"),
    };
    let answer = Err(FetchFailure::Request("timed out".to_string()));
    let done = resume_auth(&state, &mut cache, &request, &jwt, &pending, answer, 0);
    assert!(!done.allowed);
    assert_eq!(
        done.oidc,
        Some(Err(OidcError::KeyFetch(
            "HTTP request to https://keys.example/ec-key-1: timed out".to_string()
        )))
    );
    // Nothing was kept.
    assert!(matches!(
        auth_middleware(&state, &cache, request.headers(), &request, 0),
        AuthStep::Fetch { .. }
    ));
}

#[test]
fn failed_fetch_leaves_it_to_the_query() {
    let state = oidc_state();
    let mut cache = KeyCache::new();
    let request = with_jwt(
        &format!("/api/chat/events?token={TEST_AUTH_SECRET_TOKEN}"),
        PADDED_TOKEN,
    );
    let (jwt, pending) = match auth_middleware(&state, &cache, request.headers(), &request, 0) {
        AuthStep::Fetch { jwt, pending } => (jwt, pending),
        AuthStep::Decided(_) => panic!("the key is not at hand"),
    };
    let answer = Err(FetchFailure::Status("404".to_string()));
    let done = resume_auth(&state, &mut cache, &request, &jwt, &pending, answer, 0);
    assert!(done.allowed);
    assert!(matches!(done.oidc, Some(Err(OidcError::KeyFetch(_)))));
}

#[test]
fn resuming_without_oidc_checks_no_token() {
    let state = AuthState {
        token: "abc".to_string(),
        oidc: None,
    };
    let mut cache = KeyCache::new();
    let pending = PendingKey {
        kid: "ec-key-1".to_string(),
        alg: Algorithm::ES256,
        location: KeyLocation::SingleKey("https://keys.example/ec-key-1".to_string()),
    };
    let request = get("/api/chat/history");
    let done = resume_auth(
        &state,
        &mut cache,
        &request,
        PADDED_TOKEN,
        &pending,
        Ok(EC_PEM.to_string()),
        0,
    );
    assert_eq!(
        done,
        AuthOutcome {
            allowed: false,
            oidc: None
        }
    );
    assert!(cache.get("ec-key-1").is_none());
}

#[test]
fn key_fetched_through_a_copy_is_at_hand_for_all_copies() {
    let state = oidc_state();
    let copy = state.clone();
    let mut cache = KeyCache::new();
    let request = with_jwt("/api/chat/history", PADDED_TOKEN);
    let (jwt, pending) = match auth_middleware(&copy, &cache, request.headers(), &request, 0) {
        AuthStep::Fetch { jwt, pending } => (jwt, pending),
        AuthStep::Decided(_) => panic!("the key is not at hand"),
    };
    let done = resume_auth(&copy, &mut cache, &request, &jwt, &pending, Ok(EC_PEM.to_string()), 0);
    assert!(done.allowed);
    // Other keys that are fetched make no difference.
    let other = CachedKey {
        decoding_key: DecodingKey::from_secret(b"other"),
        algorithm: Algorithm::HS256,
        fetched_at: 0,
    };
    cache.insert("other", other);
    for held in [&state, &copy, &state.clone()] {
        match auth_middleware(held, &cache, request.headers(), &request, 1) {
            AuthStep::Decided(outcome) => assert!(outcome.allowed),
            AuthStep::Fetch { .. } => panic!("the key is at hand"),
        }
    }
}
