//! Authentication of requests.
//!
//! A request is let through by the first of these that it satisfies:
//!
//! 1. a bearer token in the header `Authorization`,
//! 2. an OIDC token in the configured header, where OIDC is configured,
//! 3. the token in the query parameter `token`, on `GET` requests to streaming
//!    endpoints, whose clients cannot set headers.
//!
//! Any other request is refused, with an answer that does not say why.

use crate::algorithm::Algorithm;
use crate::config::OidcConfigView;
use crate::error::{viewed_text, OidcError, OidcErrorView};
use crate::external::encoding::{constant_time_eq, form_pairs, is_plain, pair_texts, parse_form};
use crate::external::headers::{
    ascii_text, first_value, get_header, header_fields, header_str, is_visible_ascii,
};
use crate::external::jwt::decode_outcome;
use crate::external::request::{
    get_method, get_method_name, get_path, get_query, get_uri, method_name, request_method,
    request_uri, uri_path, uri_query,
};
use crate::jwt::{
    check_result, claim_rules, decoded_subject, key_request, normalized, signature_valid,
};
use crate::key_cache::{CachedKey, KeyCache, KEY_CACHE_TTL};
use crate::keys::{key_in_answer, location_of, FetchFailure};
use crate::oidc::{
    cached_key, fetched_key, first_jwt_step, lemma_more_keys, resume_oidc_jwt, resumed,
    validate_oidc_jwt, with_more, FetchedKey, JwtStep, OidcState, PendingKey,
};
use crate::text::{
    ascii_lower, ascii_lower_text, chars_of, lemma_encoding_injective, lower, same_text,
};
use axum::body::Body;
use axum::http::{HeaderMap, HeaderValue, Request};
use jsonwebtoken::DecodingKey;
use vstd::prelude::*;
use vstd::string::StrSliceExecFns;

verus! {

// State.

/// What requests are authenticated against.
pub struct AuthState {
    /// The token that clients present.
    pub token: String,
    /// OIDC authentication, where it is configured.
    pub oidc: Option<OidcState>,
}

/// An `AuthState` as text and view.
pub struct AuthStateView {
    pub token: Seq<char>,
    pub oidc: Option<OidcConfigView>,
}

impl View for AuthState {
    type V = AuthStateView;

    open spec fn view(&self) -> AuthStateView {
        AuthStateView {
            token: self.token@,
            oidc: match self.oidc {
                Some(oidc) => Some(oidc@),
                None => None,
            },
        }
    }
}

impl Clone for AuthState {
    fn clone(&self) -> (copy: AuthState)
        ensures
            copy@ == self@,
    {
        AuthState {
            token: self.token.clone(),
            oidc: match &self.oidc {
                Some(oidc) => Some(oidc.clone()),
                None => None,
            },
        }
    }
}

// Requests.

/// What authentication looks at in a request besides its headers.
pub struct RequestLine {
    /// The method.
    pub method: Seq<char>,
    /// The path.
    pub path: Seq<char>,
    /// The query string, if there is one.
    pub query: Option<Seq<char>>,
}

/// What authentication looks at in a request besides its headers.
pub open spec fn request_line(request: Request<Body>) -> RequestLine {
    RequestLine {
        method: method_name(request_method(request)),
        path: uri_path(request_uri(request)),
        query: uri_query(request_uri(request)),
    }
}

/// The text of the header `name`: of its first value, where that is visible
/// ASCII.
pub open spec fn header_value(fields: Map<Seq<char>, Seq<Seq<u8>>>, name: Seq<char>) -> Option<
    Seq<char>,
> {
    match first_value(fields, name) {
        Some(bytes) => if is_visible_ascii(bytes) {
            Some(ascii_text(bytes))
        } else {
            None
        },
        None => None,
    }
}

/// Reads the text of the header `name`.
pub fn read_header<'a>(headers: &'a HeaderMap<HeaderValue>, name: &str) -> (text: Option<&'a str>)
    ensures
        text is Some <==> header_value(header_fields(*headers), name@) is Some,
        text matches Some(found) ==> header_value(header_fields(*headers), name@) == Some(found@),
{
    match get_header(headers, name) {
        Some(value) => match header_str(value) {
            Ok(text) => Some(text),
            Err(_) => None,
        },
        None => None,
    }
}

// Tokens.

/// Whether two texts are equal. They are compared by `constant_time_eq`; of the
/// time that it takes nothing is stated.
pub fn same_token(presented: &str, token: &str) -> (same: bool)
    ensures
        same == (presented@ == token@),
{
    let same = constant_time_eq(presented.as_bytes(), token.as_bytes());
    proof {
        if same {
            lemma_encoding_injective(presented@, token@);
        }
    }
    same
}

/// Whether `value`, of the header `Authorization`, presents `token`: the scheme
/// `Bearer` in any case, one space and the token, which is not empty.
pub open spec fn presents_bearer(value: Seq<char>, token: Seq<char>) -> bool {
    &&& value.len() > 7
    &&& ascii_lower_text(value.take(7)) == "bearer "@
    &&& value.skip(7) == token
}

/// Whether `chars` start with the scheme `Bearer`, in any case, and one space.
fn has_bearer_scheme(chars: &Vec<char>) -> (found: bool)
    requires
        chars@.len() >= 7,
    ensures
        found == (ascii_lower_text(chars@.take(7)) == "bearer "@),
{
    let scheme = chars_of("bearer ");
    proof {
        reveal_strlit("bearer ");
    }
    let ghost shown = ascii_lower_text(chars@.take(7));
    let mut i: usize = 0;
    while i < 7
        invariant
            i <= 7,
            chars@.len() >= 7,
            scheme@ == "bearer "@,
            scheme@.len() == 7,
            shown == ascii_lower_text(chars@.take(7)),
            forall|j: int| 0 <= j < i ==> shown[j] == scheme@[j],
        decreases 7 - i,
    {
        if lower(chars[i]) != scheme[i] {
            assert(shown[i as int] == ascii_lower(chars@[i as int]));
            return false;
        }
        i = i + 1;
    }
    assert(shown =~= scheme@);
    true
}

/// Whether `value`, of the header `Authorization`, presents `token`.
pub fn bearer_matches(value: &str, token: &str) -> (accepted: bool)
    ensures
        accepted == presents_bearer(value@, token@),
{
    let chars = chars_of(value);
    if chars.len() <= 7 || !has_bearer_scheme(&chars) {
        return false;
    }
    let rest = value.substring_char(7, chars.len());
    assert(rest@ =~= value@.skip(7));
    same_token(rest, token)
}

// Query parameter.

/// Whether a request may present its token in the query string.
pub open spec fn query_auth_allowed(line: RequestLine) -> bool {
    &&& line.method == "GET"@
    &&& {
        ||| line.path == "/api/chat/events"@
        ||| line.path == "/api/logs/events"@
        ||| line.path == "/api/chat/ws"@
    }
}

/// Whether a request may present its token in the query string.
///
/// Only `GET` requests to streaming endpoints may. A token in a URL ends up in
/// logs and histories, so it is taken only where the client has no other way.
pub fn allows_query_token_auth(request: &Request<Body>) -> (allowed: bool)
    ensures
        allowed == query_auth_allowed(request_line(*request)),
{
    if !same_text(get_method_name(get_method(request)), "GET") {
        return false;
    }
    let path = get_path(get_uri(request));
    same_text(path, "/api/chat/events") || same_text(path, "/api/logs/events") || same_text(
        path,
        "/api/chat/ws",
    )
}

/// The value of the first of `pairs` with this name.
pub open spec fn first_named(pairs: Seq<(Seq<char>, Seq<char>)>, name: Seq<char>) -> Option<
    Seq<char>,
>
    decreases pairs.len(),
{
    if pairs.len() == 0 {
        None
    } else if pairs[0].0 == name {
        Some(pairs[0].1)
    } else {
        first_named(pairs.skip(1), name)
    }
}

/// The value of the parameter `token` in a query string.
pub open spec fn token_in_query(query: Option<Seq<char>>) -> Option<Seq<char>> {
    match query {
        Some(text) => first_named(form_pairs(text), "token"@),
        None => None,
    }
}

/// The query string that presents a token as it is.
pub open spec fn plain_query(token: Seq<char>) -> Seq<char> {
    "token"@ + seq!['='] + token
}

/// The value of the first pair named `token`.
pub fn token_among(pairs: &Vec<(String, String)>) -> (token: Option<String>)
    ensures
        token is Some <==> first_named(pair_texts(pairs@), "token"@) is Some,
        token matches Some(found) ==> first_named(pair_texts(pairs@), "token"@) == Some(found@),
{
    let ghost texts = pair_texts(pairs@);
    let mut i: usize = 0;
    assert(texts.skip(0) =~= texts);
    while i < pairs.len()
        invariant
            i <= pairs@.len(),
            texts == pair_texts(pairs@),
            first_named(texts.skip(i as int), "token"@) == first_named(texts, "token"@),
        decreases pairs@.len() - i,
    {
        assert(texts.skip(i as int)[0] == texts[i as int]);
        assert(texts[i as int] == (pairs@[i as int].0@, pairs@[i as int].1@));
        if same_text(&pairs[i].0, "token") {
            return Some(pairs[i].1.clone());
        }
        assert(texts.skip(i as int).skip(1) =~= texts.skip(i + 1));
        i = i + 1;
    }
    None
}

/// The value of the query parameter `token`, decoded.
///
/// A query that presents a token of plain characters as it is gives that token.
pub fn query_token(request: &Request<Body>) -> (token: Option<String>)
    ensures
        token is Some <==> token_in_query(request_line(*request).query) is Some,
        token matches Some(found) ==> token_in_query(request_line(*request).query) == Some(found@),
        forall|plain: Seq<char>|
            is_plain(plain) && request_line(*request).query == Some(#[trigger] plain_query(plain))
                ==> token is Some && token->0@ == plain,
{
    match get_query(get_uri(request)) {
        Some(query) => {
            let pairs = parse_form(query);
            proof {
                assert(is_plain("token"@)) by {
                    reveal_strlit("token");
                }
                assert forall|plain: Seq<char>|
                    is_plain(plain) && query@ == #[trigger] plain_query(plain) implies first_named(
                    form_pairs(query@),
                    "token"@,
                ) == Some(plain) by {
                    assert(form_pairs(query@) == seq![("token"@, plain)]);
                }
            }
            token_among(&pairs)
        },
        None => None,
    }
}

/// Whether a request presents `token` in its query string, and may.
pub open spec fn presents_query_token(line: RequestLine, token: Seq<char>) -> bool {
    query_auth_allowed(line) && token_in_query(line.query) == Some(token)
}

/// Whether a request presents `token` in its query string as it is, and may.
pub open spec fn presents_plain_token(line: RequestLine, token: Seq<char>) -> bool {
    query_auth_allowed(line) && is_plain(token) && line.query == Some(plain_query(token))
}

/// Whether a request presents `token` in its query string, and may.
pub fn query_token_matches(request: &Request<Body>, token: &str) -> (accepted: bool)
    ensures
        accepted == presents_query_token(request_line(*request), token@),
        presents_plain_token(request_line(*request), token@) ==> accepted,
        forall|plain: Seq<char>|
            is_plain(plain) && plain != token@ && request_line(*request).query == Some(
                #[trigger] plain_query(plain),
            ) ==> !accepted,
{
    if !allows_query_token_auth(request) {
        return false;
    }
    match query_token(request) {
        Some(presented) => same_token(&presented, token),
        None => false,
    }
}

// Decision.

/// What was decided of a request.
#[derive(Debug, PartialEq, Eq)]
pub struct AuthOutcome {
    /// Whether it is let through.
    pub allowed: bool,
    /// What came of its OIDC token, where one was checked: the subject, or why
    /// it was not accepted. This is for the log, not for the client.
    pub oidc: Option<Result<String, OidcError>>,
}

/// An `AuthOutcome` with views.
pub struct AuthOutcomeView {
    pub allowed: bool,
    pub oidc: Option<Result<Seq<char>, OidcErrorView>>,
}

impl View for AuthOutcome {
    type V = AuthOutcomeView;

    open spec fn view(&self) -> AuthOutcomeView {
        AuthOutcomeView {
            allowed: self.allowed,
            oidc: match self.oidc {
                Some(result) => Some(viewed_text(result)),
                None => None,
            },
        }
    }
}

/// What to do for a request.
pub enum AuthStep {
    /// Let it through or refuse it.
    Decided(AuthOutcome),
    /// Fetch the key for this OIDC token, then resume.
    Fetch {
        /// The token.
        jwt: String,
        /// Its key.
        pending: PendingKey,
    },
}

/// The answer to a request that is refused.
#[derive(Debug, PartialEq, Eq)]
pub struct Refusal {
    /// The status.
    pub status: u16,
    /// The body.
    pub body: &'static str,
}

impl AuthOutcome {
    /// The answer to the client, where the request is refused. It is always the
    /// same.
    pub fn refusal(&self) -> (answer: Option<Refusal>)
        ensures
            answer is None <==> self.allowed,
            answer matches Some(found) ==> found.status == 401 && found.body@
                == "Invalid or missing auth token"@,
    {
        if self.allowed {
            None
        } else {
            Some(Refusal { status: 401, body: "Invalid or missing auth token" })
        }
    }
}

/// What is decided once the OIDC token, if there is one, was checked: let
/// through where it was accepted, or else where the query string presents the
/// token.
pub open spec fn decided(
    line: RequestLine,
    token: Seq<char>,
    checked: Option<Result<Seq<char>, OidcErrorView>>,
) -> AuthOutcomeView {
    AuthOutcomeView {
        allowed: checked matches Some(Ok(_)) || presents_query_token(line, token),
        oidc: checked,
    }
}

/// Decides once the OIDC token, if there is one, was checked.
pub fn decide(
    request: &Request<Body>,
    token: &str,
    checked: Option<Result<String, OidcError>>,
) -> (outcome: AuthOutcome)
    ensures
        outcome@ == decided(
            request_line(*request),
            token@,
            match checked {
                Some(result) => Some(viewed_text(result)),
                None => None,
            },
        ),
        outcome.oidc == checked,
        presents_plain_token(request_line(*request), token@) ==> outcome.allowed,
        forall|plain: Seq<char>|
            is_plain(plain) && plain != token@ && request_line(*request).query == Some(
                #[trigger] plain_query(plain),
            ) ==> outcome.allowed == (outcome.oidc matches Some(Ok(_))),
{
    let accepted = match &checked {
        Some(Ok(_)) => true,
        _ => false,
    };
    AuthOutcome { allowed: accepted || query_token_matches(request, token), oidc: checked }
}

/// Whether the headers present `token` as a bearer token.
pub open spec fn bearer_accepted(fields: Map<Seq<char>, Seq<Seq<u8>>>, token: Seq<char>) -> bool {
    header_value(fields, "authorization"@) matches Some(value) && presents_bearer(value, token)
}

/// The OIDC token of a request, where OIDC is configured and the header for it
/// is there.
pub open spec fn oidc_token(
    state: AuthStateView,
    fields: Map<Seq<char>, Seq<Seq<u8>>>,
) -> Option<Seq<char>> {
    match state.oidc {
        Some(oidc) => header_value(fields, oidc.header),
        None => None,
    }
}

/// The steps that authentication of a request at time `now` can start with.
pub open spec fn first_auth_step(
    state: AuthStateView,
    cache: Map<Seq<char>, CachedKey>,
    fields: Map<Seq<char>, Seq<Seq<u8>>>,
    line: RequestLine,
    now: u64,
    step: AuthStep,
) -> bool {
    if bearer_accepted(fields, state.token) {
        step matches AuthStep::Decided(outcome) && outcome.allowed && outcome.oidc is None
    } else {
        match oidc_token(state, fields) {
            None => step matches AuthStep::Decided(outcome) && outcome@ == decided(
                line,
                state.token,
                None,
            ),
            Some(jwt) => match step {
                AuthStep::Decided(outcome) => {
                    &&& outcome.oidc matches Some(result)
                    &&& first_jwt_step(state.oidc->0, cache, jwt, now, JwtStep::Done(result))
                    &&& outcome@ == decided(line, state.token, Some(viewed_text(result)))
                },
                AuthStep::Fetch { jwt: text, pending } => {
                    &&& text@ == jwt
                    &&& first_jwt_step(state.oidc->0, cache, jwt, now, JwtStep::Fetch(pending))
                },
            },
        }
    }
}

/// Authenticates a request: by bearer token, else by OIDC token, else by query
/// parameter.
///
/// `cache` holds the keys for OIDC tokens. There is one for all copies of a
/// state. Where the key for an OIDC token has to be fetched, the caller fetches
/// it and goes on with `resume_auth`.
pub fn auth_middleware(
    auth: &AuthState,
    cache: &KeyCache,
    headers: &HeaderMap<HeaderValue>,
    request: &Request<Body>,
    now: u64,
) -> (step: AuthStep)
    ensures
        first_auth_step(
            auth@,
            cache@,
            header_fields(*headers),
            request_line(*request),
            now,
            step,
        ),
        presents_plain_token(request_line(*request), auth.token@) ==> (
        step matches AuthStep::Decided(outcome) ==> outcome.allowed),
        !bearer_accepted(header_fields(*headers), auth.token@) ==> forall|plain: Seq<char>|
            is_plain(plain) && plain != auth.token@ && request_line(*request).query == Some(
                #[trigger] plain_query(plain),
            ) ==> (step matches AuthStep::Decided(outcome) ==> outcome.allowed == (
            outcome.oidc matches Some(Ok(_)))),
{
    if let Some(value) = read_header(headers, "authorization") {
        if bearer_matches(value, &auth.token) {
            return AuthStep::Decided(AuthOutcome { allowed: true, oidc: None });
        }
    }
    if let Some(oidc) = &auth.oidc {
        if let Some(jwt) = read_header(headers, oidc.header_name()) {
            return match validate_oidc_jwt(oidc, cache, jwt, now) {
                JwtStep::Done(result) => AuthStep::Decided(
                    decide(request, &auth.token, Some(result)),
                ),
                JwtStep::Fetch(pending) => AuthStep::Fetch { jwt: jwt.to_owned(), pending },
            };
        }
    }
    AuthStep::Decided(decide(request, &auth.token, None))
}

/// Whether authentication that goes on at time `now` with the answer to the
/// fetch of a key can take the cache from `before` to `after` with this outcome.
/// Where OIDC is not configured there is no token to check.
pub open spec fn auth_resumed(
    state: AuthStateView,
    before: Map<Seq<char>, CachedKey>,
    line: RequestLine,
    jwt: Seq<char>,
    pending: PendingKey,
    answer: Result<String, FetchFailure>,
    now: u64,
    after: Map<Seq<char>, CachedKey>,
    outcome: AuthOutcomeView,
) -> bool {
    &&& outcome == decided(line, state.token, outcome.oidc)
    &&& match state.oidc {
        Some(config) => {
            &&& outcome.oidc is Some
            &&& resumed(config, before, jwt, pending, answer, now, after, outcome.oidc->0)
        },
        None => after == before && outcome.oidc is None,
    }
}

/// Goes on to authenticate a request with the answer to the fetch of the key
/// for its OIDC token. A key that was fetched is kept.
pub fn resume_auth(
    auth: &AuthState,
    cache: &mut KeyCache,
    request: &Request<Body>,
    jwt: &str,
    pending: &PendingKey,
    answer: Result<String, FetchFailure>,
    now: u64,
) -> (outcome: AuthOutcome)
    ensures
        auth_resumed(
            auth@,
            old(cache)@,
            request_line(*request),
            jwt@,
            *pending,
            answer,
            now,
            final(cache)@,
            outcome@,
        ),
        presents_plain_token(request_line(*request), auth.token@) ==> outcome.allowed,
        forall|plain: Seq<char>|
            is_plain(plain) && plain != auth.token@ && request_line(*request).query == Some(
                #[trigger] plain_query(plain),
            ) ==> outcome.allowed == (outcome.oidc matches Some(Ok(_))),
{
    let checked = match &auth.oidc {
        Some(oidc) => Some(resume_oidc_jwt(oidc, cache, jwt, pending, answer, now)),
        None => None,
    };
    decide(request, &auth.token, checked)
}

// What holds of all requests.

/// A request whose `Authorization` header presents the token, with the scheme
/// in any case, is let through: whatever its method, path and query, and
/// without a look at any OIDC token.
pub proof fn law_valid_bearer_is_let_through(
    state: AuthStateView,
    cache: Map<Seq<char>, CachedKey>,
    fields: Map<Seq<char>, Seq<Seq<u8>>>,
    line: RequestLine,
    now: u64,
    step: AuthStep,
    scheme: Seq<char>,
)
    requires
        state.token.len() > 0,
        ascii_lower_text(scheme) == "bearer "@,
        header_value(fields, "authorization"@) == Some(scheme + state.token),
        first_auth_step(state, cache, fields, line, now, step),
    ensures
        step matches AuthStep::Decided(outcome) && outcome.allowed && outcome.oidc is None,
{
    law_bearer_token_must_match(scheme, state.token, state.token);
}

/// After the scheme, in any case, only the token itself is accepted: not the
/// empty text, and nothing that differs from it, be it by a space.
pub proof fn law_bearer_token_must_match(
    scheme: Seq<char>,
    presented: Seq<char>,
    token: Seq<char>,
)
    requires
        ascii_lower_text(scheme) == "bearer "@,
    ensures
        presents_bearer(scheme + presented, token) <==> presented.len() > 0 && presented == token,
{
    reveal_strlit("bearer ");
    assert(ascii_lower_text(scheme).len() == 7);
    let value = scheme + presented;
    assert(value.take(7) =~= scheme);
    assert(value.skip(7) =~= presented);
}

/// Values of `Authorization` that differ only in the case of the scheme are
/// accepted alike.
pub proof fn law_bearer_scheme_ignores_case(
    first: Seq<char>,
    second: Seq<char>,
    presented: Seq<char>,
    token: Seq<char>,
)
    requires
        first.len() == 7,
        ascii_lower_text(first) == ascii_lower_text(second),
    ensures
        presents_bearer(first + presented, token) == presents_bearer(second + presented, token),
{
    assert(ascii_lower_text(first).len() == first.len());
    assert(ascii_lower_text(second).len() == second.len());
    assert((first + presented).take(7) =~= first);
    assert((second + presented).take(7) =~= second);
    assert((first + presented).skip(7) =~= presented);
    assert((second + presented).skip(7) =~= presented);
}

/// Without OIDC, a request is decided at once: it is let through where it
/// presents the token as a bearer token or, if it may, in the query string, and
/// refused otherwise.
pub proof fn law_decision_without_oidc(
    state: AuthStateView,
    cache: Map<Seq<char>, CachedKey>,
    fields: Map<Seq<char>, Seq<Seq<u8>>>,
    line: RequestLine,
    now: u64,
    step: AuthStep,
)
    requires
        state.oidc is None,
        first_auth_step(state, cache, fields, line, now, step),
    ensures
        step matches AuthStep::Decided(outcome) && {
            &&& outcome.oidc is None
            &&& outcome.allowed == (bearer_accepted(fields, state.token) || presents_query_token(
                line,
                state.token,
            ))
        },
{
    if !bearer_accepted(fields, state.token) {
        let outcome = step->Decided_0;
        assert(outcome@.oidc is None);
        assert(outcome@.allowed == presents_query_token(line, state.token));
    }
}

/// A request that presents nothing is refused: no `Authorization` header, no
/// OIDC header and no query string.
pub proof fn law_no_credentials_no_access(
    state: AuthStateView,
    cache: Map<Seq<char>, CachedKey>,
    fields: Map<Seq<char>, Seq<Seq<u8>>>,
    line: RequestLine,
    now: u64,
    step: AuthStep,
)
    requires
        header_value(fields, "authorization"@) is None,
        oidc_token(state, fields) is None,
        line.query is None,
        first_auth_step(state, cache, fields, line, now, step),
    ensures
        step matches AuthStep::Decided(outcome) && !outcome.allowed,
{
    let outcome = step->Decided_0;
    assert(outcome@.allowed == presents_query_token(line, state.token));
}

/// A request that is let through at once presented the token as a bearer token
/// or in the query string, or an OIDC token that was accepted under a key that
/// is held for it and was fetched less than an hour ago.
pub proof fn law_let_through_only_with_credentials(
    state: AuthStateView,
    cache: Map<Seq<char>, CachedKey>,
    fields: Map<Seq<char>, Seq<Seq<u8>>>,
    line: RequestLine,
    now: u64,
    outcome: AuthOutcome,
)
    requires
        first_auth_step(state, cache, fields, line, now, AuthStep::Decided(outcome)),
        outcome.allowed,
        !bearer_accepted(fields, state.token),
        !presents_query_token(line, state.token),
    ensures
        state.oidc matches Some(oidc) && oidc_token(state, fields) matches Some(jwt)
            && key_request(jwt) matches Ok((kid, _)) && cached_key(
            cache,
            kid,
            now,
        ) matches Some((key, alg)) && outcome.oidc matches Some(Ok(name)) && signature_valid(
            jwt,
            key,
            alg,
        ) && check_result(oidc, jwt, key, alg, Ok(name@)),
{
    assert(outcome@.allowed);
    let result = outcome.oidc->0;
    assert(outcome@.oidc == Some(viewed_text(result)));
    assert(result is Ok);
}

/// A request that is let through after a key was fetched presented the token
/// in the query string, or an OIDC token that is signed with the key in the
/// answer.
pub proof fn law_let_through_after_fetch_only_with_credentials(
    state: AuthStateView,
    before: Map<Seq<char>, CachedKey>,
    line: RequestLine,
    jwt: Seq<char>,
    pending: PendingKey,
    answer: Result<String, FetchFailure>,
    now: u64,
    after: Map<Seq<char>, CachedKey>,
    outcome: AuthOutcomeView,
)
    requires
        auth_resumed(state, before, line, jwt, pending, answer, now, after, outcome),
        outcome.allowed,
        !presents_query_token(line, state.token),
    ensures
        state.oidc is Some,
        answer matches Ok(body) && key_in_answer(
            pending.location@,
            pending.kid@,
            pending.alg,
            body@,
        ) matches Ok((key, alg)) && outcome.oidc matches Some(Ok(name)) && signature_valid(
            jwt,
            key,
            alg,
        ) && check_result(state.oidc->0, jwt, key, alg, Ok(name)),
{
}

/// Where the key for an OIDC token is at hand and the token is signed with it,
/// the request is decided at once, and by the claims: it is let through where
/// they pass at some time or the query string presents the token.
pub proof fn law_signed_oidc_token_is_judged_by_its_claims(
    state: AuthStateView,
    cache: Map<Seq<char>, CachedKey>,
    fields: Map<Seq<char>, Seq<Seq<u8>>>,
    line: RequestLine,
    now: u64,
    step: AuthStep,
    jwt: Seq<char>,
    kid: Seq<char>,
    named: Algorithm,
    key: DecodingKey,
    alg: Algorithm,
)
    requires
        !bearer_accepted(fields, state.token),
        oidc_token(state, fields) == Some(jwt),
        key_request(jwt) == Ok::<(Seq<char>, Algorithm), OidcErrorView>((kid, named)),
        cached_key(cache, kid, now) == Some((key, alg)),
        signature_valid(jwt, key, alg),
        first_auth_step(state, cache, fields, line, now, step),
    ensures
        step is Decided,
        exists|seconds: u64|
            step->Decided_0.allowed == (#[trigger] decode_outcome(
                normalized(jwt),
                key,
                claim_rules(state.oidc->0, alg),
                seconds,
            ) is Ok || presents_query_token(line, state.token)),
{
    let outcome = step->Decided_0;
    let result = viewed_text(outcome.oidc->0);
    assert(outcome@.oidc == Some(result));
    let rules = claim_rules(state.oidc->0, alg);
    let seconds = choose|seconds: u64|
        result == decoded_subject(#[trigger] decode_outcome(normalized(jwt), key, rules, seconds));
    assert(outcome@.allowed == (decode_outcome(normalized(jwt), key, rules, seconds) is Ok
        || presents_query_token(line, state.token)));
}

/// Where the answer to a fetch holds the key and the OIDC token is signed with
/// it, the claims decide in the same way, and the key is at hand from then on.
pub proof fn law_signed_oidc_token_is_judged_after_fetch(
    state: AuthStateView,
    before: Map<Seq<char>, CachedKey>,
    line: RequestLine,
    jwt: Seq<char>,
    pending: PendingKey,
    body: String,
    now: u64,
    after: Map<Seq<char>, CachedKey>,
    outcome: AuthOutcomeView,
    key: DecodingKey,
    alg: Algorithm,
)
    requires
        state.oidc is Some,
        key_in_answer(pending.location@, pending.kid@, pending.alg, body@) == Ok::<
            (DecodingKey, Algorithm),
            OidcErrorView,
        >((key, alg)),
        signature_valid(jwt, key, alg),
        auth_resumed(state, before, line, jwt, pending, Ok(body), now, after, outcome),
    ensures
        exists|seconds: u64|
            outcome.allowed == (#[trigger] decode_outcome(
                normalized(jwt),
                key,
                claim_rules(state.oidc->0, alg),
                seconds,
            ) is Ok || presents_query_token(line, state.token)),
        cached_key(after, pending.kid@, now) == Some((key, alg)),
{
    let result = outcome.oidc->0;
    let rules = claim_rules(state.oidc->0, alg);
    let seconds = choose|seconds: u64|
        result == decoded_subject(#[trigger] decode_outcome(normalized(jwt), key, rules, seconds));
    assert(outcome.allowed == (decode_outcome(normalized(jwt), key, rules, seconds) is Ok
        || presents_query_token(line, state.token)));
}

/// After a key was fetched for one request, every request whose OIDC token needs
/// the same key is decided at once for an hour, by every state that is used with
/// the same cache, the copies of the first one among them.
pub proof fn law_copies_share_fetched_keys_between_requests(
    state: AuthStateView,
    before: Map<Seq<char>, CachedKey>,
    line: RequestLine,
    jwt: Seq<char>,
    pending: PendingKey,
    answer: Result<String, FetchFailure>,
    fetched: u64,
    after: Map<Seq<char>, CachedKey>,
    outcome: AuthOutcomeView,
    copy: AuthStateView,
    fields: Map<Seq<char>, Seq<Seq<u8>>>,
    next_line: RequestLine,
    now: u64,
    step: AuthStep,
)
    requires
        state.oidc is Some,
        auth_resumed(state, before, line, jwt, pending, answer, fetched, after, outcome),
        fetched_key(pending.location@, pending.kid@, pending.alg, answer) is Ok,
        oidc_token(copy, fields) matches Some(next) && key_request(next) matches Ok((kid, _)) && kid
            == pending.kid@,
        now < fetched + KEY_CACHE_TTL,
        first_auth_step(copy, after, fields, next_line, now, step),
    ensures
        step is Decided,
{
}

/// The same holds whatever other keys were fetched since.
pub proof fn law_copies_share_fetched_keys_after_more_fetches(
    state: AuthStateView,
    before: Map<Seq<char>, CachedKey>,
    line: RequestLine,
    jwt: Seq<char>,
    pending: PendingKey,
    answer: Result<String, FetchFailure>,
    fetched: u64,
    after: Map<Seq<char>, CachedKey>,
    outcome: AuthOutcomeView,
    more: Seq<FetchedKey>,
    copy: AuthStateView,
    fields: Map<Seq<char>, Seq<Seq<u8>>>,
    next_line: RequestLine,
    now: u64,
    step: AuthStep,
)
    requires
        state.oidc is Some,
        auth_resumed(state, before, line, jwt, pending, answer, fetched, after, outcome),
        fetched_key(pending.location@, pending.kid@, pending.alg, answer) is Ok,
        forall|i: int| 0 <= i < more.len() ==> (#[trigger] more[i]).kid != pending.kid@,
        oidc_token(copy, fields) matches Some(next) && key_request(next) matches Ok((kid, _)) && kid
            == pending.kid@,
        now < fetched + KEY_CACHE_TTL,
        first_auth_step(copy, with_more(after, more), fields, next_line, now, step),
    ensures
        step is Decided,
{
    lemma_more_keys(after, more, pending.kid@, now);
}

/// The key of an OIDC token is fetched from the configured place only, and only
/// where the request does not present the token as a bearer token and no key
/// that may be used is at hand.
pub proof fn law_fetch_goes_to_configured_place(
    state: AuthStateView,
    cache: Map<Seq<char>, CachedKey>,
    fields: Map<Seq<char>, Seq<Seq<u8>>>,
    line: RequestLine,
    now: u64,
    jwt: String,
    pending: PendingKey,
)
    requires
        first_auth_step(state, cache, fields, line, now, AuthStep::Fetch { jwt, pending }),
    ensures
        !bearer_accepted(fields, state.token),
        state.oidc matches Some(oidc) && {
            &&& oidc_token(state, fields) == Some(jwt@)
            &&& key_request(jwt@) == Ok::<(Seq<char>, Algorithm), OidcErrorView>(
                (pending.kid@, pending.alg),
            )
            &&& pending.location@ == location_of(oidc.jwks_url, pending.kid@)
            &&& cached_key(cache, pending.kid@, now) is None
        },
{
}

/// An OIDC token that is not accepted neither lets a request through nor keeps
/// it out: the query string decides.
pub proof fn law_refused_oidc_token_leaves_it_to_the_query(
    line: RequestLine,
    token: Seq<char>,
    error: OidcErrorView,
)
    ensures
        decided(line, token, Some(Err(error))).allowed == decided(line, token, None).allowed,
        decided(line, token, Some(Err(error))).allowed == presents_query_token(line, token),
{
}

/// A token in the query string lets only `GET` requests to the streaming
/// endpoints through.
pub proof fn law_query_token_only_on_streams(line: RequestLine, token: Seq<char>)
    requires
        presents_query_token(line, token),
    ensures
        line.method == "GET"@,
        line.path == "/api/chat/events"@ || line.path == "/api/logs/events"@ || line.path
            == "/api/chat/ws"@,
{
}

/// Of several query parameters `token` the first counts.
pub proof fn law_first_token_parameter_counts(
    before: Seq<(Seq<char>, Seq<char>)>,
    value: Seq<char>,
    after: Seq<(Seq<char>, Seq<char>)>,
)
    requires
        forall|i: int| 0 <= i < before.len() ==> (#[trigger] before[i]).0 != "token"@,
    ensures
        first_named(before + seq![("token"@, value)] + after, "token"@) == Some(value),
    decreases before.len(),
{
    let pairs = before + seq![("token"@, value)] + after;
    if before.len() > 0 {
        let rest = before.skip(1);
        assert(pairs[0] == before[0]);
        assert forall|i: int| 0 <= i < rest.len() implies (#[trigger] rest[i]).0 != "token"@ by {
            assert(rest[i] == before[i + 1]);
        }
        assert(pairs.skip(1) =~= rest + seq![("token"@, value)] + after);
        law_first_token_parameter_counts(rest, value, after);
    } else {
        assert(pairs[0] == ("token"@, value));
    }
}


// Authentication, in terms of the headers, the request line and the parameters.

/// Whether `lower` is `name` with each ASCII capital letter made small.
pub open spec fn is_lower_case_of(lower: Seq<char>, name: Seq<char>) -> bool {
    &&& lower.len() == name.len()
    &&& forall|i: int|
        0 <= i < name.len() ==> #[trigger] lower[i] == (if 65 <= name[i] as int <= 90 {
            (name[i] as int + 32) as char
        } else {
            name[i]
        })
}

/// Whether `bytes` spell `text`, each byte a tab or a visible ASCII character or
/// a space.
pub open spec fn spell(bytes: Seq<u8>, text: Seq<char>) -> bool {
    &&& bytes.len() == text.len()
    &&& forall|i: int|
        0 <= i < bytes.len() ==> {
            &&& 32 <= #[trigger] bytes[i] <= 126 || bytes[i] == 9
            &&& text[i] as int == bytes[i] as int
        }
}

/// A header is found under its name in any case. Its text is what the bytes of
/// its first value spell, all of them; there is none where they spell none.
pub proof fn law_header_is_found_under_its_name(
    fields: Map<Seq<char>, Seq<Seq<u8>>>,
    name: Seq<char>,
    lower: Seq<char>,
)
    requires
        is_lower_case_of(lower, name),
    ensures
        !fields.contains_key(lower) ==> header_value(fields, name) is None,
        fields.contains_key(lower) ==> {
            &&& header_value(fields, name) matches Some(text) ==> spell(fields[lower][0], text)
            &&& forall|text: Seq<char>| #[trigger]
                spell(fields[lower][0], text) ==> header_value(fields, name) == Some(text)
        },
{
    assert(ascii_lower_text(name) =~= lower);
    if fields.contains_key(lower) {
        let bytes = fields[lower][0];
        assert forall|text: Seq<char>| #[trigger] spell(bytes, text) implies header_value(
            fields,
            name,
        ) == Some(text) by {
            assert(is_visible_ascii(bytes));
            assert forall|i: int| 0 <= i < bytes.len() implies ascii_text(bytes)[i] == text[i] by {
                assert(bytes[i] as char == text[i]);
            }
            assert(ascii_text(bytes) =~= text);
        }
    }
}

/// A value of `Authorization` presents a token exactly where it is the letters
/// of `Bearer`, each small or capital, one space and the token, which is not
/// empty.
pub proof fn law_bearer_value(value: Seq<char>, token: Seq<char>)
    ensures
        presents_bearer(value, token) <==> {
            &&& token.len() > 0
            &&& value.len() == 7 + token.len()
            &&& forall|i: int|
                0 <= i < 7 ==> #[trigger] value[i] == "bearer "@[i] || value[i] == "BEARER "@[i]
            &&& forall|i: int| 0 <= i < token.len() ==> value[7 + i] == #[trigger] token[i]
        },
{
    reveal_strlit("bearer ");
    reveal_strlit("BEARER ");
    if value.len() >= 7 {
        let shown = ascii_lower_text(value.take(7));
        assert forall|i: int| 0 <= i < 7 implies (shown[i] == "bearer "@[i] <==> value[i]
            == "bearer "@[i] || value[i] == "BEARER "@[i]) by {
            assert(shown[i] == ascii_lower(value[i]));
        }
        if forall|i: int|
            0 <= i < 7 ==> #[trigger] value[i] == "bearer "@[i] || value[i] == "BEARER "@[i] {
            assert(shown =~= "bearer "@);
        }
        if value.len() == 7 + token.len() && forall|i: int|
            0 <= i < token.len() ==> value[7 + i] == #[trigger] token[i] {
            assert(value.skip(7) =~= token);
        }
        if presents_bearer(value, token) {
            assert forall|i: int| 0 <= i < 7 implies #[trigger] value[i] == "bearer "@[i]
                || value[i] == "BEARER "@[i] by {
                assert(shown[i] == "bearer "@[i]);
            }
            assert forall|i: int| 0 <= i < token.len() implies value[7 + i] == #[trigger] token[i] by {
                assert(value.skip(7)[i] == value[7 + i]);
            }
        }
    }
}

/// The bearer token is looked for in the header `authorization` and nowhere
/// else.
pub proof fn law_bearer_token_is_in_its_header(
    fields: Map<Seq<char>, Seq<Seq<u8>>>,
    token: Seq<char>,
)
    ensures
        bearer_accepted(fields, token) <==> fields.contains_key("authorization"@) && exists|
            value: Seq<char>,
        |
            #[trigger] spell(fields["authorization"@][0], value) && presents_bearer(value, token),
{
    reveal_strlit("authorization");
    assert(is_lower_case_of("authorization"@, "authorization"@));
    law_header_is_found_under_its_name(fields, "authorization"@, "authorization"@);
}

/// The value of the query parameter `token` is that of the first pair of that
/// name, whole, whatever it is; there is none without such a pair.
pub proof fn law_query_token_is_the_whole_value(
    query: Seq<char>,
    before: Seq<(Seq<char>, Seq<char>)>,
    value: Seq<char>,
    after: Seq<(Seq<char>, Seq<char>)>,
)
    requires
        form_pairs(query) == before + seq![("token"@, value)] + after,
        forall|i: int| 0 <= i < before.len() ==> (#[trigger] before[i]).0 != "token"@,
    ensures
        token_in_query(Some(query)) == Some(value),
{
    law_first_token_parameter_counts(before, value, after);
}

/// Without a pair named `token`, or without a query, no token is presented.
pub proof fn law_no_parameter_no_token(query: Seq<char>)
    requires
        forall|i: int|
            0 <= i < form_pairs(query).len() ==> (#[trigger] form_pairs(query)[i]).0 != "token"@,
    ensures
        token_in_query(Some(query)) is None,
        token_in_query(None) is None,
{
    lemma_none_named(form_pairs(query), "token"@);
}

proof fn lemma_none_named(pairs: Seq<(Seq<char>, Seq<char>)>, name: Seq<char>)
    requires
        forall|i: int| 0 <= i < pairs.len() ==> (#[trigger] pairs[i]).0 != name,
    ensures
        first_named(pairs, name) is None,
    decreases pairs.len(),
{
    if pairs.len() > 0 {
        let rest = pairs.skip(1);
        assert forall|i: int| 0 <= i < rest.len() implies (#[trigger] rest[i]).0 != name by {
            assert(rest[i] == pairs[i + 1]);
        }
        lemma_none_named(rest, name);
    }
}

/// A request presents the token in its query string exactly where it is a `GET`
/// to one of the three streaming endpoints and the first pair named `token` has
/// the token as its value.
pub proof fn law_query_token_in_full(
    method: Seq<char>,
    path: Seq<char>,
    query: Seq<char>,
    before: Seq<(Seq<char>, Seq<char>)>,
    value: Seq<char>,
    after: Seq<(Seq<char>, Seq<char>)>,
    token: Seq<char>,
)
    requires
        form_pairs(query) == before + seq![("token"@, value)] + after,
        forall|i: int| 0 <= i < before.len() ==> (#[trigger] before[i]).0 != "token"@,
    ensures
        presents_query_token(RequestLine { method, path, query: Some(query) }, token) <==> {
            &&& method == "GET"@
            &&& path == "/api/chat/events"@ || path == "/api/logs/events"@ || path
                == "/api/chat/ws"@
            &&& value == token
        },
{
    law_query_token_is_the_whole_value(query, before, value, after);
}

/// Nothing but a pair named `token` presents a token in the query string.
pub proof fn law_query_token_needs_its_parameter(line: RequestLine, token: Seq<char>)
    requires
        presents_query_token(line, token),
    ensures
        line.query matches Some(query) && exists|i: int|
            0 <= i < form_pairs(query).len() && #[trigger] form_pairs(query)[i] == ("token"@, token),
{
    let query = line.query->0;
    if forall|i: int|
        0 <= i < form_pairs(query).len() ==> (#[trigger] form_pairs(query)[i]).0 != "token"@ {
        law_no_parameter_no_token(query);
    }
    lemma_named_is_there(form_pairs(query), "token"@);
}

proof fn lemma_named_is_there(pairs: Seq<(Seq<char>, Seq<char>)>, name: Seq<char>)
    requires
        first_named(pairs, name) is Some,
    ensures
        exists|i: int| 0 <= i < pairs.len() && #[trigger] pairs[i] == (name, first_named(pairs, name)->0),
    decreases pairs.len(),
{
    if pairs[0].0 == name {
        assert(pairs[0] == (name, first_named(pairs, name)->0));
    } else {
        let rest = pairs.skip(1);
        lemma_named_is_there(rest, name);
        let i = choose|i: int|
            0 <= i < rest.len() && #[trigger] rest[i] == (name, first_named(rest, name)->0);
        assert(pairs[i + 1] == rest[i]);
    }
}

/// What authentication looks at in a request is its method, its path and its
/// query string, as they are.
pub proof fn law_request_line(request: Request<Body>)
    ensures
        request_line(request).method == method_name(request_method(request)),
        request_line(request).path == uri_path(request_uri(request)),
        request_line(request).query == uri_query(request_uri(request)),
{
}

/// The view of a state holds its token as it is, and its configuration where
/// there is one; the view of an outcome holds what it holds.
pub proof fn law_auth_views(auth: AuthState, outcome: AuthOutcome)
    ensures
        auth@.token == auth.token@,
        auth.oidc matches Some(oidc) ==> auth@.oidc == Some(oidc@),
        auth.oidc is None ==> auth@.oidc is None,
        outcome@.allowed == outcome.allowed,
        outcome.oidc is None ==> outcome@.oidc is None,
        outcome.oidc matches Some(Ok(name)) ==> outcome@.oidc == Some(
            Ok::<Seq<char>, OidcErrorView>(name@),
        ),
        outcome.oidc matches Some(Err(error)) ==> outcome@.oidc == Some(
            Err::<Seq<char>, OidcErrorView>(error@),
        ),
{
}

/// A request that presents the bearer token is let through at once, and no OIDC
/// token is looked at.
pub proof fn law_bearer_comes_first(
    state: AuthStateView,
    cache: Map<Seq<char>, CachedKey>,
    fields: Map<Seq<char>, Seq<Seq<u8>>>,
    line: RequestLine,
    now: u64,
    step: AuthStep,
    value: Seq<char>,
)
    requires
        fields.contains_key("authorization"@),
        spell(fields["authorization"@][0], value),
        presents_bearer(value, state.token),
        first_auth_step(state, cache, fields, line, now, step),
    ensures
        step matches AuthStep::Decided(outcome) && outcome.allowed && outcome.oidc is None,
{
    law_bearer_token_is_in_its_header(fields, state.token);
}

/// Without the bearer token, the OIDC token is the text in the configured
/// header, whatever that header is, and it is that text that is validated, with
/// the configuration and the keys at hand. The request is let through where it
/// is accepted, or else where the query string presents the gateway's token.
pub proof fn law_configured_header_is_validated(
    state: AuthStateView,
    config: OidcConfigView,
    cache: Map<Seq<char>, CachedKey>,
    fields: Map<Seq<char>, Seq<Seq<u8>>>,
    line: RequestLine,
    now: u64,
    step: AuthStep,
    lower: Seq<char>,
    jwt: Seq<char>,
)
    requires
        state.oidc == Some(config),
        is_lower_case_of(lower, config.header),
        fields.contains_key(lower),
        spell(fields[lower][0], jwt),
        !bearer_accepted(fields, state.token),
        first_auth_step(state, cache, fields, line, now, step),
    ensures
        match step {
            AuthStep::Decided(outcome) => {
                &&& outcome.oidc matches Some(result)
                &&& first_jwt_step(config, cache, jwt, now, JwtStep::Done(result))
                &&& outcome.allowed == (result is Ok || presents_query_token(line, state.token))
            },
            AuthStep::Fetch { jwt: text, pending } => {
                &&& text@ == jwt
                &&& first_jwt_step(config, cache, jwt, now, JwtStep::Fetch(pending))
            },
        },
{
    law_header_is_found_under_its_name(fields, config.header, lower);
    if let AuthStep::Decided(outcome) = step {
        assert(outcome@.allowed == outcome.allowed);
        assert(outcome@.oidc == Some(viewed_text(outcome.oidc->0)));
    }
}

/// Without the bearer token, and without a text in the configured header or
/// without OIDC, no OIDC token is checked, and the query string decides.
pub proof fn law_without_the_configured_header_the_query_decides(
    state: AuthStateView,
    cache: Map<Seq<char>, CachedKey>,
    fields: Map<Seq<char>, Seq<Seq<u8>>>,
    line: RequestLine,
    now: u64,
    step: AuthStep,
    lower: Seq<char>,
)
    requires
        state.oidc matches Some(config) ==> {
            &&& is_lower_case_of(lower, config.header)
            &&& fields.contains_key(lower) ==> forall|text: Seq<char>|
                !#[trigger] spell(fields[lower][0], text)
        },
        !bearer_accepted(fields, state.token),
        first_auth_step(state, cache, fields, line, now, step),
    ensures
        step matches AuthStep::Decided(outcome) && outcome.oidc is None && outcome.allowed
            == presents_query_token(line, state.token),
{
    if let Some(config) = state.oidc {
        law_header_is_found_under_its_name(fields, config.header, lower);
    }
    let outcome = step->Decided_0;
    assert(outcome@.allowed == outcome.allowed);
    assert(outcome@.oidc is None);
}

/// Authentication that goes on after a fetch lets a request through where its
/// OIDC token is accepted, or else where the query string presents the gateway's
/// token. The token is validated with the configuration; without one there is
/// none to validate, and no key is kept.
pub proof fn law_resumed_authentication(
    state: AuthStateView,
    before: Map<Seq<char>, CachedKey>,
    line: RequestLine,
    jwt: Seq<char>,
    pending: PendingKey,
    answer: Result<String, FetchFailure>,
    now: u64,
    after: Map<Seq<char>, CachedKey>,
    outcome: AuthOutcomeView,
)
    requires
        auth_resumed(state, before, line, jwt, pending, answer, now, after, outcome),
    ensures
        match state.oidc {
            Some(config) => {
                &&& outcome.oidc matches Some(result)
                &&& resumed(config, before, jwt, pending, answer, now, after, result)
                &&& outcome.allowed == (result is Ok || presents_query_token(line, state.token))
            },
            None => {
                &&& outcome.oidc is None
                &&& outcome.allowed == presents_query_token(line, state.token)
                &&& after == before
            },
        },
{
}

/// What is decided after the check of an OIDC token, if there was one, is to let
/// the request through where the token was accepted or the query string presents
/// the gateway's token; the result of the check is kept.
pub proof fn law_decision_after_the_check(
    line: RequestLine,
    token: Seq<char>,
    checked: Option<Result<Seq<char>, OidcErrorView>>,
)
    ensures
        decided(line, token, checked).oidc == checked,
        decided(line, token, checked).allowed == ((checked is Some && checked->0 is Ok)
            || presents_query_token(line, token)),
{
}

} // verus!
