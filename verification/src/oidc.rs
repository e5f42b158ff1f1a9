//! OIDC authentication: which key a token needs, and what the key says of it.
//!
//! Fetching a key is the caller's part. A step that needs one says from where;
//! the caller fetches it and resumes with the answer.

use crate::algorithm::Algorithm;
use crate::claims::{claim_number, claim_texts};
use crate::config::{GatewayOidcConfig, OidcConfigView};
use crate::error::{viewed, viewed_text, OidcError, OidcErrorView};
use crate::external::json::{json_is_object, json_member};
use crate::external::jwt::{
    claims_pass, decode_outcome, decoded_at, jwt_error_text, jwt_header,
};
use crate::jwt::{
    check_jwt, check_result, claim_rules, decoded_subject, key_request,
    law_key_is_the_one_the_header_names, normalized, requested_key, signature_valid, subject,
};
use crate::key_cache::{CachedKey, KeyCache, KEY_CACHE_TTL};
use crate::keys::{
    fetch_error, key_in_answer, key_location, location_of, read_answer, report_fetch_failure,
    FetchFailure, KeyLocation, KeyLocationView,
};
use jsonwebtoken::DecodingKey;
use vstd::prelude::*;

verus! {

/// The state of OIDC authentication that requests share. The signing keys that
/// were fetched are held apart from it, in a `KeyCache`: all copies of a state
/// are used with the same one.
pub struct OidcState {
    config: GatewayOidcConfig,
}

impl View for OidcState {
    type V = OidcConfigView;

    closed spec fn view(&self) -> OidcConfigView {
        self.config@
    }
}

impl Clone for OidcState {
    fn clone(&self) -> (copy: OidcState)
        ensures
            copy == *self,
    {
        OidcState { config: self.config.clone() }
    }
}

/// The key held for `kid`, with its algorithm, where there is one that may
/// still be used at time `now`.
pub open spec fn cached_key(cache: Map<Seq<char>, CachedKey>, kid: Seq<char>, now: u64) -> Option<
    (DecodingKey, Algorithm),
> {
    if cache.contains_key(kid) && cache[kid].fresh(now) {
        Some((cache[kid].decoding_key, cache[kid].algorithm))
    } else {
        None
    }
}

/// What to do for a signing key.
pub enum KeyStep {
    /// Use this key, which was fetched before.
    Cached(DecodingKey, Algorithm),
    /// Fetch it.
    Fetch(KeyLocation),
}

/// A key to be fetched.
#[derive(Debug, PartialEq, Eq)]
pub struct PendingKey {
    /// Identifier of the key.
    pub kid: String,
    /// The algorithm that the token names.
    pub alg: Algorithm,
    /// Where the key is fetched from.
    pub location: KeyLocation,
}

/// What to do for a token.
pub enum JwtStep {
    /// Nothing more: the token was checked, or cannot be.
    Done(Result<String, OidcError>),
    /// Fetch the key, then resume.
    Fetch(PendingKey),
}

/// The key that an answer to a fetch gives.
pub open spec fn fetched_key(
    location: KeyLocationView,
    kid: Seq<char>,
    alg: Algorithm,
    answer: Result<String, FetchFailure>,
) -> Result<(DecodingKey, Algorithm), OidcErrorView> {
    match answer {
        Ok(body) => key_in_answer(location, kid, alg, body@),
        Err(failure) => Err(fetch_error(location.url(), failure)),
    }
}

/// `cache` with the key of `kid` replaced by one fetched at time `now`.
pub open spec fn with_fetched(
    cache: Map<Seq<char>, CachedKey>,
    kid: Seq<char>,
    key: DecodingKey,
    alg: Algorithm,
    now: u64,
) -> Map<Seq<char>, CachedKey> {
    cache.insert(kid, CachedKey { decoding_key: key, algorithm: alg, fetched_at: now })
}

/// Whether `step` is the one for the key `kid` at time `now`.
pub open spec fn key_step(
    config: OidcConfigView,
    cache: Map<Seq<char>, CachedKey>,
    kid: Seq<char>,
    now: u64,
    step: KeyStep,
) -> bool {
    match cached_key(cache, kid, now) {
        Some((key, alg)) => step == KeyStep::Cached(key, alg),
        None => step matches KeyStep::Fetch(location) && location@ == location_of(
            config.jwks_url,
            kid,
        ),
    }
}

impl OidcState {
    /// The state for a configuration.
    pub fn from_config(oidc: &GatewayOidcConfig) -> (state: OidcState)
        ensures
            state@ == oidc@,
    {
        OidcState { config: oidc.clone() }
    }

    /// Name of the header that carries the token.
    pub fn header_name(&self) -> (name: &str)
        ensures
            name@ == self@.header,
    {
        &self.config.header
    }

    /// The signing key `kid`, from the cache where it was fetched less than an
    /// hour ago, or else where to fetch it.
    pub fn get_or_fetch_key(&self, cache: &KeyCache, kid: &str, now: u64) -> (step: KeyStep)
        ensures
            key_step(self@, cache@, kid@, now, step),
    {
        if let Some(cached) = cache.get(kid) {
            if cached.is_fresh(now) {
                return KeyStep::Cached(cached.decoding_key.clone(), cached.algorithm);
            }
        }
        KeyStep::Fetch(key_location(&self.config.jwks_url, kid))
    }
}

/// Reads the fetched key and keeps it. A fetch that failed, or an answer without
/// the key, changes nothing.
pub fn store_fetched_key(
    cache: &mut KeyCache,
    pending: &PendingKey,
    answer: Result<String, FetchFailure>,
    now: u64,
) -> (result: Result<(DecodingKey, Algorithm), OidcError>)
    ensures
        viewed(result) == fetched_key(pending.location@, pending.kid@, pending.alg, answer),
        final(cache)@ == match result {
            Ok((key, alg)) => with_fetched(old(cache)@, pending.kid@, key, alg, now),
            Err(_) => old(cache)@,
        },
{
    let body = match answer {
        Ok(body) => body,
        Err(failure) => {
            return Err(report_fetch_failure(pending.location.url(), &failure));
        },
    };
    match read_answer(&pending.location, &pending.kid, pending.alg, &body) {
        Ok((key, alg)) => {
            let entry = CachedKey { decoding_key: key.clone(), algorithm: alg, fetched_at: now };
            cache.insert(&pending.kid, entry);
            Ok((key, alg))
        },
        Err(error) => Err(error),
    }
}

/// The steps that validation of `jwt` at time `now` can start with.
pub open spec fn first_jwt_step(
    config: OidcConfigView,
    cache: Map<Seq<char>, CachedKey>,
    jwt: Seq<char>,
    now: u64,
    step: JwtStep,
) -> bool {
    match key_request(jwt) {
        Err(error) => step matches JwtStep::Done(result) && viewed_text(result) == Err::<
            Seq<char>,
            OidcErrorView,
        >(error),
        Ok((kid, alg)) => match cached_key(cache, kid, now) {
            Some((key, key_alg)) => step matches JwtStep::Done(result) && check_result(
                config,
                jwt,
                key,
                key_alg,
                viewed_text(result),
            ),
            None => step matches JwtStep::Fetch(pending) && pending.kid@ == kid && pending.alg
                == alg && pending.location@ == location_of(config.jwks_url, kid),
        },
    }
}

/// Starts to validate a token: reads which key it needs and, where that key is
/// at hand, checks the token with it.
pub fn validate_oidc_jwt(oidc: &OidcState, cache: &KeyCache, jwt: &str, now: u64) -> (step: JwtStep)
    ensures
        first_jwt_step(oidc@, cache@, jwt@, now, step),
{
    let (kid, alg) = match requested_key(jwt) {
        Ok(request) => request,
        Err(error) => {
            return JwtStep::Done(Err(error));
        },
    };
    match oidc.get_or_fetch_key(cache, &kid, now) {
        KeyStep::Cached(key, key_alg) => JwtStep::Done(
            check_jwt(&oidc.config, jwt, &key, key_alg),
        ),
        KeyStep::Fetch(location) => JwtStep::Fetch(PendingKey { kid, alg, location }),
    }
}

/// Whether validation of `jwt` that goes on at time `now` with the answer to the
/// fetch of its key can take the cache from `before` to `after` with this
/// result: the key is kept, and the token is checked with it; without a key
/// nothing changes, and the error is that of the fetch.
pub open spec fn resumed(
    config: OidcConfigView,
    before: Map<Seq<char>, CachedKey>,
    jwt: Seq<char>,
    pending: PendingKey,
    answer: Result<String, FetchFailure>,
    now: u64,
    after: Map<Seq<char>, CachedKey>,
    result: Result<Seq<char>, OidcErrorView>,
) -> bool {
    match fetched_key(pending.location@, pending.kid@, pending.alg, answer) {
        Ok((key, alg)) => {
            &&& check_result(config, jwt, key, alg, result)
            &&& after == with_fetched(before, pending.kid@, key, alg, now)
        },
        Err(error) => {
            &&& result == Err::<Seq<char>, OidcErrorView>(error)
            &&& after == before
        },
    }
}

/// Goes on to validate a token with the answer to the fetch of its key: keeps
/// the key, and checks the token with it.
pub fn resume_oidc_jwt(
    oidc: &OidcState,
    cache: &mut KeyCache,
    jwt: &str,
    pending: &PendingKey,
    answer: Result<String, FetchFailure>,
    now: u64,
) -> (result: Result<String, OidcError>)
    ensures
        resumed(
            oidc@,
            old(cache)@,
            jwt@,
            *pending,
            answer,
            now,
            final(cache)@,
            viewed_text(result),
        ),
{
    match store_fetched_key(cache, pending, answer, now) {
        Ok((key, alg)) => check_jwt(&oidc.config, jwt, &key, alg),
        Err(error) => Err(error),
    }
}

// What holds of all states and tokens.

/// A key that was fetched is used without fetching it again for one hour, and
/// not longer.
pub proof fn law_fetched_key_is_used_for_an_hour(
    cache: Map<Seq<char>, CachedKey>,
    kid: Seq<char>,
    key: DecodingKey,
    alg: Algorithm,
    fetched: u64,
    now: u64,
)
    ensures
        cached_key(with_fetched(cache, kid, key, alg, fetched), kid, now) == if now < fetched
            + KEY_CACHE_TTL {
            Some((key, alg))
        } else {
            None
        },
{
}

/// Fetching a key changes nothing for any other key.
pub proof fn law_fetch_leaves_other_keys(
    cache: Map<Seq<char>, CachedKey>,
    kid: Seq<char>,
    key: DecodingKey,
    alg: Algorithm,
    fetched: u64,
    other: Seq<char>,
    now: u64,
)
    requires
        other != kid,
    ensures
        cached_key(with_fetched(cache, kid, key, alg, fetched), other, now) == cached_key(
            cache,
            other,
            now,
        ),
{
}

/// A key that was fetched.
pub struct FetchedKey {
    pub kid: Seq<char>,
    pub key: DecodingKey,
    pub alg: Algorithm,
    pub at: u64,
}

/// `cache` after some more keys were fetched.
pub open spec fn with_more(
    cache: Map<Seq<char>, CachedKey>,
    more: Seq<FetchedKey>,
) -> Map<Seq<char>, CachedKey>
    decreases more.len(),
{
    if more.len() == 0 {
        cache
    } else {
        let last = more.last();
        with_fetched(with_more(cache, more.drop_last()), last.kid, last.key, last.alg, last.at)
    }
}

/// Fetching other keys changes nothing for the key `kid`.
pub proof fn lemma_more_keys(
    cache: Map<Seq<char>, CachedKey>,
    more: Seq<FetchedKey>,
    kid: Seq<char>,
    now: u64,
)
    requires
        forall|i: int| 0 <= i < more.len() ==> (#[trigger] more[i]).kid != kid,
    ensures
        cached_key(with_more(cache, more), kid, now) == cached_key(cache, kid, now),
    decreases more.len(),
{
    if more.len() > 0 {
        let fewer = more.drop_last();
        assert(more.last() == more[more.len() - 1]);
        assert forall|i: int| 0 <= i < fewer.len() implies (#[trigger] fewer[i]).kid != kid by {
            assert(fewer[i] == more[i]);
        }
        lemma_more_keys(cache, fewer, kid, now);
    }
}

/// A key that was fetched through one state is at hand for an hour for every
/// state that is used with the same cache, the copies of that state among them:
/// whatever algorithm is asked for, and whatever other keys were fetched since,
/// the key is not fetched again.
pub proof fn law_copies_share_fetched_keys(
    first: OidcConfigView,
    before: Map<Seq<char>, CachedKey>,
    jwt: Seq<char>,
    pending: PendingKey,
    answer: Result<String, FetchFailure>,
    fetched: u64,
    after: Map<Seq<char>, CachedKey>,
    result: Result<Seq<char>, OidcErrorView>,
    more: Seq<FetchedKey>,
    copy: OidcConfigView,
    now: u64,
    step: KeyStep,
)
    requires
        resumed(first, before, jwt, pending, answer, fetched, after, result),
        fetched_key(pending.location@, pending.kid@, pending.alg, answer) is Ok,
        forall|i: int| 0 <= i < more.len() ==> (#[trigger] more[i]).kid != pending.kid@,
        now < fetched + KEY_CACHE_TTL,
        key_step(copy, with_more(after, more), pending.kid@, now, step),
    ensures
        step is Cached,
        fetched_key(pending.location@, pending.kid@, pending.alg, answer) == Ok::<
            (DecodingKey, Algorithm),
            OidcErrorView,
        >((step->Cached_0, step->Cached_1)),
{
    lemma_more_keys(after, more, pending.kid@, now);
}

/// After a key was fetched through one state, no validation of a token that
/// needs the same key fetches it again within the hour, in that state or in any
/// other that is used with the same cache.
pub proof fn law_no_second_fetch_within_the_hour(
    config: OidcConfigView,
    cache: Map<Seq<char>, CachedKey>,
    kid: Seq<char>,
    key: DecodingKey,
    key_alg: Algorithm,
    fetched: u64,
    more: Seq<FetchedKey>,
    jwt: Seq<char>,
    now: u64,
    step: JwtStep,
)
    requires
        forall|i: int| 0 <= i < more.len() ==> (#[trigger] more[i]).kid != kid,
        key_request(jwt) matches Ok(request) && request.0 == kid,
        now < fetched + KEY_CACHE_TTL,
        first_jwt_step(
            config,
            with_more(with_fetched(cache, kid, key, key_alg, fetched), more),
            jwt,
            now,
            step,
        ),
    ensures
        step matches JwtStep::Done(result) && check_result(
            config,
            jwt,
            key,
            key_alg,
            viewed_text(result),
        ),
{
    law_fetched_key_is_used_for_an_hour(cache, kid, key, key_alg, fetched, now);
    lemma_more_keys(with_fetched(cache, kid, key, key_alg, fetched), more, kid, now);
}

/// A token is accepted only with a valid signature over its original text, and
/// the subject that is returned is that of its claims.
pub proof fn law_accepted_token_is_signed(
    config: OidcConfigView,
    jwt: Seq<char>,
    key: DecodingKey,
    alg: Algorithm,
    name: Seq<char>,
)
    requires
        check_result(config, jwt, key, alg, Ok(name)),
    ensures
        signature_valid(jwt, key, alg),
        exists|seconds: u64|
            (#[trigger] decode_outcome(normalized(jwt), key, claim_rules(config, alg), seconds)
                matches Ok(claims) && name == subject(claims)),
{
}

/// A token without a valid signature is refused, whatever its claims.
pub proof fn law_unsigned_token_is_refused(
    config: OidcConfigView,
    jwt: Seq<char>,
    key: DecodingKey,
    alg: Algorithm,
    result: Result<Seq<char>, OidcErrorView>,
)
    requires
        !signature_valid(jwt, key, alg),
        check_result(config, jwt, key, alg, result),
    ensures
        result == Err::<Seq<char>, OidcErrorView>(OidcErrorView::InvalidSignature),
{
}

/// Whenever a token is accepted under one key, it is for the same subject.
pub proof fn law_subject_does_not_change(
    config: OidcConfigView,
    jwt: Seq<char>,
    key: DecodingKey,
    alg: Algorithm,
    first: Seq<char>,
    second: Seq<char>,
)
    requires
        check_result(config, jwt, key, alg, Ok(first)),
        check_result(config, jwt, key, alg, Ok(second)),
    ensures
        first == second,
{
}

/// Where an accepted token has a whole number as `exp`, it is accepted until one
/// minute after that time and never later. Only times from the second minute of
/// 1970 on count.
pub proof fn law_expiry_decides(
    config: OidcConfigView,
    jwt: Seq<char>,
    key: DecodingKey,
    alg: Algorithm,
    name: Seq<char>,
)
    requires
        check_result(config, jwt, key, alg, Ok(name)),
    ensures
        exists|accepted: u64|
            (#[trigger] decode_outcome(normalized(jwt), key, claim_rules(config, alg), accepted)
                matches Ok(claims) && {
                &&& name == subject(claims)
                &&& claim_number(claims, "exp"@) matches Some(expiry) ==> {
                    &&& accepted <= expiry + 60
                    &&& forall|seconds: u64|
                        seconds >= 60 ==> (#[trigger] decode_outcome(
                            normalized(jwt),
                            key,
                            claim_rules(config, alg),
                            seconds,
                        ) is Ok <==> seconds <= expiry + 60)
                }
            }),
{
    let rules = claim_rules(config, alg);
    let accepted = lemma_accepted_at(config, jwt, key, alg, name);
    assert(decode_outcome(normalized(jwt), key, rules, accepted) is Ok);
}

/// The time at which a token was accepted.
proof fn lemma_accepted_at(
    config: OidcConfigView,
    jwt: Seq<char>,
    key: DecodingKey,
    alg: Algorithm,
    name: Seq<char>,
) -> (seconds: u64)
    requires
        check_result(config, jwt, key, alg, Ok(name)),
    ensures
        decode_outcome(normalized(jwt), key, claim_rules(config, alg), seconds) matches Ok(claims)
            && name == subject(claims) && decoded_at(
            normalized(jwt),
            key,
            claim_rules(config, alg),
            seconds,
            claims,
        ),
{
    let rules = claim_rules(config, alg);
    choose|seconds: u64|
        (#[trigger] decode_outcome(normalized(jwt), key, rules, seconds) matches Ok(claims) && name
            == subject(claims) && decoded_at(normalized(jwt), key, rules, seconds, claims))
}

/// Time can only make a token expire: one that is accepted is accepted, for the
/// same subject, at every earlier time from the second minute of 1970 on.
pub proof fn law_time_only_expires_tokens(
    config: OidcConfigView,
    jwt: Seq<char>,
    key: DecodingKey,
    alg: Algorithm,
    name: Seq<char>,
)
    requires
        check_result(config, jwt, key, alg, Ok(name)),
    ensures
        exists|accepted: u64|
            {
                &&& #[trigger] decode_outcome(
                    normalized(jwt),
                    key,
                    claim_rules(config, alg),
                    accepted,
                ) is Ok
                &&& forall|earlier: u64|
                    60 <= earlier <= accepted ==> decoded_subject(
                        #[trigger] decode_outcome(
                            normalized(jwt),
                            key,
                            claim_rules(config, alg),
                            earlier,
                        ),
                    ) == Ok::<Seq<char>, OidcErrorView>(name)
            },
{
    let rules = claim_rules(config, alg);
    let accepted = lemma_accepted_at(config, jwt, key, alg, name);
    assert(decode_outcome(normalized(jwt), key, rules, accepted) is Ok);
}

/// An accepted token carries an expiry time, if its claims are an object. Where
/// an issuer or an audience is configured, it is among those that the token
/// names, in a string or a list of strings.
pub proof fn law_accepted_token_fits_configuration(
    config: OidcConfigView,
    jwt: Seq<char>,
    key: DecodingKey,
    alg: Algorithm,
    name: Seq<char>,
)
    requires
        check_result(config, jwt, key, alg, Ok(name)),
    ensures
        exists|seconds: u64|
            (#[trigger] decode_outcome(normalized(jwt), key, claim_rules(config, alg), seconds)
                matches Ok(claims) && {
                &&& name == subject(claims)
                &&& json_is_object(claims) ==> json_member(claims, "exp"@) is Some
                &&& config.issuer matches Some(issuer) ==> (claim_texts(claims, "iss"@) matches Some(
                    names,
                ) ==> names.contains(issuer))
                &&& config.audience matches Some(audience) ==> (claim_texts(
                    claims,
                    "aud"@,
                ) matches Some(names) ==> names.contains(audience))
            }),
{
    let rules = claim_rules(config, alg);
    let seconds = lemma_accepted_at(config, jwt, key, alg, name);
    let claims = decode_outcome(normalized(jwt), key, rules, seconds)->Ok_0;
    assert(claims_pass(rules, claims));
}

/// Where no issuer is configured, none is asked for, and where no audience is,
/// none is.
pub proof fn law_nothing_configured_nothing_asked(config: OidcConfigView, alg: Algorithm)
    ensures
        config.issuer is None ==> claim_rules(config, alg).issuers is None,
        config.audience is None ==> !claim_rules(config, alg).validate_aud,
{
}


// The steps of validation, in terms of the token header and the keys held.

/// Validation starts with the identifier and the algorithm that the header of
/// the normalized token names, exactly as they stand there. Where a key is held
/// under that identifier that was fetched less than an hour before, the token is
/// checked with that key and the algorithm held with it; or else a key is to be
/// fetched for that identifier and that algorithm, from the configured place.
pub proof fn law_validation_follows_the_header(
    config: OidcConfigView,
    cache: Map<Seq<char>, CachedKey>,
    jwt: Seq<char>,
    now: u64,
    step: JwtStep,
)
    requires
        first_jwt_step(config, cache, jwt, now, step),
    ensures
        match jwt_header(normalized(jwt)) {
            Ok((Some(kid), alg)) => if cache.contains_key(kid) && now < cache[kid].fetched_at
                + 3_600_000_000_000 {
                step matches JwtStep::Done(result) && check_result(
                    config,
                    jwt,
                    cache[kid].decoding_key,
                    cache[kid].algorithm,
                    viewed_text(result),
                )
            } else {
                step matches JwtStep::Fetch(pending) && {
                    &&& pending.kid@ == kid
                    &&& pending.alg == alg
                    &&& pending.location@ == location_of(config.jwks_url, kid)
                }
            },
            Ok((None, _)) => step matches JwtStep::Done(Err(OidcError::MissingKid)),
            Err(error) => step matches JwtStep::Done(Err(OidcError::InvalidClaims(text))) && text@
                == "malformed header: "@ + jwt_error_text(error),
        },
{
    law_key_is_the_one_the_header_names(jwt);
    if let Ok((None, _)) = jwt_header(normalized(jwt)) {
        let error = (step->Done_0)->Err_0;
        assert(error@ == OidcErrorView::MissingKid);
        assert(error is MissingKid);
    }
    if let Err(cause) = jwt_header(normalized(jwt)) {
        let error = (step->Done_0)->Err_0;
        assert(error@ is InvalidClaims);
        assert(error is InvalidClaims);
    }
}

/// The key for an identifier is the one held under it, with the algorithm held
/// with it, for an hour after it was fetched; or else it is to be fetched from
/// the configured place.
pub proof fn law_key_comes_from_cache_or_configured_place(
    config: OidcConfigView,
    cache: Map<Seq<char>, CachedKey>,
    kid: Seq<char>,
    now: u64,
    step: KeyStep,
)
    requires
        key_step(config, cache, kid, now, step),
    ensures
        if cache.contains_key(kid) && now < cache[kid].fetched_at + 3_600_000_000_000 {
            step == KeyStep::Cached(cache[kid].decoding_key, cache[kid].algorithm)
        } else {
            step matches KeyStep::Fetch(location) && location@ == location_of(config.jwks_url, kid)
        },
{
}

/// Validation that goes on with the answer to a fetch checks the token with the
/// key in the answer, and holds that key, with its algorithm and the time, under
/// the identifier that was asked for. All else that is held stays. Without a key
/// nothing changes, and the token is refused for what went wrong.
pub proof fn law_resumed_validation(
    config: OidcConfigView,
    before: Map<Seq<char>, CachedKey>,
    jwt: Seq<char>,
    pending: PendingKey,
    answer: Result<String, FetchFailure>,
    now: u64,
    after: Map<Seq<char>, CachedKey>,
    result: Result<Seq<char>, OidcErrorView>,
)
    requires
        resumed(config, before, jwt, pending, answer, now, after, result),
    ensures
        match answer {
            Ok(body) => match key_in_answer(pending.location@, pending.kid@, pending.alg, body@) {
                Ok((key, alg)) => {
                    &&& check_result(config, jwt, key, alg, result)
                    &&& after.contains_key(pending.kid@)
                    &&& after[pending.kid@].decoding_key == key
                    &&& after[pending.kid@].algorithm == alg
                    &&& after[pending.kid@].fetched_at == now
                    &&& forall|other: Seq<char>|
                        other != pending.kid@ ==> (#[trigger] after.contains_key(other)
                            <==> before.contains_key(other)) && (before.contains_key(other)
                            ==> after[other] == before[other])
                },
                Err(error) => after == before && result == Err::<Seq<char>, OidcErrorView>(error),
            },
            Err(failure) => after == before && result == Err::<Seq<char>, OidcErrorView>(
                fetch_error(
                    match pending.location {
                        KeyLocation::SingleKey(url) => url@,
                        KeyLocation::KeySet(url) => url@,
                    },
                    failure,
                ),
            ),
        },
{
}

/// What is fetched is what the answer holds.
pub proof fn law_fetched_key_is_that_of_the_answer(
    location: KeyLocation,
    kid: Seq<char>,
    alg: Algorithm,
    answer: Result<String, FetchFailure>,
)
    ensures
        match answer {
            Ok(body) => fetched_key(location@, kid, alg, answer) == key_in_answer(
                location@,
                kid,
                alg,
                body@,
            ),
            Err(failure) => fetched_key(location@, kid, alg, answer) == Err::<
                (DecodingKey, Algorithm),
                OidcErrorView,
            >(
                fetch_error(
                    match location {
                        KeyLocation::SingleKey(url) => url@,
                        KeyLocation::KeySet(url) => url@,
                    },
                    failure,
                ),
            ),
        },
{
}

} // verus!
