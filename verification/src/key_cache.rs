//! A cache of signing keys, one per key identifier.

use crate::algorithm::Algorithm;
use jsonwebtoken::DecodingKey;
use vstd::hash_map::StringHashMap;
use vstd::prelude::*;

verus! {

/// How long a cached key is used, in nanoseconds: one hour.
pub const KEY_CACHE_TTL: u64 = 3_600_000_000_000;

/// A signing key with its algorithm and the time it was fetched.
pub struct CachedKey {
    pub decoding_key: DecodingKey,
    pub algorithm: Algorithm,
    /// Reading of a monotonic clock, in nanoseconds.
    pub fetched_at: u64,
}

/// How much later `now` is than `then`; nothing where it is not later.
pub open spec fn elapsed(then: u64, now: u64) -> int {
    if now > then {
        now - then
    } else {
        0
    }
}

impl CachedKey {
    /// Whether the key may still be used at time `now`.
    pub open spec fn fresh(self, now: u64) -> bool {
        elapsed(self.fetched_at, now) < KEY_CACHE_TTL
    }

    /// Whether the key may still be used at time `now`.
    pub fn is_fresh(&self, now: u64) -> (fresh: bool)
        ensures
            fresh == self.fresh(now),
    {
        now.saturating_sub(self.fetched_at) < KEY_CACHE_TTL
    }
}

impl Clone for CachedKey {
    fn clone(&self) -> (copy: CachedKey)
        ensures
            copy == *self,
    {
        CachedKey {
            decoding_key: self.decoding_key.clone(),
            algorithm: self.algorithm,
            fetched_at: self.fetched_at,
        }
    }
}

/// Keys by their identifiers.
pub struct KeyCache {
    keys: StringHashMap<CachedKey>,
}

impl View for KeyCache {
    type V = Map<Seq<char>, CachedKey>;

    closed spec fn view(&self) -> Map<Seq<char>, CachedKey> {
        self.keys@
    }
}

impl KeyCache {
    /// A cache without keys.
    pub fn new() -> (cache: KeyCache)
        ensures
            cache@ == Map::<Seq<char>, CachedKey>::empty(),
    {
        KeyCache { keys: StringHashMap::new() }
    }

    /// The key held for `kid`.
    pub fn get(&self, kid: &str) -> (key: Option<&CachedKey>)
        ensures
            key is Some <==> self@.contains_key(kid@),
            key matches Some(found) ==> *found == self@[kid@],
    {
        self.keys.get(kid)
    }

    /// Holds `key` for `kid`, in place of what was held for it.
    pub fn insert(&mut self, kid: &str, key: CachedKey)
        ensures
            final(self)@ == old(self)@.insert(kid@, key),
    {
        self.keys.insert(kid.to_owned(), key);
    }
}


/// A key may be used before an hour has passed since it was fetched, and not from
/// then on.
pub proof fn law_key_is_fresh_for_an_hour(key: CachedKey, now: u64)
    ensures
        key.fresh(now) <==> now < key.fetched_at + 3_600_000_000_000,
{
}

} // verus!
