//! The response cache: successful responses to safe requests, kept for the
//! time that the route allows and found again by a sanitized key.

use vstd::prelude::*;
use vstd::string::StringExecFns;
use crate::bounded::{
    store_build, store_entry_count, store_get, store_insert, store_invalidate, stored_responses,
    ResponseStore,
};
use crate::time::{elapsed, elapsed_nanos, nanos_of};
use crate::config::CacheConfig;
use crate::constants::{
    CACHE_IDLE_TIMEOUT_SECONDS, CACHE_MAX_CAPACITY, CACHE_MAX_KEY_LENGTH,
    CACHE_TRUNCATED_KEY_LENGTH, CACHE_TTL_SECONDS,
};
use crate::duration::{duration_of, parse_duration};
use crate::message::{header_views, Header, HeaderView};
use crate::text::{chars_of, str_eq};

verus! {

/// Whether `c` may stand in a cache key: an ASCII letter or digit, `_` or `-`.
pub open spec fn is_key_char(c: char) -> bool {
    ||| 'A' <= c <= 'Z'
    ||| 'a' <= c <= 'z'
    ||| '0' <= c <= '9'
    ||| c == '_'
    ||| c == '-'
}

/// `c` if it may stand in a cache key, and `_` in place of anything else.
pub open spec fn key_char(c: char) -> char {
    if is_key_char(c) {
        c
    } else {
        '_'
    }
}

/// The cache key of the request URI `uri`: each character that may not
/// stand in a key replaced by `_`, and a key of more than 512 characters
/// cut to its first 508, with `_truncated` behind them.
pub open spec fn cache_key_of(uri: Seq<char>) -> Seq<char> {
    let clean = uri.map_values(|c: char| key_char(c));
    if clean.len() > 512 {
        clean.take(508) + "_truncated"@
    } else {
        clean
    }
}

/// Whether `c` may stand in a cache key.
fn char_is_key_char(c: char) -> (r: bool)
    ensures
        r == is_key_char(c),
{
    (c >= 'A' && c <= 'Z') || (c >= 'a' && c <= 'z') || (c >= '0' && c <= '9') || c == '_' || c
        == '-'
}

/// Derives the cache key of a request URI, so that nothing in the URI can
/// reach another request's entry.
pub fn sanitize_cache_key(uri: &str) -> (key: String)
    ensures
        key@ == cache_key_of(uri@),
        key@.len() <= 518,
        forall|i: int| 0 <= i < key@.len() ==> is_key_char(#[trigger] key@[i]),
{
    proof {
        reveal_strlit("_truncated");
    }
    let v = chars_of(uri);
    let ghost clean = uri@.map_values(|c: char| key_char(c));
    let kept: usize = if v.len() > CACHE_MAX_KEY_LENGTH {
        CACHE_TRUNCATED_KEY_LENGTH
    } else {
        v.len()
    };
    let mut key = String::new();
    let mut i: usize = 0;
    while i < kept
        invariant
            i <= kept <= v.len(),
            v@ == uri@,
            clean == uri@.map_values(|c: char| key_char(c)),
            key@ == clean.take(i as int),
        decreases kept - i,
    {
        let c = v[i];
        key.push(if char_is_key_char(c) {
            c
        } else {
            '_'
        });
        i += 1;
        assert(clean.take(i as int) =~= clean.take(i - 1).push(clean[i - 1]));
    }
    if v.len() > CACHE_MAX_KEY_LENGTH {
        key.append("_truncated");
    } else {
        assert(clean.take(kept as int) =~= clean);
    }
    key
}

/// A response as it is kept in the cache.
#[derive(Debug, Clone, PartialEq, Eq)]
pub struct CachedResponse {
    pub status: u16,
    pub headers: Vec<Header>,
    pub body: Vec<u8>,
    /// The instant the response was put in the cache, in nanoseconds.
    pub inserted_at: u64,
}

/// A cached response as plain values.
pub struct ResponseView {
    pub status: u16,
    pub headers: Seq<HeaderView>,
    pub body: Seq<u8>,
    pub inserted_at: u64,
}

impl View for CachedResponse {
    type V = ResponseView;

    open spec fn view(&self) -> ResponseView {
        ResponseView {
            status: self.status,
            headers: header_views(self.headers@),
            body: self.body@,
            inserted_at: self.inserted_at,
        }
    }
}

/// Whether the method is safe: one of `GET`, `HEAD`, `OPTIONS`, `TRACE`.
pub open spec fn is_safe_method(method: Seq<char>) -> bool {
    method == "GET"@ || method == "HEAD"@ || method == "OPTIONS"@ || method == "TRACE"@
}

/// Whether the method is safe, and so the response may be cached.
pub fn method_is_safe(method: &str) -> (r: bool)
    ensures
        r == is_safe_method(method@),
{
    str_eq(method, "GET") || str_eq(method, "HEAD") || str_eq(method, "OPTIONS") || str_eq(
        method,
        "TRACE",
    )
}

/// Whether the status is a success, 200 to 299.
pub open spec fn is_success(status: u16) -> bool {
    200 <= status < 300
}

/// Whether the status is a success, and so the response may be cached.
pub fn status_is_success(status: u16) -> (r: bool)
    ensures
        r == is_success(status),
{
    200 <= status && status < 300
}

/// The seconds that a route lets a response be served from the cache:
/// without end where the time cannot be read.
pub open spec fn ttl_of(config: CacheConfig) -> u64 {
    match duration_of(config.ttl@) {
        Ok(seconds) => seconds,
        Err(_) => u64::MAX,
    }
}

/// Reads the time to live out of a route's cache policy.
pub fn cache_ttl(config: &CacheConfig) -> (seconds: u64)
    ensures
        seconds == ttl_of(*config),
{
    match parse_duration(config.ttl.as_str()) {
        Ok(seconds) => seconds,
        Err(_) => u64::MAX,
    }
}

/// Whether an entry put in the cache at `inserted_at` may still be served
/// at `now`: less than `ttl_seconds` seconds have passed.
pub open spec fn is_fresh(inserted_at: u64, ttl_seconds: u64, now: u64) -> bool {
    elapsed(inserted_at, now) < ttl_seconds * 1_000_000_000
}

/// Whether an entry put in the cache at `inserted_at` may still be served
/// at `now`.
pub fn still_fresh(inserted_at: u64, ttl_seconds: u64, now: u64) -> (r: bool)
    ensures
        r == is_fresh(inserted_at, ttl_seconds, now),
{
    let age: u128 = elapsed_nanos(inserted_at, now) as u128;
    let limit: u128 = nanos_of(ttl_seconds);
    age < limit
}

/// What the cache hands out of what its store found under a key: the
/// response that was found, if one was found and it is fresh at `now`.
pub open spec fn served(found: Option<CachedResponse>, ttl_seconds: u64, now: u64) -> Option<
    CachedResponse,
> {
    match found {
        Some(response) => if is_fresh(response.inserted_at, ttl_seconds, now) {
            Some(response)
        } else {
            None
        },
        None => None,
    }
}

/// Judges what the store found under a key: a response that was found and
/// is fresh at `now` is handed out as it is, and anything else is a miss.
pub fn serve_if_fresh(found: Option<CachedResponse>, ttl_seconds: u64, now: u64) -> (r: Option<
    CachedResponse,
>)
    ensures
        r == served(found, ttl_seconds, now),
{
    match found {
        Some(response) => {
            if still_fresh(response.inserted_at, ttl_seconds, now) {
                Some(response)
            } else {
                None
            }
        },
        None => None,
    }
}

/// The cached responses.
pub struct ResponseCache {
    store: ResponseStore,
}

impl ResponseCache {
    /// The responses that the cache was given and has not discarded. The
    /// store behind the cache may have dropped any of them.
    pub closed spec fn entries(self) -> Map<Seq<char>, ResponseView> {
        stored_responses(self.store)
    }

    /// An empty cache of up to ten thousand entries, each dropped five
    /// minutes after it was put in or three minutes after it was last read.
    pub fn new() -> (cache: Self)
        ensures
            cache.entries() == Map::<Seq<char>, ResponseView>::empty(),
    {
        let cache = ResponseCache {
            store: store_build(CACHE_MAX_CAPACITY, CACHE_TTL_SECONDS, CACHE_IDLE_TIMEOUT_SECONDS),
        };
        assert(cache.entries() =~= Map::<Seq<char>, ResponseView>::empty());
        cache
    }

    /// Looks for a response under `key` that may be served at `now` under
    /// a time to live of `ttl_seconds`.
    ///
    /// A response that is found and fresh is handed out, and the cache is
    /// left as it is. Anything else is a miss, after which the cache holds
    /// nothing under the key: a stale response is discarded. The store
    /// may find nothing where the cache was given something: whether it
    /// finds a response is the store's to say, and `serve_if_fresh` says
    /// what becomes of what it found.
    pub fn lookup(&mut self, key: &str, ttl_seconds: u64, now: u64) -> (r: Option<CachedResponse>)
        ensures
            r matches Some(found) ==> {
                &&& old(self).entries().contains_key(key@)
                &&& old(self).entries()[key@] == found@
                &&& is_fresh(found.inserted_at, ttl_seconds, now)
                &&& final(self).entries() == old(self).entries()
            },
            r is None ==> final(self).entries() == old(self).entries().remove(key@),
    {
        let found = store_get(&self.store, key);
        let r = serve_if_fresh(found, ttl_seconds, now);
        if r.is_none() {
            store_invalidate(&mut self.store, key);
        }
        r
    }

    /// Puts `response` in the cache under `key`, in place of what was there.
    pub fn insert(&mut self, key: String, response: CachedResponse)
        ensures
            final(self).entries() == old(self).entries().insert(key@, response@),
    {
        store_insert(&mut self.store, key, response);
    }

    /// About how many entries the store behind the cache holds now. The
    /// store gives an estimate, of which it promises nothing.
    pub fn entry_count(&self) -> u64 {
        store_entry_count(&self.store)
    }
}

/// What the cache stage decides before the request goes on.
#[derive(Debug, Clone, PartialEq, Eq)]
pub enum CacheDecision {
    /// The route has no cache, or the method is not safe: the cache is left alone.
    Bypass,
    /// A fresh response was found: it answers the request.
    Hit(CachedResponse),
    /// Nothing fresh was found, and nothing is left under the key: the
    /// request goes on, and a successful response is to be stored under
    /// the key.
    Miss(String),
}

/// The cache stage before the upstream call: looks for a response to a
/// safe request on a route that has a cache.
pub fn cache_before(
    cache: &mut ResponseCache,
    config: &Option<CacheConfig>,
    method: &str,
    uri: &str,
    now: u64,
) -> (decision: CacheDecision)
    ensures
        config is None || !is_safe_method(method@) ==> decision == CacheDecision::Bypass
            && final(cache).entries() == old(cache).entries(),
        config is Some && is_safe_method(method@) ==> {
            let key = cache_key_of(uri@);
            let ttl = ttl_of(config->0);
            match decision {
                CacheDecision::Bypass => false,
                CacheDecision::Hit(found) => {
                    &&& old(cache).entries().contains_key(key)
                    &&& old(cache).entries()[key] == found@
                    &&& is_fresh(found.inserted_at, ttl, now)
                    &&& final(cache).entries() == old(cache).entries()
                },
                CacheDecision::Miss(k) => {
                    &&& k@ == key
                    &&& final(cache).entries() == old(cache).entries().remove(key)
                },
            }
        },
{
    let policy = match config {
        None => {
            return CacheDecision::Bypass;
        },
        Some(policy) => policy,
    };
    if !method_is_safe(method) {
        return CacheDecision::Bypass;
    }
    let key = sanitize_cache_key(uri);
    let ttl = cache_ttl(policy);
    match cache.lookup(key.as_str(), ttl, now) {
        Some(found) => CacheDecision::Hit(found),
        None => CacheDecision::Miss(key),
    }
}

/// The cache stage after the upstream call: keeps a successful response
/// under `key`, stamped with `now`, and says whether it did.
pub fn cache_after(
    cache: &mut ResponseCache,
    key: String,
    status: u16,
    headers: Vec<Header>,
    body: Vec<u8>,
    now: u64,
) -> (stored: bool)
    ensures
        stored == is_success(status),
        is_success(status) ==> final(cache).entries() == old(cache).entries().insert(
            key@,
            ResponseView { status, headers: header_views(headers@), body: body@, inserted_at: now },
        ),
        !is_success(status) ==> final(cache).entries() == old(cache).entries(),
{
    if status_is_success(status) {
        cache.insert(key, CachedResponse { status, headers, body, inserted_at: now });
        true
    } else {
        false
    }
}

} // verus!
