//! The rate limiter: a token bucket for each client.
//!
//! Tokens are counted in billionths, and time in nanoseconds, so that a
//! bucket is refilled in whole steps: what a refill adds is rounded down to
//! a billionth of a token.

use vstd::prelude::*;
use crate::config::RateLimitConfig;
use crate::constants::{RATE_LIMITER_DEFAULT_PERIOD_SECONDS, RATE_LIMITER_DEFAULT_TTL_SECONDS};
use crate::duration::{duration_of, InvalidFormat};
use crate::errors::AppError;
use crate::tables::{
    bucket_entries, buckets_get, buckets_insert, buckets_keys, buckets_len, buckets_new,
    buckets_remove, BucketTable,
};
use crate::text::owned;
use crate::time::{elapsed, elapsed_nanos, is_older_than};

verus! {

/// The billionths of a token that make one token.
pub const TOKEN: u128 = 1_000_000_000;

/// The bucket of one client.
#[derive(Debug, Clone, Copy, PartialEq, Eq, Structural)]
pub struct Bucket {
    /// What the bucket holds, in billionths of a token.
    pub tokens: u128,
    /// The instant of the last refill, in nanoseconds.
    pub last_refill: u64,
    /// The instant of the last request, in nanoseconds.
    pub last_access: u64,
}

/// How fast a bucket fills: `tokens` tokens in `per_seconds` seconds. With
/// no seconds at all the bucket is always full.
#[derive(Debug, Clone, Copy, PartialEq, Eq, Structural)]
pub struct RefillRate {
    pub tokens: u64,
    pub per_seconds: u64,
}

/// What `nanos` nanoseconds add to a bucket at the rate `rate`, in
/// billionths of a token, rounded down.
pub open spec fn added(rate: RefillRate, nanos: int) -> int
    recommends
        rate.per_seconds > 0,
{
    nanos * rate.tokens / (rate.per_seconds as int)
}

/// What a bucket that held `tokens` holds after `nanos` nanoseconds: what
/// it held and what was added, and no more than `capacity` tokens.
pub open spec fn refilled(tokens: int, capacity: u64, rate: RefillRate, nanos: int) -> int {
    let full = capacity * 1_000_000_000;
    if rate.per_seconds == 0 {
        full
    } else if tokens + added(rate, nanos) < full {
        tokens + added(rate, nanos)
    } else {
        full
    }
}

/// What a bucket holds once it has been refilled at `now`, before the
/// request is served. A client that has no bucket yet gets a full one.
pub open spec fn level(bucket: Option<Bucket>, capacity: u64, rate: RefillRate, now: u64) -> int {
    match bucket {
        Some(b) => refilled(b.tokens as int, capacity, rate, elapsed(b.last_refill, now)),
        None => refilled(capacity * 1_000_000_000, capacity, rate, 0),
    }
}

/// Whether a request at `now` is served: the refilled bucket holds a token.
pub open spec fn allows(bucket: Option<Bucket>, capacity: u64, rate: RefillRate, now: u64) -> bool {
    level(bucket, capacity, rate, now) >= 1_000_000_000
}

/// The bucket after a request at `now`: refilled, and one token poorer if
/// the request was served.
pub open spec fn bucket_after(bucket: Option<Bucket>, capacity: u64, rate: RefillRate, now: u64) -> Bucket {
    let l = level(bucket, capacity, rate, now);
    Bucket {
        tokens: (if l >= 1_000_000_000 {
            l - 1_000_000_000
        } else {
            l
        }) as u128,
        last_refill: now,
        last_access: now,
    }
}

/// What a refilled bucket holds lies between nothing and its capacity,
/// whatever it held before.
pub proof fn lemma_level_bounds(bucket: Option<Bucket>, capacity: u64, rate: RefillRate, now: u64)
    ensures
        0 <= level(bucket, capacity, rate, now) <= capacity * 1_000_000_000,
{
    if rate.per_seconds > 0 {
        match bucket {
            Some(b) => {
                let n = elapsed(b.last_refill, now);
                let t = rate.tokens as int;
                let p = rate.per_seconds as int;
                assert(n * t >= 0) by (nonlinear_arith)
                    requires
                        n >= 0,
                        t >= 0,
                ;
                assert((n * t) / p >= 0) by (nonlinear_arith)
                    requires
                        n * t >= 0,
                        p > 0,
                ;
            },
            None => {
                let t = rate.tokens as int;
                let p = rate.per_seconds as int;
                assert((0 * t) / p == 0) by (nonlinear_arith)
                    requires
                        p > 0,
                ;
            },
        }
    }
}

/// What a bucket of `capacity` tokens holds when it is full, in billionths
/// of a token.
fn full_bucket(capacity: u64) -> (r: u128)
    ensures
        r == capacity * 1_000_000_000,
{
    assert(capacity * 1_000_000_000 <= 0xFFFF_FFFF_FFFF_FFFF * 1_000_000_000) by (nonlinear_arith)
        requires
            capacity <= 0xFFFF_FFFF_FFFF_FFFF,
    ;
    (capacity as u128) * TOKEN
}

/// Refills the bucket at `now` and serves one request from it if it holds a
/// token: the bucket as it is left, and whether the request was served.
pub fn refill_and_take(bucket: Option<Bucket>, capacity: u64, rate: RefillRate, now: u64) -> (r: (
    Bucket,
    bool,
))
    ensures
        r.0 == bucket_after(bucket, capacity, rate, now),
        r.1 == allows(bucket, capacity, rate, now),
{
    proof {
        lemma_level_bounds(bucket, capacity, rate, now);
    }
    let full: u128 = full_bucket(capacity);
    let l: u128 = if rate.per_seconds == 0 {
        full
    } else {
        match bucket {
            None => {
                assert((0 * (rate.tokens as int)) / (rate.per_seconds as int) == 0) by (nonlinear_arith)
                    requires
                        rate.per_seconds > 0,
                ;
                full
            },
            Some(b) => {
                let nanos = elapsed_nanos(b.last_refill, now);
                assert(nanos * rate.tokens <= 0xFFFF_FFFF_FFFF_FFFF * 0xFFFF_FFFF_FFFF_FFFF) by (nonlinear_arith)
                    requires
                        0 <= nanos <= 0xFFFF_FFFF_FFFF_FFFF,
                        0 <= rate.tokens <= 0xFFFF_FFFF_FFFF_FFFF,
                ;
                assert(nanos * rate.tokens >= 0) by (nonlinear_arith)
                    requires
                        nanos >= 0,
                        rate.tokens >= 0,
                ;
                let gain: u128 = (nanos as u128) * (rate.tokens as u128) / (
                rate.per_seconds as u128);
                assert(gain == added(rate, nanos as int));
                match b.tokens.checked_add(gain) {
                    Some(sum) => if sum < full {
                        sum
                    } else {
                        full
                    },
                    None => full,
                }
            },
        }
    };
    assert(l == level(bucket, capacity, rate, now));
    if l >= TOKEN {
        (Bucket { tokens: l - TOKEN, last_refill: now, last_access: now }, true)
    } else {
        (Bucket { tokens: l, last_refill: now, last_access: now }, false)
    }
}

/// The buckets of all clients, by client key.
pub struct InMemoryRateLimitState {
    clients: BucketTable,
    ttl_seconds: u64,
}

impl InMemoryRateLimitState {
    /// The buckets that the store holds.
    pub closed spec fn buckets(self) -> Map<Seq<char>, Bucket> {
        bucket_entries(self.clients)
    }

    /// The seconds without a request after which a bucket may be dropped.
    pub closed spec fn ttl(self) -> u64 {
        self.ttl_seconds
    }

    /// The bucket of a client, where the store holds one.
    pub open spec fn bucket_of(self, key: Seq<char>) -> Option<Bucket> {
        if self.buckets().contains_key(key) {
            Some(self.buckets()[key])
        } else {
            None
        }
    }

    /// An empty store whose buckets expire after an hour without a request.
    pub fn new() -> (store: Self)
        ensures
            store.buckets() == Map::<Seq<char>, Bucket>::empty(),
            store.ttl() == RATE_LIMITER_DEFAULT_TTL_SECONDS,
    {
        Self::with_ttl(RATE_LIMITER_DEFAULT_TTL_SECONDS)
    }

    /// An empty store whose buckets expire after `ttl_seconds` without a request.
    pub fn with_ttl(ttl_seconds: u64) -> (store: Self)
        ensures
            store.buckets() == Map::<Seq<char>, Bucket>::empty(),
            store.ttl() == ttl_seconds,
    {
        let store = InMemoryRateLimitState { clients: buckets_new(), ttl_seconds };
        assert(store.buckets() =~= Map::<Seq<char>, Bucket>::empty());
        store
    }

    /// Serves a request of the client `key` at `now` if its bucket holds a
    /// token, and says whether it did.
    ///
    /// The bucket is refilled for the time since its last refill, up to
    /// `capacity` tokens, and then gives one token to the request. A client
    /// seen for the first time starts with a full bucket.
    pub fn check_and_update(
        &mut self,
        key: &str,
        capacity: u64,
        refill_rate: RefillRate,
        now: u64,
    ) -> (served: bool)
        ensures
            served == allows(old(self).bucket_of(key@), capacity, refill_rate, now),
            final(self).buckets() == old(self).buckets().insert(
                key@,
                bucket_after(old(self).bucket_of(key@), capacity, refill_rate, now),
            ),
            final(self).buckets().dom().finite(),
            final(self).ttl() == old(self).ttl(),
    {
        let before = buckets_get(&self.clients, key);
        let (bucket, served) = refill_and_take(before, capacity, refill_rate, now);
        buckets_insert(&mut self.clients, owned(key), bucket);
        served
    }

    /// Whether a bucket last used at `last_access` has expired at `now`.
    pub open spec fn expired(self, last_access: u64, now: u64) -> bool {
        elapsed(last_access, now) > self.ttl() * 1_000_000_000
    }

    /// Drops every bucket that has had no request for longer than the
    /// store's time to live, and keeps the others as they are.
    pub fn cleanup_expired_buckets(&mut self, now: u64)
        ensures
            final(self).ttl() == old(self).ttl(),
            forall|k: Seq<char>|
                final(self).buckets().contains_key(k) <==> old(self).buckets().contains_key(k)
                    && !old(self).expired(old(self).buckets()[k].last_access, now),
            forall|k: Seq<char>|
                final(self).buckets().contains_key(k) ==> final(self).buckets()[k] == old(
                    self,
                ).buckets()[k],
            final(self).buckets().dom().finite(),
    {
        self.perform_cleanup(now);
    }

    fn perform_cleanup(&mut self, now: u64)
        ensures
            final(self).ttl() == old(self).ttl(),
            forall|k: Seq<char>|
                final(self).buckets().contains_key(k) <==> old(self).buckets().contains_key(k)
                    && !old(self).expired(old(self).buckets()[k].last_access, now),
            forall|k: Seq<char>|
                final(self).buckets().contains_key(k) ==> final(self).buckets()[k] == old(
                    self,
                ).buckets()[k],
            final(self).buckets().dom().finite(),
    {
        let keys = buckets_keys(&self.clients);
        let mut i: usize = 0;
        while i < keys.len()
            invariant
                i <= keys.len(),
                self.ttl_seconds == old(self).ttl_seconds,
                self.buckets().dom().finite(),
                forall|k: Seq<char>|
                    self.buckets().contains_key(k) ==> old(self).buckets().contains_key(k)
                        && self.buckets()[k] == old(self).buckets()[k],
                forall|k: Seq<char>|
                    old(self).buckets().contains_key(k) && !self.buckets().contains_key(k)
                        ==> old(self).expired(old(self).buckets()[k].last_access, now),
                forall|k: Seq<char>|
                    self.buckets().contains_key(k) && old(self).expired(
                        old(self).buckets()[k].last_access,
                        now,
                    ) ==> exists|j: int| i <= j < keys@.len() && #[trigger] keys@[j]@ == k,
            decreases keys.len() - i,
        {
            let key = keys[i].as_str();
            let ghost before = self.buckets();
            match buckets_get(&self.clients, key) {
                Some(bucket) => {
                    if is_older_than(bucket.last_access, now, self.ttl_seconds) {
                        buckets_remove(&mut self.clients, key);
                        assert(self.buckets() == before.remove(key@));
                    }
                },
                None => {},
            }
            assert forall|k: Seq<char>| self.buckets().contains_key(k) implies before.contains_key(
                k,
            ) && self.buckets()[k] == before[k] by {}
            i += 1;
        }
    }

    /// The number of buckets in the store, which holds finitely many.
    pub fn get_active_buckets_count(&self) -> (n: usize)
        ensures
            self.buckets().dom().finite(),
            n == self.buckets().len(),
    {
        buckets_len(&self.clients)
    }
}

/// What the rate-limit stage asks of a store of buckets.
pub trait RateLimitState {
    /// Serves a request of the client `key` at `now` if its bucket holds
    /// a token, and says whether it did.
    fn check_and_update(&mut self, key: &str, capacity: u64, refill_rate: RefillRate, now: u64) -> bool;

    /// Drops the buckets that have had no request for too long.
    fn cleanup_expired_buckets(&mut self, now: u64);

    /// The number of buckets in the store.
    fn get_active_buckets_count(&self) -> usize;
}

impl RateLimitState for InMemoryRateLimitState {
    fn check_and_update(&mut self, key: &str, capacity: u64, refill_rate: RefillRate, now: u64) -> (served:
        bool)
        ensures
            served == allows(old(self).bucket_of(key@), capacity, refill_rate, now),
            final(self).buckets() == old(self).buckets().insert(
                key@,
                bucket_after(old(self).bucket_of(key@), capacity, refill_rate, now),
            ),
    {
        InMemoryRateLimitState::check_and_update(self, key, capacity, refill_rate, now)
    }

    fn cleanup_expired_buckets(&mut self, now: u64)
        ensures
            forall|k: Seq<char>|
                final(self).buckets().contains_key(k) <==> old(self).buckets().contains_key(k)
                    && !old(self).expired(old(self).buckets()[k].last_access, now),
    {
        self.perform_cleanup(now);
    }

    fn get_active_buckets_count(&self) -> (n: usize)
        ensures
            self.buckets().dom().finite(),
            n == self.buckets().len(),
    {
        InMemoryRateLimitState::get_active_buckets_count(self)
    }
}

/// Reads a time span such as `30s`, `5m` or `1h`, in seconds.
pub fn parse_duration(s: &str) -> (r: Result<u64, InvalidFormat>)
    ensures
        r == duration_of(s@),
{
    crate::duration::parse_duration(s)
}

/// The seconds of a route's rate-limit period: a minute where the period
/// cannot be read.
pub open spec fn period_of(config: RateLimitConfig) -> u64 {
    match duration_of(config.period@) {
        Ok(seconds) => seconds,
        Err(_) => RATE_LIMITER_DEFAULT_PERIOD_SECONDS,
    }
}

/// The rate at which the buckets of a route fill: its requests per period.
pub open spec fn rate_of(config: RateLimitConfig) -> RefillRate {
    RefillRate { tokens: config.requests, per_seconds: period_of(config) }
}

/// The capacity and the refill rate that a route's rate limit stands for:
/// a bucket holds as many tokens as the route allows requests in a period,
/// and fills at that many tokens per period.
pub fn limit_of(config: &RateLimitConfig) -> (r: (u64, RefillRate))
    ensures
        r.0 == config.requests,
        r.1 == rate_of(*config),
{
    let period = match parse_duration(config.period.as_str()) {
        Ok(seconds) => seconds,
        Err(_) => RATE_LIMITER_DEFAULT_PERIOD_SECONDS,
    };
    (config.requests, RefillRate { tokens: config.requests, per_seconds: period })
}

/// The rate-limit stage: serves the request of the client `client` at `now`
/// from its bucket, under the route's limit if it has one.
pub fn check_rate_limit(
    store: &mut InMemoryRateLimitState,
    limit: &Option<RateLimitConfig>,
    client: &str,
    now: u64,
) -> (r: Result<(), AppError>)
    ensures
        final(store).ttl() == old(store).ttl(),
        match *limit {
            None => r is Ok && final(store).buckets() == old(store).buckets(),
            Some(config) => {
                &&& r is Ok <==> allows(
                    old(store).bucket_of(client@),
                    config.requests,
                    rate_of(config),
                    now,
                )
                &&& final(store).buckets() == old(store).buckets().insert(
                    client@,
                    bucket_after(old(store).bucket_of(client@), config.requests, rate_of(config), now),
                )
            },
        },
        r matches Err(e) ==> e == AppError::RateLimited,
{
    match limit {
        None => Ok(()),
        Some(config) => {
            let (capacity, rate) = limit_of(config);
            if store.check_and_update(client, capacity, rate, now) {
                Ok(())
            } else {
                Err(AppError::RateLimited)
            }
        },
    }
}

/// The bucket of a client after requests at the instants `times`, in turn.
pub open spec fn bucket_after_all(
    start: Option<Bucket>,
    capacity: u64,
    rate: RefillRate,
    times: Seq<u64>,
) -> Option<Bucket>
    decreases times.len(),
{
    if times.len() == 0 {
        start
    } else {
        Some(
            bucket_after(
                bucket_after_all(start, capacity, rate, times.drop_last()),
                capacity,
                rate,
                times.last(),
            ),
        )
    }
}

/// How many of the requests at the instants `times` are served.
pub open spec fn served_count(
    start: Option<Bucket>,
    capacity: u64,
    rate: RefillRate,
    times: Seq<u64>,
) -> nat
    decreases times.len(),
{
    if times.len() == 0 {
        0
    } else {
        let before = bucket_after_all(start, capacity, rate, times.drop_last());
        served_count(start, capacity, rate, times.drop_last()) + if allows(
            before,
            capacity,
            rate,
            times.last(),
        ) {
            1nat
        } else {
            0nat
        }
    }
}

/// Whether the instants are in the order of a monotonic clock.
pub open spec fn in_order(times: Seq<u64>) -> bool {
    forall|i: int, j: int| 0 <= i <= j < times.len() ==> times[i] <= times[j]
}

/// What the bucket holds and what it has given out never exceed a full
/// bucket and what the time since the first request has added.
proof fn lemma_tokens_are_conserved(
    start: Option<Bucket>,
    capacity: u64,
    rate: RefillRate,
    times: Seq<u64>,
)
    requires
        rate.per_seconds > 0,
        times.len() > 0,
        in_order(times),
    ensures
        bucket_after_all(start, capacity, rate, times) is Some,
        bucket_after_all(start, capacity, rate, times)->0.last_refill == times.last(),
        (bucket_after_all(start, capacity, rate, times)->0.tokens + served_count(
            start,
            capacity,
            rate,
            times,
        ) * 1_000_000_000 - capacity * 1_000_000_000) * rate.per_seconds <= (times.last()
            - times[0]) * rate.tokens,
    decreases times.len(),
{
    let p = rate.per_seconds as int;
    let t = rate.tokens as int;
    let full = capacity * 1_000_000_000;
    let head = times.drop_last();
    let before = bucket_after_all(start, capacity, rate, head);
    let now = times.last();
    lemma_level_bounds(before, capacity, rate, now);
    let l = level(before, capacity, rate, now);
    let after = bucket_after(before, capacity, rate, now);
    let count = served_count(start, capacity, rate, times) as int;
    assert(after.tokens + count * 1_000_000_000 == l + served_count(start, capacity, rate, head)
        * 1_000_000_000);
    if head.len() == 0 {
        assert((l - full) * p <= 0) by (nonlinear_arith)
            requires
                l <= full,
                p > 0,
        ;
    } else {
        lemma_tokens_are_conserved(start, capacity, rate, head);
        let b = before->0;
        let prev = served_count(start, capacity, rate, head) as int;
        assert(head.last() == times[times.len() - 2]);
        assert(head[0] == times[0]);
        let gap = now - head.last();
        assert(elapsed(b.last_refill, now) == gap);
        let gain = added(rate, gap);
        assert(l <= b.tokens + gain);
        assert(gain * p <= gap * t) by (nonlinear_arith)
            requires
                gain == (gap * t) / p,
                p > 0,
        ;
        let x = b.tokens + prev * 1_000_000_000 - full;
        let span = head.last() - times[0];
        assert((x + gain) * p == x * p + gain * p) by (nonlinear_arith);
        assert((span + gap) * t == span * t + gap * t) by (nonlinear_arith);
        assert((l + prev * 1_000_000_000 - full) * p <= (x + gain) * p) by (nonlinear_arith)
            requires
                l + prev * 1_000_000_000 - full <= x + gain,
                p > 0,
        ;
    }
}

/// Of the requests that one client makes at the instants `times`, under a
/// capacity of `capacity` tokens and the rate `rate`, no more are served
/// than a full bucket holds and the time from the first to the last adds.
pub proof fn lemma_served_is_bounded(
    start: Option<Bucket>,
    capacity: u64,
    rate: RefillRate,
    times: Seq<u64>,
)
    requires
        rate.per_seconds > 0,
        times.len() > 0,
        in_order(times),
    ensures
        (served_count(start, capacity, rate, times) - capacity) * 1_000_000_000
            * rate.per_seconds <= (times.last() - times[0]) * rate.tokens,
{
    lemma_tokens_are_conserved(start, capacity, rate, times);
    let p = rate.per_seconds as int;
    let tokens = bucket_after_all(start, capacity, rate, times)->0.tokens as int;
    let count = served_count(start, capacity, rate, times) as int;
    let cap = capacity as int;
    assert((count - cap) * 1_000_000_000 * p <= (tokens + count * 1_000_000_000 - cap
        * 1_000_000_000) * p) by (nonlinear_arith)
        requires
            tokens >= 0,
            p > 0,
    ;
}

/// Under a limit of `n` requests per `seconds` seconds, a client is served
/// at most `n + 1` requests in any stretch of time in which its bucket
/// gains at most one token, that is in any stretch of up to a `n`-th of
/// the period.
pub proof fn lemma_burst_is_bounded(start: Option<Bucket>, n: u64, seconds: u64, times: Seq<u64>)
    requires
        seconds > 0,
        times.len() > 0,
        in_order(times),
        (times.last() - times[0]) * n <= seconds * 1_000_000_000,
    ensures
        served_count(start, n, RefillRate { tokens: n, per_seconds: seconds }, times) <= n + 1,
{
    let rate = RefillRate { tokens: n, per_seconds: seconds };
    lemma_served_is_bounded(start, n, rate, times);
    let count = served_count(start, n, rate, times) as int;
    let p = seconds as int;
    let cap = n as int;
    assert(count - cap <= 1) by (nonlinear_arith)
        requires
            (count - cap) * 1_000_000_000 * p <= p * 1_000_000_000,
            p > 0,
    ;
}

/// Under a limit of `n` requests per `seconds` seconds, a client is served
/// at most twice `n` requests in any window as long as the period: a full
/// bucket, and what the period refills.
pub proof fn lemma_window_is_bounded(start: Option<Bucket>, n: u64, seconds: u64, times: Seq<u64>)
    requires
        seconds > 0,
        times.len() > 0,
        in_order(times),
        times.last() - times[0] <= seconds * 1_000_000_000,
    ensures
        served_count(start, n, RefillRate { tokens: n, per_seconds: seconds }, times) <= 2 * n,
{
    let rate = RefillRate { tokens: n, per_seconds: seconds };
    lemma_served_is_bounded(start, n, rate, times);
    let count = served_count(start, n, rate, times) as int;
    let p = seconds as int;
    let cap = n as int;
    let span = times.last() - times[0];
    assert(span * cap <= p * 1_000_000_000 * cap) by (nonlinear_arith)
        requires
            span <= p * 1_000_000_000,
            cap >= 0,
    ;
    assert(count - cap <= cap) by (nonlinear_arith)
        requires
            (count - cap) * 1_000_000_000 * p <= p * 1_000_000_000 * cap,
            p > 0,
    ;
}

} // verus!
