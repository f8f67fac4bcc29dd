//! Limits and defaults used across the gateway.

use vstd::prelude::*;

verus! {

/// Most entries the response cache holds.
pub const CACHE_MAX_CAPACITY: u64 = 10_000;

/// Seconds after which the response cache drops an entry, whatever its route says.
pub const CACHE_TTL_SECONDS: u64 = 300;

/// Seconds without a read after which the response cache drops an entry.
pub const CACHE_IDLE_TIMEOUT_SECONDS: u64 = 180;

/// Longest cache key that is kept as it is, in characters.
pub const CACHE_MAX_KEY_LENGTH: usize = 512;

/// Characters kept of a cache key that is too long.
pub const CACHE_TRUNCATED_KEY_LENGTH: usize = 508;

/// Seconds without a request after which a rate-limit bucket may be dropped.
pub const RATE_LIMITER_DEFAULT_TTL_SECONDS: u64 = 3600;

/// Seconds of a rate-limit period that cannot be read.
pub const RATE_LIMITER_DEFAULT_PERIOD_SECONDS: u64 = 60;

/// Seconds between two cleanups of the rate-limit buckets.
pub const RATE_LIMITER_CLEANUP_INTERVAL_SECONDS: u64 = 300;

/// Seconds between two cleanups of the circuits.
pub const CIRCUIT_BREAKER_CLEANUP_INTERVAL_SECONDS: u64 = 600;

/// Seconds without a request after which a circuit may be dropped.
pub const CIRCUIT_BREAKER_DEFAULT_TTL_SECONDS: u64 = 3600;

/// Seconds between two reports of the stores' sizes.
pub const METRICS_INTERVAL_SECONDS: u64 = 60;

/// Events that the configuration watcher may have waiting.
pub const HOT_RELOAD_CHANNEL_BUFFER_SIZE: usize = 32;

/// Largest request body accepted when the configuration names no limit, in bytes.
pub const DEFAULT_MAX_BODY_SIZE: usize = 10_485_760;

pub const SECONDS_PER_MINUTE: u64 = 60;

pub const SECONDS_PER_HOUR: u64 = 3600;

/// Nanoseconds in a second: instants and time spans are counted in nanoseconds.
pub const NANOS_PER_SECOND: u64 = 1_000_000_000;

/// The header that carries a request's id.
pub const REQUEST_ID_HEADER: &'static str = "x-request-id";

} // verus!
