//! The bounded store behind the response cache: a `Cache` of the crate
//! `moka`, which drops entries by its own clock and for want of room.
//!
//! What such a store was given and has not been told to discard is named
//! by an uninterpreted function. The store may have dropped any of it:
//! a read finds either nothing or what is named. None of this is proved
//! here: it rests on the source of `moka`.

use moka::sync::Cache;
use std::time::Duration;
use vstd::prelude::*;
use crate::cache::{CachedResponse, ResponseView};

verus! {

#[verifier::external_type_specification]
#[verifier::external_body]
#[verifier::reject_recursive_types(K)]
#[verifier::reject_recursive_types(V)]
#[verifier::reject_recursive_types(S)]
pub struct ExCache<K, V, S>(Cache<K, V, S>);

/// The store of cached responses, by cache key.
pub type ResponseStore = Cache<String, CachedResponse>;

/// The responses that a store was given and has not been told to discard,
/// by cache key.
pub uninterp spec fn stored_responses(store: ResponseStore) -> Map<Seq<char>, ResponseView>;

/// The longest time that `moka` takes for an entry's life, in seconds: a
/// thousand years.
pub const LONGEST_LIFE_SECONDS: u64 = 31_536_000_000;

/// `Cache::builder` with `max_capacity`, `time_to_live` and `time_to_idle`
/// set, then `build`: a store that has been given nothing.
#[verifier::external_body]
pub(crate) fn store_build(max_capacity: u64, live_seconds: u64, idle_seconds: u64) -> (store:
    ResponseStore)
    requires
        live_seconds <= LONGEST_LIFE_SECONDS,
        idle_seconds <= LONGEST_LIFE_SECONDS,
    ensures
        stored_responses(store).dom() == Set::<Seq<char>>::empty(),
{
    Cache::builder()
        .max_capacity(max_capacity)
        .time_to_live(Duration::from_secs(live_seconds))
        .time_to_idle(Duration::from_secs(idle_seconds))
        .build()
}

/// `Cache::get`: a copy of what the store holds under `key`. What it
/// finds is what it was given last under that key; it may find nothing.
#[verifier::external_body]
pub(crate) fn store_get(store: &ResponseStore, key: &str) -> (r: Option<CachedResponse>)
    ensures
        r matches Some(found) ==> stored_responses(*store).contains_key(key@) && stored_responses(
            *store,
        )[key@] == found@,
{
    store.get(key)
}

/// `Cache::insert`: gives the store `value` under `key`, in place of what
/// it held there.
#[verifier::external_body]
pub(crate) fn store_insert(store: &mut ResponseStore, key: String, value: CachedResponse)
    ensures
        stored_responses(*final(store)) == stored_responses(*old(store)).insert(key@, value@),
{
    store.insert(key, value);
}

/// `Cache::invalidate`: tells the store to discard what it holds under `key`.
#[verifier::external_body]
pub(crate) fn store_invalidate(store: &mut ResponseStore, key: &str)
    ensures
        stored_responses(*final(store)) == stored_responses(*old(store)).remove(key@),
{
    store.invalidate(key);
}

/// `Cache::entry_count`: about how many entries the store holds. The
/// number is an estimate, of which nothing is promised.
#[verifier::external_body]
pub(crate) fn store_entry_count(store: &ResponseStore) -> (n: u64) {
    store.entry_count()
}

} // verus!
