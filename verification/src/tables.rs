//! The concurrent tables that the stores keep their records in, one record
//! for each key.
//!
//! A table is a `DashMap` of the crate `dashmap`. What a table holds is named
//! by an uninterpreted function, and each operation states what it does to
//! that content. None of this is proved here: it rests on the source of
//! `dashmap`.

use dashmap::DashMap;
use vstd::prelude::*;
use crate::circuit_breaker::CircuitState;
use crate::health_check::DestinationHealth;
use crate::rate_limiter::Bucket;

verus! {

#[verifier::external_type_specification]
#[verifier::external_body]
#[verifier::reject_recursive_types(K)]
#[verifier::reject_recursive_types(V)]
#[verifier::reject_recursive_types(S)]
pub struct ExDashMap<K, V, S>(DashMap<K, V, S>);

/// Whether a table of the content `entries` holds `n` records: finitely
/// many, and `n` of them.
pub open spec fn holds_count<V>(entries: Map<Seq<char>, V>, n: usize) -> bool {
    entries.dom().finite() && entries.len() == n
}

/// Whether `keys` lists the keys of a table of the content `entries`: the
/// table holds finitely many records, every key listed is a key of the
/// table, and every key of the table is listed.
pub open spec fn lists_keys<V>(entries: Map<Seq<char>, V>, keys: Seq<String>) -> bool {
    &&& entries.dom().finite()
    &&& forall|i: int| 0 <= i < keys.len() ==> entries.contains_key(#[trigger] keys[i]@)
    &&& forall|k: Seq<char>|
        entries.contains_key(k) ==> exists|i: int| 0 <= i < keys.len() && #[trigger] keys[i]@ == k
}

/// The table of circuits, by route name.
pub type CircuitTable = DashMap<String, CircuitState>;

/// The circuits that a table holds, by route name.
pub uninterp spec fn circuit_entries(table: CircuitTable) -> Map<Seq<char>, CircuitState>;

/// `DashMap::new`: a table that holds nothing.
#[verifier::external_body]
pub(crate) fn circuits_new() -> (table: CircuitTable)
    ensures
        circuit_entries(table).dom() == Set::<Seq<char>>::empty(),
{
    DashMap::new()
}

/// `DashMap::get`: a copy of the record under `key`, where there is one.
#[verifier::external_body]
pub(crate) fn circuits_get(table: &CircuitTable, key: &str) -> (r: Option<
    CircuitState,
>)
    ensures
        r == if circuit_entries(*table).contains_key(key@) {
            Some(circuit_entries(*table)[key@])
        } else {
            None
        },
{
    table.get(key).map(|entry| *entry.value())
}

/// `DashMap::insert`: puts `value` under `key`, in place of what was
/// there. A table holds finitely many records.
#[verifier::external_body]
pub(crate) fn circuits_insert(
    table: &mut CircuitTable,
    key: String,
    value: CircuitState,
)
    ensures
        circuit_entries(*final(table)) == circuit_entries(*old(table)).insert(key@, value),
        circuit_entries(*final(table)).dom().finite(),
{
    table.insert(key, value);
}

/// `DashMap::remove`: takes out what is under `key`, if anything. A table
/// holds finitely many records.
#[verifier::external_body]
pub(crate) fn circuits_remove(table: &mut CircuitTable, key: &str)
    ensures
        circuit_entries(*final(table)) == circuit_entries(*old(table)).remove(key@),
        circuit_entries(*final(table)).dom().finite(),
{
    table.remove(key);
}

/// `DashMap::len`: the number of records, of which a table holds finitely
/// many.
#[verifier::external_body]
pub(crate) fn circuits_len(table: &CircuitTable) -> (n: usize)
    ensures
        holds_count(circuit_entries(*table), n),
{
    table.len()
}

/// `DashMap::iter`, keeping the keys: every key of the table, in no
/// particular order. A table holds finitely many records.
#[verifier::external_body]
pub(crate) fn circuits_keys(table: &CircuitTable) -> (keys: Vec<String>)
    ensures
        lists_keys(circuit_entries(*table), keys@),
{
    table.iter().map(|entry| entry.key().clone()).collect()
}

/// The table of rate-limit buckets, by client key.
pub type BucketTable = DashMap<String, Bucket>;

/// The buckets that a table holds, by client key.
pub uninterp spec fn bucket_entries(table: BucketTable) -> Map<Seq<char>, Bucket>;

/// `DashMap::new`: a table that holds nothing.
#[verifier::external_body]
pub(crate) fn buckets_new() -> (table: BucketTable)
    ensures
        bucket_entries(table).dom() == Set::<Seq<char>>::empty(),
{
    DashMap::new()
}

/// `DashMap::get`: a copy of the record under `key`, where there is one.
#[verifier::external_body]
pub(crate) fn buckets_get(table: &BucketTable, key: &str) -> (r: Option<Bucket>)
    ensures
        r == if bucket_entries(*table).contains_key(key@) {
            Some(bucket_entries(*table)[key@])
        } else {
            None
        },
{
    table.get(key).map(|entry| *entry.value())
}

/// `DashMap::insert`: puts `value` under `key`, in place of what was
/// there. A table holds finitely many records.
#[verifier::external_body]
pub(crate) fn buckets_insert(table: &mut BucketTable, key: String, value: Bucket)
    ensures
        bucket_entries(*final(table)) == bucket_entries(*old(table)).insert(key@, value),
        bucket_entries(*final(table)).dom().finite(),
{
    table.insert(key, value);
}

/// `DashMap::remove`: takes out what is under `key`, if anything. A table
/// holds finitely many records.
#[verifier::external_body]
pub(crate) fn buckets_remove(table: &mut BucketTable, key: &str)
    ensures
        bucket_entries(*final(table)) == bucket_entries(*old(table)).remove(key@),
        bucket_entries(*final(table)).dom().finite(),
{
    table.remove(key);
}

/// `DashMap::len`: the number of records, of which a table holds finitely
/// many.
#[verifier::external_body]
pub(crate) fn buckets_len(table: &BucketTable) -> (n: usize)
    ensures
        holds_count(bucket_entries(*table), n),
{
    table.len()
}

/// `DashMap::iter`, keeping the keys: every key of the table, in no
/// particular order. A table holds finitely many records.
#[verifier::external_body]
pub(crate) fn buckets_keys(table: &BucketTable) -> (keys: Vec<String>)
    ensures
        lists_keys(bucket_entries(*table), keys@),
{
    table.iter().map(|entry| entry.key().clone()).collect()
}

/// The table of health records, by destination.
pub type HealthTable = DashMap<String, DestinationHealth>;

/// The health records that a table holds, by destination.
pub uninterp spec fn health_entries(table: HealthTable) -> Map<Seq<char>, DestinationHealth>;

/// `DashMap::new`: a table that holds nothing.
#[verifier::external_body]
pub(crate) fn health_new() -> (table: HealthTable)
    ensures
        health_entries(table).dom() == Set::<Seq<char>>::empty(),
{
    DashMap::new()
}

/// `DashMap::get`: a copy of the record under `key`, where there is one.
#[verifier::external_body]
pub(crate) fn health_get(table: &HealthTable, key: &str) -> (r: Option<DestinationHealth>)
    ensures
        r == if health_entries(*table).contains_key(key@) {
            Some(health_entries(*table)[key@])
        } else {
            None
        },
{
    table.get(key).map(|entry| *entry.value())
}

/// `DashMap::insert`: puts `value` under `key`, in place of what was
/// there. A table holds finitely many records.
#[verifier::external_body]
pub(crate) fn health_insert(table: &mut HealthTable, key: String, value: DestinationHealth)
    ensures
        health_entries(*final(table)) == health_entries(*old(table)).insert(key@, value),
        health_entries(*final(table)).dom().finite(),
{
    table.insert(key, value);
}

} // verus!
