//! The keyspace: a sharded concurrent map from key to entry.
//!
//! The map itself comes from the `dashmap` crate. What it does is taken
//! on trust from its documentation and stated here in terms of the
//! finite map of entries it stands for. Operations that change the map
//! take it by exclusive reference, so that what is stated of it holds
//! from one operation to the next.

use vstd::prelude::*;
use dashmap::DashMap;
use std::hash::RandomState;
use crate::types::{StoredValue, StoredValueView, list_view};

verus! {

/// `dashmap::DashMap`: the sharded concurrent hash map, taken as an opaque
/// type.
#[verifier::external_type_specification]
#[verifier::external_body]
#[verifier::reject_recursive_types(K)]
#[verifier::reject_recursive_types(V)]
#[verifier::reject_recursive_types(S)]
pub struct ExDashMap<K, V, S>(DashMap<K, V, S>);

/// The entries that a map holds, by key.
pub uninterp spec fn map_entries(map: DashMap<Vec<u8>, StoredValue, RandomState>) -> Map<
    Seq<u8>,
    StoredValueView,
>;

/// `DashMap::new`: a map without entries.
#[verifier::external_body]
fn map_new() -> (made: DashMap<Vec<u8>, StoredValue, RandomState>)
    ensures
        map_entries(made) == (Map::<Seq<u8>, StoredValueView>::empty()),
{
    DashMap::new()
}

/// `DashMap::get`, followed by a clone of the entry that the guard
/// refers to: the entry stored under `key`, if there is one. The clone is
/// the entry's own, which keeps its view.
#[verifier::external_body]
fn map_get(map: &DashMap<Vec<u8>, StoredValue, RandomState>, key: &[u8]) -> (found: Option<
    StoredValue,
>)
    ensures
        found is Some == map_entries(*map).contains_key(key@),
        found is Some ==> found->0@ == map_entries(*map)[key@],
{
    map.get(key).map(|entry| entry.value().clone())
}

/// `DashMap::insert`: afterwards `key` maps to `value`, and every other
/// key to what it mapped to before.
#[verifier::external_body]
fn map_insert(map: &mut DashMap<Vec<u8>, StoredValue, RandomState>, key: Vec<u8>, value: StoredValue)
    ensures
        map_entries(*final(map)) == map_entries(*old(map)).insert(key@, value@),
{
    map.insert(key, value);
}

/// `DashMap::remove`: afterwards `key` is absent; the entry it mapped to,
/// if any, is handed back.
#[verifier::external_body]
fn map_remove(map: &mut DashMap<Vec<u8>, StoredValue, RandomState>, key: &[u8]) -> (removed: Option<
    StoredValue,
>)
    ensures
        map_entries(*final(map)) == map_entries(*old(map)).remove(key@),
        removed is Some == map_entries(*old(map)).contains_key(key@),
        removed is Some ==> removed->0@ == map_entries(*old(map))[key@],
{
    map.remove(key).map(|pair| pair.1)
}

/// `DashMap::contains_key`: whether `key` has an entry.
#[verifier::external_body]
fn map_contains_key(map: &DashMap<Vec<u8>, StoredValue, RandomState>, key: &[u8]) -> (found: bool)
    ensures
        found == map_entries(*map).contains_key(key@),
{
    map.contains_key(key)
}

/// `DashMap::len`: the number of entries.
#[verifier::external_body]
fn map_len(map: &DashMap<Vec<u8>, StoredValue, RandomState>) -> (count: usize)
    ensures
        count == map_entries(*map).dom().len(),
{
    map.len()
}

/// `DashMap::clear`: afterwards the map has no entries.
#[verifier::external_body]
fn map_clear(map: &mut DashMap<Vec<u8>, StoredValue, RandomState>)
    ensures
        map_entries(*final(map)) == (Map::<Seq<u8>, StoredValueView>::empty()),
{
    map.clear();
}

/// `DashMap::iter`, keeping a copy of each key: every key of the map
/// once, in no particular order.
#[verifier::external_body]
fn map_keys(map: &DashMap<Vec<u8>, StoredValue, RandomState>) -> (keys: Vec<Vec<u8>>)
    ensures
        list_view(keys@).no_duplicates(),
        list_view(keys@).to_set() == map_entries(*map).dom(),
{
    map.iter().map(|entry| entry.key().clone()).collect()
}

/// The mapping from keys to entries.
pub struct Keyspace {
    map: DashMap<Vec<u8>, StoredValue, RandomState>,
}

impl View for Keyspace {
    type V = Map<Seq<u8>, StoredValueView>;

    closed spec fn view(&self) -> Map<Seq<u8>, StoredValueView> {
        map_entries(self.map)
    }
}

impl Keyspace {
    /// An empty keyspace.
    pub fn new() -> (made: Keyspace)
        ensures
            made@ == Map::<Seq<u8>, StoredValueView>::empty(),
    {
        Keyspace { map: map_new() }
    }

    /// A copy of the entry stored under `key`.
    pub fn get(&self, key: &[u8]) -> (found: Option<StoredValue>)
        ensures
            found is Some == self@.contains_key(key@),
            found is Some ==> found->0@ == self@[key@],
    {
        map_get(&self.map, key)
    }

    /// Stores `value` under `key`, replacing what was there.
    pub fn insert(&mut self, key: Vec<u8>, value: StoredValue)
        ensures
            final(self)@ == old(self)@.insert(key@, value@),
    {
        map_insert(&mut self.map, key, value);
    }

    /// Takes the entry stored under `key` out of the keyspace.
    pub fn remove(&mut self, key: &[u8]) -> (removed: Option<StoredValue>)
        ensures
            final(self)@ == old(self)@.remove(key@),
            removed is Some == old(self)@.contains_key(key@),
            removed is Some ==> removed->0@ == old(self)@[key@],
    {
        map_remove(&mut self.map, key)
    }

    /// Whether `key` has an entry.
    pub fn contains_key(&self, key: &[u8]) -> (found: bool)
        ensures
            found == self@.contains_key(key@),
    {
        map_contains_key(&self.map, key)
    }

    /// Number of keys.
    pub fn len(&self) -> (count: usize)
        ensures
            count == self@.dom().len(),
    {
        map_len(&self.map)
    }

    /// Removes every entry.
    pub fn clear(&mut self)
        ensures
            final(self)@ == Map::<Seq<u8>, StoredValueView>::empty(),
    {
        map_clear(&mut self.map);
    }

    /// Every key once, in no particular order.
    pub fn keys(&self) -> (keys: Vec<Vec<u8>>)
        ensures
            list_view(keys@).no_duplicates(),
            list_view(keys@).to_set() == self@.dom(),
    {
        map_keys(&self.map)
    }
}

} // verus!
