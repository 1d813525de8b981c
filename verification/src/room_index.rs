//! A concurrent hash map from string to string, kept for constant-time
//! lookups: the hub uses it to find the relay that owns a room.
//!
//! The map is a `dashmap::DashMap`. Verus does not look inside it: what it
//! holds is named by [`index_entries`], and the few calls made into it are the
//! private functions below, whose contracts are taken on trust from the map's
//! source. Everything else in this file is proved from those contracts.
//! Changes go through `&mut`, so nothing else can alter the map between two
//! calls of one verified function.

use dashmap::DashMap;
use std::collections::hash_map::RandomState;
use vstd::prelude::*;

verus! {

/// A map from room id to relay address, as a mathematical value.
pub type RoomMap = Map<Seq<char>, Seq<char>>;

/// `dashmap::DashMap`, carried as an opaque value.
#[verifier::external_type_specification]
#[verifier::external_body]
#[verifier::reject_recursive_types(K)]
#[verifier::reject_recursive_types(V)]
#[verifier::reject_recursive_types(S)]
pub struct ExDashMap<K, V, S>(DashMap<K, V, S>);

/// The key/value pairs that a `DashMap` of strings holds, each string taken
/// by its characters.
pub uninterp spec fn index_entries(m: DashMap<String, String, RandomState>) -> Map<Seq<char>, Seq<char>>;

/// `DashMap::new`: a map that holds nothing.
#[verifier::external_body]
fn index_new() -> (m: DashMap<String, String, RandomState>)
    ensures
        index_entries(m) == RoomMap::empty(),
{
    DashMap::new()
}

/// `DashMap::insert`: stores the pair, replacing what the key had, and hands
/// back the value that the key had before, if it had one.
#[verifier::external_body]
fn index_insert(m: &mut DashMap<String, String, RandomState>, key: String, value: String) -> (previous:
    Option<String>)
    ensures
        index_entries(*final(m)) == index_entries(*old(m)).insert(key@, value@),
        previous is Some <==> index_entries(*old(m)).dom().contains(key@),
        previous is Some ==> previous->0@ == index_entries(*old(m))[key@],
{
    m.insert(key, value)
}

/// `DashMap::get`: a copy of the value stored under the key, if the key is
/// in the map.
#[verifier::external_body]
fn index_get(m: &DashMap<String, String, RandomState>, key: &String) -> (found: Option<String>)
    ensures
        found is Some <==> index_entries(*m).dom().contains(key@),
        found is Some ==> found->0@ == index_entries(*m)[key@],
{
    match m.get(key) {
        Some(entry) => Some(entry.value().clone()),
        None => None,
    }
}

/// `DashMap::remove`: takes the key out and hands back the value it had, if
/// it was in the map.
#[verifier::external_body]
fn index_remove(m: &mut DashMap<String, String, RandomState>, key: &String) -> (removed: Option<String>)
    ensures
        index_entries(*final(m)) == index_entries(*old(m)).remove(key@),
        removed is Some <==> index_entries(*old(m)).dom().contains(key@),
        removed is Some ==> removed->0@ == index_entries(*old(m))[key@],
{
    match m.remove(key) {
        Some((_, value)) => Some(value),
        None => None,
    }
}

/// `DashMap::len`: the number of pairs in the map.
#[verifier::external_body]
fn index_len(m: &DashMap<String, String, RandomState>) -> (n: usize)
    ensures
        n == index_entries(*m).len(),
{
    m.len()
}

/// A concurrent hash map from string to string. Its view is the map it
/// holds.
pub struct ConcurrentHashMap {
    inner: DashMap<String, String, RandomState>,
}

impl View for ConcurrentHashMap {
    type V = Map<Seq<char>, Seq<char>>;

    closed spec fn view(&self) -> Map<Seq<char>, Seq<char>> {
        index_entries(self.inner)
    }
}

impl ConcurrentHashMap {
    /// The map holds finitely many pairs.
    pub open spec fn wf(&self) -> bool {
        self@.dom().finite()
    }

    /// An empty map.
    pub fn new() -> (m: Self)
        ensures
            m@ == RoomMap::empty(),
            m.wf(),
    {
        ConcurrentHashMap { inner: index_new() }
    }

    /// Stores `value` under `key` and hands back what the key had before.
    pub fn insert(&mut self, key: String, value: String) -> (previous: Option<String>)
        ensures
            final(self)@ == old(self)@.insert(key@, value@),
            old(self).wf() ==> final(self).wf(),
            previous is Some <==> old(self)@.dom().contains(key@),
            previous is Some ==> previous->0@ == old(self)@[key@],
    {
        index_insert(&mut self.inner, key, value)
    }

    /// A copy of the value stored under `key`.
    pub fn get(&self, key: &String) -> (found: Option<String>)
        ensures
            found is Some <==> self@.dom().contains(key@),
            found is Some ==> found->0@ == self@[key@],
    {
        index_get(&self.inner, key)
    }

    /// Whether `key` is in the map.
    pub fn contains_key(&self, key: &String) -> (b: bool)
        ensures
            b == self@.dom().contains(key@),
    {
        index_get(&self.inner, key).is_some()
    }

    /// Takes `key` out and hands back the value it had.
    pub fn remove(&mut self, key: &String) -> (removed: Option<String>)
        ensures
            final(self)@ == old(self)@.remove(key@),
            old(self).wf() ==> final(self).wf(),
            removed is Some <==> old(self)@.dom().contains(key@),
            removed is Some ==> removed->0@ == old(self)@[key@],
    {
        index_remove(&mut self.inner, key)
    }

    /// The number of pairs in the map.
    pub fn len(&self) -> (n: usize)
        ensures
            n == self@.len(),
    {
        index_len(&self.inner)
    }
}

} // verus!
