//! The bounded registry that every registry of a hub or a relay is built on:
//! an insertion-ordered store keyed by strings, with an optional ceiling on
//! the number of entries and an optional deadline per entry.
//!
//! The registry never evicts on its own. An insert that would take it past
//! its ceiling is refused, and entries whose deadline has passed stay until
//! [`Cache::reconcile`] is called. Mutation goes through `&mut self`, so a
//! ceiling check and the insert that follows it are one step: whoever shares a
//! registry between tasks puts it behind a lock and every caller is
//! serialised there.

use vstd::prelude::*;

verus! {

/// The signal that a registry is full and the key is new to it.
#[derive(Clone, Copy, Debug, PartialEq, Eq, Structural)]
pub struct CapacityExceeded;

/// What a registry holds for one key, as a mathematical value.
pub struct Slot<V> {
    pub key: Seq<char>,
    pub value: V,
    pub deadline: Option<u64>,
}

/// Whether `key` occurs in `s`.
pub open spec fn has_key<V>(s: Seq<Slot<V>>, key: Seq<char>) -> bool {
    exists|i: int| 0 <= i < s.len() && (#[trigger] s[i]).key == key
}

/// Where `key` stands in `s`; meaningful when `has_key(s, key)`.
pub open spec fn position<V>(s: Seq<Slot<V>>, key: Seq<char>) -> int {
    choose|i: int| 0 <= i < s.len() && (#[trigger] s[i]).key == key
}

/// No key occurs twice.
pub open spec fn distinct_keys<V>(s: Seq<Slot<V>>) -> bool {
    forall|i: int, j: int|
        0 <= i < j < s.len() ==> (#[trigger] s[i]).key != (#[trigger] s[j]).key
}

/// The value stored under `key`, if any.
pub open spec fn lookup<V>(s: Seq<Slot<V>>, key: Seq<char>) -> Option<V> {
    if has_key(s, key) {
        Some(s[position(s, key)].value)
    } else {
        None
    }
}

/// The keys of `s` in insertion order.
pub open spec fn keys_of<V>(s: Seq<Slot<V>>) -> Seq<Seq<char>> {
    Seq::new(s.len(), |i: int| s[i].key)
}

/// The keys of `s` as a set.
pub open spec fn key_set<V>(s: Seq<Slot<V>>) -> Set<Seq<char>> {
    Set::new(|k: Seq<char>| has_key(s, k))
}

/// A ceiling of `capacity` admits `n` entries.
pub open spec fn within(capacity: Option<usize>, n: nat) -> bool {
    capacity is Some ==> n <= capacity->0
}

/// The registry invariant on the model: keys are unique and the ceiling holds.
pub open spec fn well_formed<V>(s: Seq<Slot<V>>, capacity: Option<usize>) -> bool {
    distinct_keys(s) && within(capacity, s.len())
}

/// An insert of a key that is new to `s` is refused: the registry is full.
pub open spec fn insert_refused<V>(s: Seq<Slot<V>>, capacity: Option<usize>, key: Seq<char>) -> bool {
    !has_key(s, key) && capacity is Some && s.len() >= capacity->0
}

/// The registry after an insert of `slot`: a known key keeps its place and
/// takes the new value, a new key goes to the end, a refused insert changes
/// nothing.
pub open spec fn after_insert<V>(s: Seq<Slot<V>>, capacity: Option<usize>, slot: Slot<V>) -> Seq<Slot<V>> {
    if has_key(s, slot.key) {
        s.update(position(s, slot.key), slot)
    } else if insert_refused(s, capacity, slot.key) {
        s
    } else {
        s.push(slot)
    }
}

/// The registry after a removal of `key`; the others keep their order.
pub open spec fn after_remove<V>(s: Seq<Slot<V>>, key: Seq<char>) -> Seq<Slot<V>> {
    if has_key(s, key) {
        s.remove(position(s, key))
    } else {
        s
    }
}

/// The deadline of `slot` has passed at time `now`.
pub open spec fn expired<V>(slot: Slot<V>, now: u64) -> bool {
    slot.deadline is Some && slot.deadline->0 <= now
}

/// The entries of `s` whose deadline has not passed at `now`, in order.
pub open spec fn unexpired<V>(s: Seq<Slot<V>>, now: u64) -> Seq<Slot<V>>
    decreases s.len(),
{
    if s.len() == 0 {
        s
    } else if expired(s.last(), now) {
        unexpired(s.drop_last(), now)
    } else {
        unexpired(s.drop_last(), now).push(s.last())
    }
}

/// With unique keys, the index that holds a key is its position.
pub proof fn lemma_position_unique<V>(s: Seq<Slot<V>>, i: int)
    requires
        distinct_keys(s),
        0 <= i < s.len(),
    ensures
        has_key(s, s[i].key),
        position(s, s[i].key) == i,
{
    let k = s[i].key;
    assert(has_key(s, k));
    let p = position(s, k);
    assert(0 <= p < s.len() && s[p].key == k);
    if p < i {
        assert(s[p].key != s[i].key);
    } else if i < p {
        assert(s[i].key != s[p].key);
    }
}

/// Every unexpired entry was in `s`, and the order is kept: the result has
/// unique keys when `s` has, and is no longer.
pub proof fn lemma_unexpired<V>(s: Seq<Slot<V>>, now: u64)
    ensures
        unexpired(s, now).len() <= s.len(),
        forall|k: Seq<char>| has_key(unexpired(s, now), k) ==> has_key(s, k),
        forall|i: int|
            0 <= i < unexpired(s, now).len() ==> !expired(#[trigger] unexpired(s, now)[i], now),
        forall|i: int|
            0 <= i < s.len() && !expired(s[i], now) ==> has_key(
                unexpired(s, now),
                (#[trigger] s[i]).key,
            ),
        distinct_keys(s) ==> distinct_keys(unexpired(s, now)),
    decreases s.len(),
{
    if s.len() > 0 {
        let rest = s.drop_last();
        let last = s.last();
        lemma_unexpired(rest, now);
        let r = unexpired(rest, now);
        let u = unexpired(s, now);
        assert forall|k: Seq<char>| has_key(u, k) implies has_key(s, k) by {
            let i = position(u, k);
            assert(0 <= i < u.len() && u[i].key == k);
            if i < r.len() {
                assert(u[i] == r[i]);
                assert(has_key(r, k));
                assert(has_key(rest, k));
                let j = position(rest, k);
                assert(0 <= j < rest.len() && rest[j].key == k);
                assert(s[j] == rest[j]);
            } else {
                assert(u[i] == last);
                assert(s[s.len() - 1].key == k);
            }
        }
        assert forall|i: int| 0 <= i < s.len() && !expired(s[i], now) implies has_key(
            u,
            (#[trigger] s[i]).key,
        ) by {
            if i < rest.len() {
                assert(rest[i] == s[i]);
                assert(has_key(r, rest[i].key));
                let j = position(r, s[i].key);
                assert(0 <= j < r.len() && r[j].key == s[i].key);
                assert(u[j] == r[j]);
            } else {
                assert(u[u.len() - 1] == last);
                assert(u[u.len() - 1].key == s[i].key);
            }
        }
        assert forall|i: int| 0 <= i < u.len() implies !expired(#[trigger] u[i], now) by {
            if i < r.len() {
                assert(u[i] == r[i]);
            }
        }
        if distinct_keys(s) {
            assert(distinct_keys(rest)) by {
                assert forall|i: int, j: int| 0 <= i < j < rest.len() implies (#[trigger] rest[i]).key
                    != (#[trigger] rest[j]).key by {
                    assert(s[i].key != s[j].key);
                }
            }
            assert forall|i: int, j: int| 0 <= i < j < u.len() implies (#[trigger] u[i]).key != (
            #[trigger] u[j]).key by {
                if j < r.len() {
                    assert(r[i].key != r[j].key);
                } else {
                    assert(u[j] == last);
                    assert(u[i] == r[i]);
                    if r[i].key == last.key {
                        assert(has_key(r, last.key));
                        assert(has_key(rest, last.key));
                        let p = position(rest, last.key);
                        assert(0 <= p < rest.len() && rest[p].key == last.key);
                        assert(s[p] == rest[p]);
                        assert(s[p].key != s[s.len() - 1].key);
                    }
                }
            }
        }
    }
}

/// The slot with the given parts.
pub open spec fn slot<V>(key: Seq<char>, value: V, deadline: Option<u64>) -> Slot<V> {
    Slot { key, value, deadline }
}

struct Entry<V> {
    key: String,
    value: V,
    deadline: Option<u64>,
}

impl<V> Entry<V> {
    spec fn as_slot(self) -> Slot<V> {
        Slot { key: self.key@, value: self.value, deadline: self.deadline }
    }
}

/// The bounded registry. Its view is the sequence of its slots in insertion
/// order.
pub struct Cache<V> {
    entries: Vec<Entry<V>>,
    capacity: Option<usize>,
}

impl<V> View for Cache<V> {
    type V = Seq<Slot<V>>;

    closed spec fn view(&self) -> Seq<Slot<V>> {
        Seq::new(self.entries@.len(), |i: int| self.entries@[i].as_slot())
    }
}

impl<V> Cache<V> {
    /// The ceiling on the number of entries, if the registry has one.
    pub closed spec fn ceiling(&self) -> Option<usize> {
        self.capacity
    }

    /// Keys are unique and the ceiling holds.
    pub open spec fn wf(&self) -> bool {
        well_formed(self@, self.ceiling())
    }

    /// An empty registry without a ceiling.
    pub fn new() -> (c: Self)
        ensures
            c@.len() == 0,
            c.ceiling() is None,
            c.wf(),
    {
        Cache { entries: Vec::new(), capacity: None }
    }

    /// An empty registry that refuses to grow past `capacity` entries.
    pub fn with_capacity(capacity: usize) -> (c: Self)
        ensures
            c@.len() == 0,
            c.ceiling() == Some(capacity),
            c.wf(),
    {
        Cache { entries: Vec::new(), capacity: Some(capacity) }
    }

    /// The ceiling, if any.
    pub fn capacity(&self) -> (c: Option<usize>)
        ensures
            c == self.ceiling(),
    {
        self.capacity
    }

    /// The number of entries, expired ones included until they are
    /// reconciled away.
    pub fn len(&self) -> (n: usize)
        ensures
            n == self@.len(),
    {
        self.entries.len()
    }

    /// Whether the registry holds nothing.
    pub fn is_empty(&self) -> (b: bool)
        ensures
            b == (self@.len() == 0),
    {
        self.entries.len() == 0
    }

    /// Whether a new key would be refused.
    pub fn is_full(&self) -> (b: bool)
        ensures
            b == (self.ceiling() is Some && self@.len() >= self.ceiling()->0),
    {
        match self.capacity {
            Some(c) => self.entries.len() >= c,
            None => false,
        }
    }

    fn find(&self, key: &String) -> (r: Option<usize>)
        requires
            self.wf(),
        ensures
            r is Some <==> has_key(self@, key@),
            r is Some ==> r->0 < self@.len() && self@[r->0 as int].key == key@ && position(
                self@,
                key@,
            ) == r->0,
    {
        let mut i: usize = 0;
        while i < self.entries.len()
            invariant
                self.wf(),
                i <= self.entries.len(),
                forall|j: int| 0 <= j < i ==> (#[trigger] self@[j]).key != key@,
            decreases self.entries.len() - i,
        {
            if self.entries[i].key == *key {
                proof {
                    assert(self@[i as int].key == key@);
                    lemma_position_unique(self@, i as int);
                }
                return Some(i);
            }
            i += 1;
        }
        None
    }

    /// Whether `key` is in the registry.
    pub fn contains_key(&self, key: &String) -> (b: bool)
        requires
            self.wf(),
        ensures
            b == has_key(self@, key@),
    {
        self.find(key).is_some()
    }

    /// A shared view of the value stored under `key`.
    pub fn get(&self, key: &String) -> (r: Option<&V>)
        requires
            self.wf(),
        ensures
            r is Some <==> has_key(self@, key@),
            r is Some ==> Some(*r->0) == lookup(self@, key@),
    {
        match self.find(key) {
            Some(i) => Some(&self.entries[i].value),
            None => None,
        }
    }

    fn put(&mut self, key: String, value: V, deadline: Option<u64>) -> (r: Result<
        Option<V>,
        CapacityExceeded,
    >)
        requires
            old(self).wf(),
        ensures
            final(self).wf(),
            final(self).ceiling() == old(self).ceiling(),
            final(self)@ == after_insert(old(self)@, old(self).ceiling(), slot(key@, value, deadline)),
            r is Err <==> insert_refused(old(self)@, old(self).ceiling(), key@),
            r is Ok ==> r->Ok_0 == lookup(old(self)@, key@),
    {
        let ghost before = self@;
        let ghost added = slot(key@, value, deadline);
        proof {
            lemma_insert_keeps_well_formed(before, self.ceiling(), added);
        }
        match self.find(&key) {
            Some(i) => {
                self.entries.push(Entry { key, value, deadline });
                let previous = self.entries.swap_remove(i);
                assert(self@ =~= before.update(i as int, added));
                Ok(Some(previous.value))
            },
            None => {
                if self.is_full() {
                    return Err(CapacityExceeded);
                }
                self.entries.push(Entry { key, value, deadline });
                assert(self@ =~= before.push(added));
                Ok(None)
            },
        }
    }

    /// Stores `value` under `key`, without a deadline.
    ///
    /// A key already present keeps its place in the order and hands back the
    /// value it had: the last writer wins. A new key goes to the end, unless
    /// the registry is full: then the insert is refused and nothing changes.
    pub fn insert(&mut self, key: String, value: V) -> (r: Result<Option<V>, CapacityExceeded>)
        requires
            old(self).wf(),
        ensures
            final(self).wf(),
            final(self).ceiling() == old(self).ceiling(),
            final(self)@ == after_insert(old(self)@, old(self).ceiling(), slot(key@, value, None)),
            r is Err <==> insert_refused(old(self)@, old(self).ceiling(), key@),
            r is Ok ==> r->Ok_0 == lookup(old(self)@, key@),
    {
        self.put(key, value, None)
    }

    /// As [`Cache::insert`], with a deadline: from time `deadline` on, the
    /// next [`Cache::reconcile`] evicts the entry.
    pub fn insert_until(&mut self, key: String, value: V, deadline: u64) -> (r: Result<
        Option<V>,
        CapacityExceeded,
    >)
        requires
            old(self).wf(),
        ensures
            final(self).wf(),
            final(self).ceiling() == old(self).ceiling(),
            final(self)@ == after_insert(
                old(self)@,
                old(self).ceiling(),
                slot(key@, value, Some(deadline)),
            ),
            r is Err <==> insert_refused(old(self)@, old(self).ceiling(), key@),
            r is Ok ==> r->Ok_0 == lookup(old(self)@, key@),
    {
        self.put(key, value, Some(deadline))
    }

    /// Takes `key` out and hands back its value; the other entries keep their
    /// order.
    pub fn remove(&mut self, key: &String) -> (r: Option<V>)
        requires
            old(self).wf(),
        ensures
            final(self).wf(),
            final(self).ceiling() == old(self).ceiling(),
            final(self)@ == after_remove(old(self)@, key@),
            r == lookup(old(self)@, key@),
    {
        let ghost before = self@;
        proof {
            lemma_remove_keeps_well_formed(before, self.ceiling(), key@);
        }
        match self.find(key) {
            Some(i) => {
                let entry = self.entries.remove(i);
                assert(self@ =~= before.remove(i as int));
                Some(entry.value)
            },
            None => None,
        }
    }

    /// Takes everything out.
    pub fn clear(&mut self)
        ensures
            final(self).wf(),
            final(self).ceiling() == old(self).ceiling(),
            final(self)@.len() == 0,
    {
        self.entries.clear();
    }

    /// The keys in insertion order, as they stand now.
    pub fn keys(&self) -> (r: Vec<String>)
        ensures
            r@.len() == self@.len(),
            forall|i: int| 0 <= i < r@.len() ==> (#[trigger] r@[i])@ == self@[i].key,
    {
        let mut out: Vec<String> = Vec::new();
        let mut i: usize = 0;
        while i < self.entries.len()
            invariant
                i <= self.entries.len(),
                out@.len() == i,
                forall|j: int| 0 <= j < i ==> (#[trigger] out@[j])@ == self@[j].key,
            decreases self.entries.len() - i,
        {
            out.push(self.entries[i].key.clone());
            i += 1;
        }
        out
    }

    /// A snapshot of the entries in insertion order: each key with a shared
    /// view of its value.
    pub fn iter(&self) -> (r: Vec<(&String, &V)>)
        ensures
            r@.len() == self@.len(),
            forall|i: int|
                0 <= i < r@.len() ==> (#[trigger] r@[i]).0@ == self@[i].key && *r@[i].1
                    == self@[i].value,
    {
        let mut out: Vec<(&String, &V)> = Vec::new();
        let mut i: usize = 0;
        while i < self.entries.len()
            invariant
                i <= self.entries.len(),
                out@.len() == i,
                forall|j: int|
                    0 <= j < i ==> (#[trigger] out@[j]).0@ == self@[j].key && *out@[j].1
                        == self@[j].value,
            decreases self.entries.len() - i,
        {
            out.push((&self.entries[i].key, &self.entries[i].value));
            i += 1;
        }
        out
    }

    /// Evicts every entry whose deadline is at or before `now` and says how
    /// many went. The entries that stay keep their order.
    pub fn reconcile(&mut self, now: u64) -> (evicted: usize)
        requires
            old(self).wf(),
        ensures
            final(self).wf(),
            final(self).ceiling() == old(self).ceiling(),
            final(self)@ == unexpired(old(self)@, now),
            evicted == old(self)@.len() - final(self)@.len(),
    {
        let ghost before = self@;
        let mut evicted: usize = 0;
        let mut i: usize = 0;
        proof {
            assert(before.len() == self.entries.len());
            assert(before.take(0).len() == 0);
            assert(self@.take(0) =~= before.take(0));
            assert(self@.skip(0) =~= before.skip(0));
        }
        while i < self.entries.len()
            invariant
                self.capacity == old(self).capacity,
                before.len() <= usize::MAX,
                i <= self.entries.len(),
                i + evicted <= before.len(),
                self@.len() + evicted == before.len(),
                self@.take(i as int) == unexpired(before.take(i + evicted), now),
                self@.skip(i as int) == before.skip(i + evicted),
            decreases self.entries.len() - i,
        {
            let ghost current = self@;
            let ghost consumed = before.take(i + evicted + 1);
            proof {
                assert(current[i as int] == current.skip(i as int)[0]);
                assert(consumed.drop_last() =~= before.take(i + evicted));
                assert(consumed.last() == current[i as int]);
            }
            let gone = match self.entries[i].deadline {
                Some(t) => t <= now,
                None => false,
            };
            if gone {
                let _ = self.entries.remove(i);
                evicted += 1;
                proof {
                    assert(self@ =~= current.remove(i as int));
                    assert(self@.take(i as int) =~= current.take(i as int));
                    assert forall|k: int| 0 <= k < self@.skip(i as int).len() implies self@.skip(
                        i as int,
                    )[k] == before.skip(i + evicted)[k] by {
                        assert(self@.skip(i as int)[k] == current.skip(i as int)[k + 1]);
                        assert(before.skip(i + evicted - 1)[k + 1] == before.skip(i + evicted)[k]);
                    }
                    assert(self@.skip(i as int) =~= before.skip(i + evicted));
                }
            } else {
                i += 1;
                proof {
                    assert(self@.take(i as int) =~= current.take(i - 1).push(current[i - 1]));
                    assert forall|k: int| 0 <= k < self@.skip(i as int).len() implies self@.skip(
                        i as int,
                    )[k] == before.skip(i + evicted)[k] by {
                        assert(self@.skip(i as int)[k] == current.skip(i - 1)[k + 1]);
                        assert(before.skip(i - 1 + evicted)[k + 1] == before.skip(i + evicted)[k]);
                    }
                    assert(self@.skip(i as int) =~= before.skip(i + evicted));
                }
            }
        }
        proof {
            assert(self@.take(i as int) =~= self@);
            assert(before.take(i + evicted) =~= before);
            lemma_unexpired(before, now);
        }
        evicted
    }
}

/// An insert keeps the registry invariant, and a stored key can be looked up.
pub proof fn lemma_insert_keeps_well_formed<V>(s: Seq<Slot<V>>, capacity: Option<usize>, added: Slot<V>)
    requires
        well_formed(s, capacity),
    ensures
        well_formed(after_insert(s, capacity, added), capacity),
        !insert_refused(s, capacity, added.key) ==> lookup(after_insert(s, capacity, added), added.key)
            == Some(added.value),
        forall|k: Seq<char>|
            k != added.key ==> lookup(after_insert(s, capacity, added), k) == #[trigger] lookup(s, k),
{
    let t = after_insert(s, capacity, added);
    if has_key(s, added.key) {
        let p = position(s, added.key);
        assert(0 <= p < s.len() && s[p].key == added.key);
        assert forall|i: int, j: int| 0 <= i < j < t.len() implies (#[trigger] t[i]).key != (
        #[trigger] t[j]).key by {
            assert(t[i].key == s[i].key);
            assert(t[j].key == s[j].key);
        }
        assert(t[p].key == added.key);
        lemma_position_unique(t, p);
        assert forall|k: Seq<char>| k != added.key implies lookup(t, k) == #[trigger] lookup(s, k) by {
            if has_key(s, k) {
                let q = position(s, k);
                assert(0 <= q < s.len() && s[q].key == k);
                assert(t[q] == s[q]);
                lemma_position_unique(t, q);
            } else if has_key(t, k) {
                let q = position(t, k);
                assert(0 <= q < t.len() && t[q].key == k);
                assert(s[q].key == k);
            }
        }
    } else if insert_refused(s, capacity, added.key) {
    } else {
        assert forall|i: int, j: int| 0 <= i < j < t.len() implies (#[trigger] t[i]).key != (
        #[trigger] t[j]).key by {
            if j < s.len() {
                assert(t[i] == s[i] && t[j] == s[j]);
            } else {
                assert(t[i] == s[i]);
            }
        }
        assert(t[s.len() as int].key == added.key);
        lemma_position_unique(t, s.len() as int);
        assert forall|k: Seq<char>| k != added.key implies lookup(t, k) == #[trigger] lookup(s, k) by {
            if has_key(s, k) {
                let q = position(s, k);
                assert(0 <= q < s.len() && s[q].key == k);
                assert(t[q] == s[q]);
                lemma_position_unique(t, q);
            } else if has_key(t, k) {
                let q = position(t, k);
                assert(0 <= q < t.len() && t[q].key == k);
                assert(s[q].key == k);
            }
        }
    }
}

/// A removal keeps the registry invariant, the key is gone afterwards, and
/// no other key is touched.
pub proof fn lemma_remove_keeps_well_formed<V>(s: Seq<Slot<V>>, capacity: Option<usize>, key: Seq<char>)
    requires
        well_formed(s, capacity),
    ensures
        well_formed(after_remove(s, key), capacity),
        !has_key(after_remove(s, key), key),
        forall|k: Seq<char>| k != key ==> lookup(after_remove(s, key), k) == #[trigger] lookup(s, k),
        after_remove(s, key).len() == if has_key(s, key) { s.len() - 1 } else { s.len() as int },
{
    let t = after_remove(s, key);
    if has_key(s, key) {
        let p = position(s, key);
        assert(0 <= p < s.len() && s[p].key == key);
        assert forall|i: int| 0 <= i < t.len() implies (#[trigger] t[i]) == s[if i < p { i } else { i + 1 }] by {}
        assert forall|i: int, j: int| 0 <= i < j < t.len() implies (#[trigger] t[i]).key != (
        #[trigger] t[j]).key by {
            let a = if i < p { i } else { i + 1 };
            let b = if j < p { j } else { j + 1 };
            assert(s[a].key != s[b].key);
        }
        if has_key(t, key) {
            let q = position(t, key);
            assert(0 <= q < t.len() && t[q].key == key);
            let a = if q < p { q } else { q + 1 };
            assert(t[q] == s[a]);
            if a < p {
                assert(s[a].key != s[p].key);
            } else {
                assert(s[p].key != s[a].key);
            }
        }
        assert forall|k: Seq<char>| k != key implies lookup(t, k) == #[trigger] lookup(s, k) by {
            if has_key(s, k) {
                let q = position(s, k);
                assert(0 <= q < s.len() && s[q].key == k);
                let a = if q < p { q } else { q - 1 };
                assert(t[a] == s[q]);
                lemma_position_unique(t, a);
            } else if has_key(t, k) {
                let q = position(t, k);
                assert(0 <= q < t.len() && t[q].key == k);
                let a = if q < p { q } else { q + 1 };
                assert(s[a].key == k);
            }
        }
    }
}

/// One change to a registry: an insert of a slot, or the removal of a key.
pub enum Change<V> {
    Insert(Slot<V>),
    Remove(Seq<char>),
}

/// The registry after one change.
pub open spec fn after_change<V>(s: Seq<Slot<V>>, capacity: Option<usize>, change: Change<V>) -> Seq<
    Slot<V>,
> {
    match change {
        Change::Insert(added) => after_insert(s, capacity, added),
        Change::Remove(key) => after_remove(s, key),
    }
}

/// The registry after a run of changes, applied first to last.
pub open spec fn after_changes<V>(
    s: Seq<Slot<V>>,
    capacity: Option<usize>,
    changes: Seq<Change<V>>,
) -> Seq<Slot<V>>
    decreases changes.len(),
{
    if changes.len() == 0 {
        s
    } else {
        after_change(after_changes(s, capacity, changes.drop_last()), capacity, changes.last())
    }
}

/// With unique keys, a registry holds as many keys as it has entries.
pub proof fn lemma_key_count<V>(s: Seq<Slot<V>>)
    requires
        distinct_keys(s),
    ensures
        key_set(s).finite(),
        key_set(s).len() == s.len(),
    decreases s.len(),
{
    if s.len() == 0 {
        assert(key_set(s) =~= Set::<Seq<char>>::empty());
    } else {
        let rest = s.drop_last();
        let last = s.last();
        assert(distinct_keys(rest)) by {
            assert forall|i: int, j: int| 0 <= i < j < rest.len() implies (#[trigger] rest[i]).key != (
            #[trigger] rest[j]).key by {
                assert(s[i].key != s[j].key);
            }
        }
        lemma_key_count(rest);
        if has_key(rest, last.key) {
            let p = position(rest, last.key);
            assert(0 <= p < rest.len() && rest[p].key == last.key);
            assert(s[p].key != s[s.len() - 1].key);
        }
        assert(key_set(s) =~= key_set(rest).insert(last.key)) by {
            assert forall|k: Seq<char>| key_set(s).contains(k) == key_set(rest).insert(
                last.key,
            ).contains(k) by {
                if has_key(s, k) {
                    let p = position(s, k);
                    assert(0 <= p < s.len() && s[p].key == k);
                    if p < rest.len() {
                        assert(rest[p].key == k);
                    }
                }
                if has_key(rest, k) {
                    let p = position(rest, k);
                    assert(0 <= p < rest.len() && rest[p].key == k);
                    assert(s[p].key == k);
                }
                if k == last.key {
                    assert(s[s.len() - 1].key == k);
                }
            }
        }
    }
}

/// Whatever inserts and removals a registry goes through, it keeps its
/// invariant: its length is the number of keys it holds, and it never holds
/// more than its ceiling allows.
pub proof fn lemma_changes_keep_count_and_ceiling<V>(
    s: Seq<Slot<V>>,
    capacity: Option<usize>,
    changes: Seq<Change<V>>,
)
    requires
        well_formed(s, capacity),
    ensures
        well_formed(after_changes(s, capacity, changes), capacity),
        key_set(after_changes(s, capacity, changes)).finite(),
        key_set(after_changes(s, capacity, changes)).len() == after_changes(
            s,
            capacity,
            changes,
        ).len(),
        within(capacity, after_changes(s, capacity, changes).len()),
    decreases changes.len(),
{
    if changes.len() > 0 {
        let earlier = after_changes(s, capacity, changes.drop_last());
        lemma_changes_keep_count_and_ceiling(s, capacity, changes.drop_last());
        match changes.last() {
            Change::Insert(added) => {
                lemma_insert_keeps_well_formed(earlier, capacity, added);
            },
            Change::Remove(key) => {
                lemma_remove_keeps_well_formed(earlier, capacity, key);
            },
        }
    }
    lemma_key_count(after_changes(s, capacity, changes));
}

/// Storing a key that the registry already holds does not add an entry: the
/// length stays, and so does the key's place in the order.
pub proof fn lemma_insert_known_key<V>(s: Seq<Slot<V>>, capacity: Option<usize>, added: Slot<V>)
    requires
        well_formed(s, capacity),
        has_key(s, added.key),
    ensures
        after_insert(s, capacity, added).len() == s.len(),
        keys_of(after_insert(s, capacity, added)) == keys_of(s),
{
    let t = after_insert(s, capacity, added);
    let p = position(s, added.key);
    assert(0 <= p < s.len() && s[p].key == added.key);
    assert(keys_of(t) =~= keys_of(s));
}

} // verus!
