//! A first-in first-out queue of keyed entries with keyed lookup.

use std::collections::{HashMap, VecDeque};
use std::collections::hash_map::RandomState;
use core::hash::Hash;
use vstd::prelude::*;
use vstd::std_specs::hash::{obeys_key_model, builds_valid_hashers};

verus! {

broadcast use {
    vstd::std_specs::hash::group_hash_axioms,
    vstd::std_specs::vecdeque::group_vec_dequeue_axioms,
};

/// Entries kept in insertion order, each key at most once.
pub struct QueueMap<K, V> where K: Copy, K: PartialEq + Eq, K: Hash {
    queue: VecDeque<K>,
    set: HashMap<K, V>,
}

impl<K, V> View for QueueMap<K, V> where K: Copy, K: PartialEq + Eq, K: Hash {
    type V = Seq<(K, V)>;

    /// The entries, oldest first.
    closed spec fn view(&self) -> Seq<(K, V)> {
        Seq::new(self.queue@.len(), |i: int| (self.queue@[i], self.set@[self.queue@[i]]))
    }
}

/// The keys of a sequence of entries.
pub open spec fn keys_of<K, V>(entries: Seq<(K, V)>) -> Seq<K> {
    entries.map_values(|e: (K, V)| e.0)
}

/// The value stored under `key` in a sequence of entries, if any.
pub open spec fn lookup<K, V>(entries: Seq<(K, V)>, key: K) -> Option<V> {
    if exists|i: int| 0 <= i < entries.len() && entries[i].0 == key {
        Some(entries[choose|i: int| 0 <= i < entries.len() && entries[i].0 == key].1)
    } else {
        None
    }
}

impl<K, V> QueueMap<K, V> where K: Copy, K: PartialEq + Eq, K: Hash {
    /// The queue and the map hold the same keys, and no key is queued twice.
    pub closed spec fn wf(&self) -> bool {
        &&& obeys_key_model::<K>()
        &&& builds_valid_hashers::<RandomState>()
        &&& self.queue@.no_duplicates()
        &&& forall|k: K| self.set@.contains_key(k) <==> self.queue@.contains(k)
    }

    proof fn lemma_view_facts(&self)
        requires
            self.wf(),
        ensures
            keys_of(self@) == self.queue@,
            keys_of(self@).no_duplicates(),
            forall|k: K| #[trigger] lookup(self@, k) == if self.set@.contains_key(k) {
                Some(self.set@[k])
            } else {
                None
            },
    {
        assert(keys_of(self@) =~= self.queue@);
        assert forall|k: K| #[trigger] lookup(self@, k) == if self.set@.contains_key(k) {
            Some(self.set@[k])
        } else {
            None
        } by {
            if self.set@.contains_key(k) {
                assert(self.queue@.contains(k));
                let j = choose|j: int| 0 <= j < self.queue@.len() && self.queue@[j] == k;
                assert(self@[j].0 == k);
                let i = choose|i: int| 0 <= i < self@.len() && self@[i].0 == k;
                assert(self.queue@[i] == self.queue@[j]);
            } else {
                if exists|i: int| 0 <= i < self@.len() && self@[i].0 == k {
                    let i = choose|i: int| 0 <= i < self@.len() && self@[i].0 == k;
                    assert(self.queue@.contains(self.queue@[i]));
                }
            }
        }
    }

    /// An empty queue.
    pub fn new() -> (r: Self)
        requires
            obeys_key_model::<K>(),
        ensures
            r.wf(),
            r@ == Seq::<(K, V)>::empty(),
    {
        let r = QueueMap { queue: VecDeque::new(), set: HashMap::new() };
        assert(r@ =~= Seq::<(K, V)>::empty());
        r
    }

    /// The value stored under `key`.
    pub fn get(&self, key: &K) -> (r: Option<&V>)
        requires
            self.wf(),
        ensures
            match r {
                Some(v) => lookup(self@, *key) == Some(*v),
                None => lookup(self@, *key) is None,
            },
    {
        proof {
            self.lemma_view_facts();
        }
        self.set.get(key)
    }

    /// Appends an entry unless its key is already queued; returns whether it was appended.
    pub fn push_back(&mut self, key: K, value: V) -> (r: bool)
        requires
            old(self).wf(),
        ensures
            final(self).wf(),
            r == !keys_of(old(self)@).contains(key),
            r ==> final(self)@ == old(self)@.push((key, value)),
            !r ==> final(self)@ == old(self)@,
    {
        proof {
            self.lemma_view_facts();
        }
        if self.set.contains_key(&key) {
            return false;
        } else {
            let ghost old_queue = self.queue@;
            let ghost old_set = self.set@;
            let ghost old_view = self@;
            self.set.insert(key, value);
            self.queue.push_back(key);
            proof {
                assert(!old_queue.contains(key));
                assert forall|i: int| 0 <= i < old_queue.len() implies old_queue[i] != key by {
                    if old_queue[i] == key {
                        assert(old_queue.contains(key));
                    }
                }
                assert(self@ =~= old_view.push((key, value)));
                assert forall|k: K| self.set@.contains_key(k) <==> self.queue@.contains(k) by {
                    if self.queue@.contains(k) && k != key {
                        let j = choose|j: int| 0 <= j < self.queue@.len() && self.queue@[j] == k;
                        assert(old_queue[j] == k);
                    }
                    if old_queue.contains(k) {
                        let j = choose|j: int| 0 <= j < old_queue.len() && old_queue[j] == k;
                        assert(self.queue@[j] == k);
                    }
                    if k == key {
                        assert(self.queue@[old_queue.len() as int] == key);
                    }
                }
            }
            return true;
        }
    }

    /// Removes and returns the oldest entry.
    pub fn pop_front(&mut self) -> (r: Option<(K, V)>)
        requires
            old(self).wf(),
        ensures
            final(self).wf(),
            old(self)@.len() == 0 ==> r is None && final(self)@ == old(self)@,
            old(self)@.len() > 0 ==> r == Some(old(self)@[0]) && final(self)@
                == old(self)@.drop_first(),
    {
        let ghost old_queue = self.queue@;
        let ghost old_set = self.set@;
        let ghost old_view = self@;
        if let Some(last_key) = self.queue.pop_front() {
            proof {
                assert(old_queue.contains(last_key));
                assert(old_queue[0] == last_key);
                assert forall|i: int| 0 <= i < self.queue@.len() implies self.queue@[i]
                    != last_key by {
                    assert(old_queue[i + 1] == self.queue@[i]);
                }
            }
            match self.set.remove(&last_key) {
                Some(v) => {
                    proof {
                        assert(self@ =~= old_view.drop_first());
                        assert forall|k: K| self.set@.contains_key(k) <==> self.queue@.contains(
                            k,
                        ) by {
                            if self.queue@.contains(k) {
                                let j = choose|j: int|
                                    0 <= j < self.queue@.len() && self.queue@[j] == k;
                                assert(old_queue[j + 1] == k);
                            }
                            if old_queue.contains(k) && k != last_key {
                                let j = choose|j: int|
                                    0 <= j < old_queue.len() && old_queue[j] == k;
                                assert(j != 0);
                                assert(self.queue@[j - 1] == k);
                            }
                        }
                    }
                    Some((last_key, v))
                },
                None => {
                    proof {
                        assert(false);
                    }
                    None
                },
            }
        } else {
            proof {
                assert(old_view =~= Seq::<(K, V)>::empty());
            }
            None
        }
    }
}

/// Walks the values of a `QueueMap`, oldest first.
pub struct QueueMapIterator<'map, K, V> where K: Copy, K: PartialEq + Eq, K: Hash {
    map: &'map QueueMap<K, V>,
    index: usize,
}

impl<'map, K, V> QueueMapIterator<'map, K, V> where K: Copy, K: PartialEq + Eq, K: Hash {
    /// The entries being walked.
    pub closed spec fn entries(&self) -> Seq<(K, V)> {
        self.map@
    }

    /// How many values have been handed out so far.
    pub closed spec fn position(&self) -> nat {
        self.index as nat
    }

    pub closed spec fn wf(&self) -> bool {
        &&& self.map.wf()
        &&& self.index <= self.map.queue@.len()
    }

    /// The next value in queue order, or `None` once every value was handed out.
    pub fn next(&mut self) -> (r: Option<&'map V>)
        requires
            old(self).wf(),
        ensures
            final(self).wf(),
            final(self).entries() == old(self).entries(),
            old(self).position() < old(self).entries().len() ==> {
                &&& r matches Some(v) && *v == old(self).entries()[old(self).position() as int].1
                &&& final(self).position() == old(self).position() + 1
            },
            old(self).position() >= old(self).entries().len() ==> {
                &&& r is None
                &&& final(self).position() == old(self).position()
            },
    {
        if self.index < self.map.queue.len() {
            let key = &self.map.queue[self.index];
            proof {
                assert(self.map.queue@.contains(*key));
            }
            let value = self.map.set.get(key).expect("Desynced set and queue");
            self.index += 1;
            Some(value)
        } else {
            None
        }
    }
}

impl<K, V> QueueMap<K, V> where K: Copy, K: PartialEq + Eq, K: Hash {
    /// An iterator over the values, oldest first.
    pub fn iter(&self) -> (r: QueueMapIterator<'_, K, V>)
        requires
            self.wf(),
        ensures
            r.wf(),
            r.entries() == self@,
            r.position() == 0,
    {
        QueueMapIterator { map: self, index: 0 }
    }
}

/// No key is ever queued twice.
pub proof fn law_keys_unique<K, V>(q: &QueueMap<K, V>)
    where K: Copy, K: PartialEq + Eq, K: Hash
    requires
        q.wf(),
    ensures
        keys_of(q@).no_duplicates(),
{
    q.lemma_view_facts();
}

/// First in, first out: appending an entry does not change which entry
/// leaves next, unless the queue was empty, in which case the appended
/// entry leaves next; what remains after it left still ends with the
/// appended entry.
pub proof fn law_first_in_first_out<K, V>(s: Seq<(K, V)>, e: (K, V))
    ensures
        s.len() > 0 ==> s.push(e)[0] == s[0] && s.push(e).drop_first() == s.drop_first().push(
            e,
        ),
        s.len() == 0 ==> s.push(e)[0] == e && s.push(e).drop_first() == s,
{
    if s.len() > 0 {
        assert(s.push(e).drop_first() =~= s.drop_first().push(e));
    } else {
        assert(s.push(e).drop_first() =~= s);
    }
}

/// Read after write: once an entry with a fresh key is appended, looking
/// that key up finds the appended value, and any other key finds what it
/// found before.
pub proof fn law_lookup_after_push<K, V>(s: Seq<(K, V)>, key: K, value: V, other: K)
    requires
        keys_of(s).no_duplicates(),
        !keys_of(s).contains(key),
        other != key,
    ensures
        lookup(s.push((key, value)), key) == Some(value),
        lookup(s.push((key, value)), other) == lookup(s, other),
{
    let t = s.push((key, value));
    assert(t[s.len() as int].0 == key);
    assert forall|i: int| 0 <= i < s.len() implies s[i].0 != key by {
        assert(keys_of(s)[i] == s[i].0);
    }
    if exists|i: int| 0 <= i < s.len() && s[i].0 == other {
        let i = choose|i: int| 0 <= i < s.len() && s[i].0 == other;
        assert(t[i].0 == other);
        let j = choose|j: int| 0 <= j < t.len() && t[j].0 == other;
        assert(keys_of(s)[i] == s[i].0);
        assert(keys_of(s)[j] == s[j].0);
    }
    if exists|i: int| 0 <= i < t.len() && t[i].0 == other {
        let j = choose|j: int| 0 <= j < t.len() && t[j].0 == other;
        assert(s[j].0 == other);
    }
}

/// Once the oldest entry is removed, its key is no longer found, and any
/// other key finds what it found before.
pub proof fn law_lookup_after_pop<K, V>(s: Seq<(K, V)>, other: K)
    requires
        keys_of(s).no_duplicates(),
        s.len() > 0,
        other != s[0].0,
    ensures
        lookup(s.drop_first(), s[0].0) is None,
        lookup(s.drop_first(), other) == lookup(s, other),
{
    let t = s.drop_first();
    assert forall|i: int| 0 <= i < t.len() implies t[i].0 != s[0].0 by {
        assert(keys_of(s)[i + 1] == t[i].0);
        assert(keys_of(s)[0] == s[0].0);
    }
    if exists|i: int| 0 <= i < s.len() && s[i].0 == other {
        let i = choose|i: int| 0 <= i < s.len() && s[i].0 == other;
        assert(i != 0);
        assert(t[i - 1].0 == other);
        let j = choose|j: int| 0 <= j < t.len() && t[j].0 == other;
        assert(keys_of(s)[i] == s[i].0);
        assert(keys_of(s)[j + 1] == s[j + 1].0);
    }
    if exists|i: int| 0 <= i < t.len() && t[i].0 == other {
        let j = choose|j: int| 0 <= j < t.len() && t[j].0 == other;
        assert(s[j + 1].0 == other);
    }
}

/// A key that is not queued stays out of the queue while other keys are
/// pushed and while entries are popped.
pub proof fn law_absent_key_stays_absent<K, V>(s: Seq<(K, V)>, key: K, e: (K, V))
    requires
        !keys_of(s).contains(key),
    ensures
        e.0 != key ==> !keys_of(s.push(e)).contains(key),
        s.len() > 0 ==> !keys_of(s.drop_first()).contains(key),
{
    if e.0 != key && keys_of(s.push(e)).contains(key) {
        let j = choose|j: int| 0 <= j < keys_of(s.push(e)).len() && keys_of(s.push(e))[j] == key;
        assert(j < s.len());
        assert(keys_of(s)[j] == key);
    }
    if s.len() > 0 && keys_of(s.drop_first()).contains(key) {
        let j = choose|j: int|
            0 <= j < keys_of(s.drop_first()).len() && keys_of(s.drop_first())[j] == key;
        assert(keys_of(s)[j + 1] == key);
    }
}

/// A popped key can be queued again: right after the pop it is absent, so
/// pushing it is accepted, and looking it up then finds the new value.
/// (With `law_absent_key_stays_absent`, the same holds after any pushes of
/// other keys and any pops in between.)
pub proof fn law_popped_key_can_be_queued_again<K, V>(s: Seq<(K, V)>, value: V)
    requires
        keys_of(s).no_duplicates(),
        s.len() > 0,
    ensures
        !keys_of(s.drop_first()).contains(s[0].0),
        lookup(s.drop_first().push((s[0].0, value)), s[0].0) == Some(value),
{
    let t = s.drop_first();
    let k = s[0].0;
    if keys_of(t).contains(k) {
        let j = choose|j: int| 0 <= j < keys_of(t).len() && keys_of(t)[j] == k;
        assert(keys_of(s)[j + 1] == k);
        assert(keys_of(s)[0] == k);
    }
    assert(keys_of(t) =~= keys_of(s).drop_first());
    assert(keys_of(t).no_duplicates());
    law_lookup_after_push_found(t, k, value);
}

/// Looking up a key that was just pushed while absent finds the pushed value.
pub proof fn law_lookup_after_push_found<K, V>(s: Seq<(K, V)>, key: K, value: V)
    requires
        !keys_of(s).contains(key),
    ensures
        lookup(s.push((key, value)), key) == Some(value),
{
    let t = s.push((key, value));
    assert(t[s.len() as int].0 == key);
    assert forall|i: int| 0 <= i < s.len() implies s[i].0 != key by {
        assert(keys_of(s)[i] == s[i].0);
    }
}

} // verus!
