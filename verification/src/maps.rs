//! The associative arrays of the machine: maps keyed by integers or by the
//! bytes of strings, and single-pass iterators over their keys.
//!
//! A map keeps its keys in the order in which they were first stored; a hash
//! index finds the place of a key. Every store stamps the map anew, so that
//! an iterator can tell when the map has changed under it.

use crate::common::{ErrorKind, Result, VmError};
use crate::lazy_str::Str;
use crate::registry::{key_index_entries, key_index_get, key_index_insert, key_index_new, KeyIndex};
use hashbrown::HashMap;
use std::marker::PhantomData;
use vstd::prelude::*;
use vstd::string::*;

verus! {

/// The hash index of an integer-keyed map: for each key, its place in the
/// key order.
#[verifier::external_body]
pub struct IntIndex {
    map: HashMap<i64, usize>,
}

/// The entries of the index: each key and the place it maps to.
pub uninterp spec fn int_index_entries(k: IntIndex) -> Map<i64, usize>;

/// An index without entries.
///
/// Calls `HashMap::default`, which builds an empty map.
#[verifier::external_body]
fn int_index_new() -> (k: IntIndex)
    ensures
        int_index_entries(k) == (Map::<i64, usize>::empty()),
{
    IntIndex { map: HashMap::default() }
}

/// The place of `key`, if the index has the key.
///
/// Calls `HashMap::get`, which finds the entry whose key equals `key`.
#[verifier::external_body]
fn int_index_get(k: &IntIndex, key: i64) -> (r: Option<usize>)
    ensures
        r == if int_index_entries(*k).contains_key(key) {
            Some(int_index_entries(*k)[key])
        } else {
            None::<usize>
        },
{
    k.map.get(&key).copied()
}

/// Maps `key` to `place`.
///
/// Calls `HashMap::insert`, which adds the entry, or replaces the place of
/// an equal key, and leaves every other entry as it was.
#[verifier::external_body]
fn int_index_insert(k: &mut IntIndex, key: i64, place: usize)
    ensures
        int_index_entries(*final(k)) == int_index_entries(*old(k)).insert(key, place),
{
    k.map.insert(key, place);
}

/// The stamp beyond which a map no longer counts its stores.
pub const LAST_STAMP: u64 = 0xffff_ffff_ffff_ffff;

/// The stamp of a map after one more store.
pub open spec fn next_stamp(stamp: u64) -> u64 {
    if stamp == LAST_STAMP {
        LAST_STAMP
    } else {
        (stamp + 1) as u64
    }
}

/// The stamp after one more store.
fn bump(stamp: u64) -> (r: u64)
    ensures
        r == next_stamp(stamp),
{
    if stamp == LAST_STAMP {
        LAST_STAMP
    } else {
        stamp + 1
    }
}

/// A single-pass cursor over the keys of a map. It remembers the stamp of
/// the map it was begun on and how many keys it has handed out.
#[derive(Debug)]
pub struct Iter<K> {
    pos: usize,
    stamp: u64,
    keys: PhantomData<K>,
}

impl<K> Clone for Iter<K> {
    fn clone(&self) -> (r: Self)
        ensures
            r == *self,
    {
        Iter { pos: self.pos, stamp: self.stamp, keys: PhantomData }
    }
}

impl<K> Copy for Iter<K> {

}

impl<K> Iter<K> {
    /// The number of keys handed out so far.
    pub closed spec fn position(&self) -> nat {
        self.pos as nat
    }

    /// The stamp of the map when the iteration began.
    pub closed spec fn stamp(&self) -> u64 {
        self.stamp
    }

    /// Whether the iterator can no longer be trusted on a map with the given
    /// stamp: the map was stored to since the iteration began, or has lost
    /// count of its stores.
    pub open spec fn stale(&self, map_stamp: u64) -> bool {
        self.stamp() != map_stamp || map_stamp == LAST_STAMP
    }

    /// An iterator that belongs to no map and hands out nothing.
    pub fn empty() -> (it: Self)
        ensures
            it.position() == 0,
            it.stamp() == LAST_STAMP,
    {
        Iter { pos: 0, stamp: LAST_STAMP, keys: PhantomData }
    }
}

/// A store makes every iterator stale that was begun before it.
pub proof fn lemma_store_invalidates<K>(it: Iter<K>, before: u64)
    requires
        !it.stale(before),
    ensures
        it.stale(next_stamp(before)),
{
}

/// A map from integers to values of type `V`.
pub struct IntMap<V> {
    index: IntIndex,
    keys: Vec<i64>,
    vals: Vec<V>,
    stamp: u64,
}

impl<V> View for IntMap<V> {
    type V = Map<i64, V>;

    /// The value stored under each key.
    closed spec fn view(&self) -> Map<i64, V> {
        Map::new(
            |k: i64| int_index_entries(self.index).contains_key(k),
            |k: i64| self.vals@[int_index_entries(self.index)[k] as int],
        )
    }
}

impl<V> IntMap<V> {
    /// The map's invariant: the index and the key order describe each other.
    pub closed spec fn wf(&self) -> bool {
        let e = int_index_entries(self.index);
        &&& self.keys@.len() == self.vals@.len()
        &&& forall|k: i64|
            e.contains_key(k) ==> 0 <= #[trigger] e[k] < self.keys@.len() && self.keys@[e[k] as int]
                == k
        &&& forall|i: int|
            0 <= i < self.keys@.len() ==> e.contains_key(#[trigger] self.keys@[i])
                && e[self.keys@[i]] == i
    }

    /// The keys in the order in which an iterator hands them out.
    pub closed spec fn key_order(&self) -> Seq<i64> {
        self.keys@
    }

    /// The stamp of the map; every store changes it.
    pub closed spec fn stamp(&self) -> u64 {
        self.stamp
    }

    /// The key order lists each key of the map once.
    pub proof fn lemma_key_order(&self)
        requires
            self.wf(),
        ensures
            self.key_order().no_duplicates(),
            forall|k: i64| self@.contains_key(k) <==> self.key_order().contains(k),
    {
        let e = int_index_entries(self.index);
        assert forall|k: i64| self@.contains_key(k) implies self.key_order().contains(k) by {
            assert(self.keys@[e[k] as int] == k);
        }
    }

    /// An empty map.
    pub fn new() -> (m: Self)
        ensures
            m.wf(),
            m@ == Map::<i64, V>::empty(),
            m.key_order() == Seq::<i64>::empty(),
            m.stamp() == 0,
    {
        let m = IntMap { index: int_index_new(), keys: Vec::new(), vals: Vec::new(), stamp: 0 };
        proof {
            assert(m@ =~= Map::<i64, V>::empty());
        }
        m
    }

    /// The value stored under `k`, if there is one.
    pub fn get(&self, k: i64) -> (r: Option<&V>)
        requires
            self.wf(),
        ensures
            r == if self@.contains_key(k) {
                Some(&self@[k])
            } else {
                None::<&V>
            },
    {
        match int_index_get(&self.index, k) {
            Some(place) => Some(&self.vals[place]),
            None => None,
        }
    }

    /// Whether a value is stored under `k`.
    pub fn contains(&self, k: i64) -> (r: bool)
        requires
            self.wf(),
        ensures
            r == self@.contains_key(k),
    {
        int_index_get(&self.index, k).is_some()
    }

    /// The number of keys.
    pub fn len(&self) -> (n: usize)
        requires
            self.wf(),
        ensures
            n == self.key_order().len(),
    {
        self.keys.len()
    }

    /// Stores `v` under `k`, in place of any value stored there before. A new
    /// key goes to the end of the key order.
    pub fn insert(&mut self, k: i64, v: V)
        requires
            old(self).wf(),
        ensures
            final(self).wf(),
            final(self)@ == old(self)@.insert(k, v),
            final(self).stamp() == next_stamp(old(self).stamp()),
            final(self).key_order() == if old(self)@.contains_key(k) {
                old(self).key_order()
            } else {
                old(self).key_order().push(k)
            },
    {
        let ghost before = self@;
        match int_index_get(&self.index, k) {
            Some(place) => {
                self.vals.set(place, v);
            },
            None => {
                let place = self.keys.len();
                self.keys.push(k);
                self.vals.push(v);
                int_index_insert(&mut self.index, k, place);
            },
        }
        self.stamp = bump(self.stamp);
        proof {
            assert(self@ =~= before.insert(k, v));
        }
    }

    /// Begins an iteration over the keys.
    pub fn iter(&self) -> (it: Iter<i64>)
        ensures
            it.position() == 0,
            it.stamp() == self.stamp(),
    {
        Iter { pos: 0, stamp: self.stamp, keys: PhantomData }
    }

    /// The next key of an iteration, or `None` when every key has been
    /// handed out. An iterator that is stale on this map is a fatal error.
    pub fn next_key(&self, it: &mut Iter<i64>) -> (r: Result<Option<i64>>)
        requires
            self.wf(),
        ensures
            match r {
                Err(e) => old(it).stale(self.stamp()) && e.kind == ErrorKind::Invariant && *final(it) == *old(it),
                Ok(Some(k)) => !old(it).stale(self.stamp()) && old(it).position()
                    < self.key_order().len() && k == self.key_order()[old(it).position() as int]
                    && final(it).position() == old(it).position() + 1 && final(it).stamp() == old(it).stamp(),
                Ok(None) => !old(it).stale(self.stamp()) && old(it).position()
                    >= self.key_order().len() && *final(it) == *old(it),
            },
    {
        if it.stamp != self.stamp || self.stamp == LAST_STAMP {
            return Err(
                VmError::new(
                    ErrorKind::Invariant,
                    String::from_str("the map has changed under the iterator"),
                ),
            );
        }
        if it.pos < self.keys.len() {
            let k = self.keys[it.pos];
            it.pos = it.pos + 1;
            Ok(Some(k))
        } else {
            Ok(None)
        }
    }
}

/// A map from strings to values of type `V`. Keys are told apart by their
/// bytes, whatever shape the key string has.
pub struct StrMap<'a, V> {
    index: KeyIndex,
    keys: Vec<Str<'a>>,
    vals: Vec<V>,
    stamp: u64,
}

impl<'a, V> View for StrMap<'a, V> {
    type V = Map<Seq<u8>, V>;

    /// The value stored under the bytes of each key.
    closed spec fn view(&self) -> Map<Seq<u8>, V> {
        Map::new(
            |k: Seq<u8>| key_index_entries(self.index).contains_key(k),
            |k: Seq<u8>| self.vals@[key_index_entries(self.index)[k] as int],
        )
    }
}

impl<'a, V> StrMap<'a, V> {
    /// The map's invariant: the index and the key order describe each other.
    pub closed spec fn wf(&self) -> bool {
        let e = key_index_entries(self.index);
        &&& self.keys@.len() == self.vals@.len()
        &&& forall|k: Seq<u8>|
            e.contains_key(k) ==> 0 <= #[trigger] e[k] < self.keys@.len() && self.keys@[e[k] as int]@
                == k
        &&& forall|i: int|
            0 <= i < self.keys@.len() ==> e.contains_key((#[trigger] self.keys@[i])@)
                && e[self.keys@[i]@] == i
    }

    /// The bytes of the keys in the order in which an iterator hands them
    /// out.
    pub closed spec fn key_order(&self) -> Seq<Seq<u8>> {
        Seq::new(self.keys@.len(), |i: int| self.keys@[i]@)
    }

    /// The stamp of the map; every store changes it.
    pub closed spec fn stamp(&self) -> u64 {
        self.stamp
    }

    /// The key order lists each key of the map once.
    pub proof fn lemma_key_order(&self)
        requires
            self.wf(),
        ensures
            self.key_order().no_duplicates(),
            forall|k: Seq<u8>| self@.contains_key(k) <==> self.key_order().contains(k),
    {
        let e = key_index_entries(self.index);
        let order = self.key_order();
        assert forall|k: Seq<u8>| self@.contains_key(k) implies order.contains(k) by {
            assert(order[e[k] as int] == k);
        }
        assert forall|i: int, j: int| 0 <= i < order.len() && 0 <= j < order.len() && i != j implies order[i] != order[j] by {
            assert(e[self.keys@[i]@] == i);
            assert(e[self.keys@[j]@] == j);
        }
        assert forall|k: Seq<u8>| order.contains(k) implies self@.contains_key(k) by {
            let i = choose|i: int| 0 <= i < order.len() && order[i] == k;
            assert(e.contains_key(self.keys@[i]@));
        }
    }

    /// An empty map.
    pub fn new() -> (m: Self)
        ensures
            m.wf(),
            m@ == Map::<Seq<u8>, V>::empty(),
            m.key_order() == Seq::<Seq<u8>>::empty(),
            m.stamp() == 0,
    {
        let m = StrMap { index: key_index_new(), keys: Vec::new(), vals: Vec::new(), stamp: 0 };
        proof {
            assert(m@ =~= Map::<Seq<u8>, V>::empty());
            assert(m.key_order() =~= Seq::<Seq<u8>>::empty());
        }
        m
    }

    /// The place of the key `k` in the key order, if the map has the key.
    fn place_of(&self, k: &Str) -> (r: Option<usize>)
        ensures
            r == if key_index_entries(self.index).contains_key(k@) {
                Some(key_index_entries(self.index)[k@])
            } else {
                None::<usize>
            },
    {
        match k.peek() {
            Some(text) => key_index_get(&self.index, text),
            None => {
                let text = k.flatten();
                key_index_get(&self.index, text.as_str())
            },
        }
    }

    /// The value stored under the bytes of `k`, if there is one.
    pub fn get(&self, k: &Str) -> (r: Option<&V>)
        requires
            self.wf(),
        ensures
            r == if self@.contains_key(k@) {
                Some(&self@[k@])
            } else {
                None::<&V>
            },
    {
        match self.place_of(k) {
            Some(place) => Some(&self.vals[place]),
            None => None,
        }
    }

    /// Whether a value is stored under the bytes of `k`.
    pub fn contains(&self, k: &Str) -> (r: bool)
        requires
            self.wf(),
        ensures
            r == self@.contains_key(k@),
    {
        self.place_of(k).is_some()
    }

    /// The number of keys.
    pub fn len(&self) -> (n: usize)
        requires
            self.wf(),
        ensures
            n == self.key_order().len(),
    {
        self.keys.len()
    }

    /// Stores `v` under the bytes of `k`, in place of any value stored there
    /// before. A new key goes to the end of the key order.
    pub fn insert(&mut self, k: &Str<'a>, v: V)
        requires
            old(self).wf(),
        ensures
            final(self).wf(),
            final(self)@ == old(self)@.insert(k@, v),
            final(self).stamp() == next_stamp(old(self).stamp()),
            final(self).key_order() == if old(self)@.contains_key(k@) {
                old(self).key_order()
            } else {
                old(self).key_order().push(k@)
            },
    {
        let ghost before = self@;
        let ghost order = self.key_order();
        match self.place_of(k) {
            Some(place) => {
                self.vals.set(place, v);
                proof {
                    assert(self.key_order() =~= order);
                }
            },
            None => {
                let place = self.keys.len();
                let shared = k.to_shared();
                let key = Str::from_shared(shared);
                let again = key.to_shared();
                self.keys.push(key);
                self.vals.push(v);
                key_index_insert(&mut self.index, again, place);
                proof {
                    assert(self.key_order() =~= order.push(k@));
                }
            },
        }
        self.stamp = bump(self.stamp);
        proof {
            assert(self@ =~= before.insert(k@, v));
        }
    }

    /// Begins an iteration over the keys.
    pub fn iter(&self) -> (it: Iter<Str<'a>>)
        ensures
            it.position() == 0,
            it.stamp() == self.stamp(),
    {
        Iter { pos: 0, stamp: self.stamp, keys: PhantomData }
    }

    /// The next key of an iteration, or `None` when every key has been
    /// handed out. An iterator that is stale on this map is a fatal error.
    pub fn next_key(&self, it: &mut Iter<Str<'a>>) -> (r: Result<Option<Str<'a>>>)
        requires
            self.wf(),
        ensures
            match r {
                Err(e) => old(it).stale(self.stamp()) && e.kind == ErrorKind::Invariant && *final(it) == *old(it),
                Ok(Some(k)) => !old(it).stale(self.stamp()) && old(it).position()
                    < self.key_order().len() && k@ == self.key_order()[old(it).position() as int]
                    && final(it).position() == old(it).position() + 1 && final(it).stamp() == old(it).stamp(),
                Ok(None) => !old(it).stale(self.stamp()) && old(it).position()
                    >= self.key_order().len() && *final(it) == *old(it),
            },
    {
        if it.stamp != self.stamp || self.stamp == LAST_STAMP {
            return Err(
                VmError::new(
                    ErrorKind::Invariant,
                    String::from_str("the map has changed under the iterator"),
                ),
            );
        }
        if it.pos < self.keys.len() {
            let k = self.keys[it.pos].clone();
            it.pos = it.pos + 1;
            Ok(Some(k))
        } else {
            Ok(None)
        }
    }
}

} // verus!
