//! A keyed cache of constructed resources.
//!
//! A [`Registry`] maps the bytes of a string key to one value, which it
//! builds on the first request for the key and keeps for its whole life.

use crate::common::Result;
use crate::lazy_str::Str;
use hashbrown::HashMap;
use std::rc::Rc;
use vstd::prelude::*;
use vstd::string::*;

verus! {

/// The hash index of a registry: for each key, the slot that holds its value.
#[verifier::external_body]
pub struct KeyIndex {
    map: HashMap<Rc<str>, usize>,
}

/// The entries of the index: the bytes of each key, and the slot it maps to.
pub uninterp spec fn key_index_entries(k: KeyIndex) -> Map<Seq<u8>, usize>;

/// An index without entries.
///
/// Calls `HashMap::default`, which builds an empty map.
#[verifier::external_body]
pub(crate) fn key_index_new() -> (k: KeyIndex)
    ensures
        key_index_entries(k) == (Map::<Seq<u8>, usize>::empty()),
{
    KeyIndex { map: HashMap::default() }
}

/// The slot of `key`, if the index has the key.
///
/// Calls `HashMap::get`, which finds the entry whose key equals `key`; string
/// keys are equal when their bytes are.
#[verifier::external_body]
pub(crate) fn key_index_get(k: &KeyIndex, key: &str) -> (r: Option<usize>)
    ensures
        r == if key_index_entries(*k).contains_key(key.spec_bytes()) {
            Some(key_index_entries(*k)[key.spec_bytes()])
        } else {
            None::<usize>
        },
{
    k.map.get(key).copied()
}

/// Maps `key` to `slot`.
///
/// Calls `HashMap::insert`, which adds the entry, or replaces the slot of an
/// equal key, and leaves every other entry as it was.
#[verifier::external_body]
pub(crate) fn key_index_insert(k: &mut KeyIndex, key: Rc<str>, slot: usize)
    ensures
        key_index_entries(*final(k)) == key_index_entries(*old(k)).insert(
            (*key).spec_bytes(),
            slot,
        ),
{
    k.map.insert(key, slot);
}

/// A cache from string keys to values of one type.
pub struct Registry<T> {
    index: KeyIndex,
    slots: Vec<T>,
}

impl<T> View for Registry<T> {
    type V = Map<Seq<u8>, T>;

    /// The cached value of each key.
    closed spec fn view(&self) -> Map<Seq<u8>, T> {
        Map::new(
            |k: Seq<u8>| key_index_entries(self.index).contains_key(k),
            |k: Seq<u8>| self.slots@[key_index_entries(self.index)[k] as int],
        )
    }
}

impl<T> Registry<T> {
    /// The registry's invariant: every key has a slot of its own, and there
    /// are as many slots as keys.
    pub closed spec fn wf(&self) -> bool {
        let entries = key_index_entries(self.index);
        &&& forall|k: Seq<u8>| entries.contains_key(k) ==> 0 <= #[trigger] entries[k] < self.slots@.len()
        &&& forall|k1: Seq<u8>, k2: Seq<u8>|
            entries.contains_key(k1) && entries.contains_key(k2) && #[trigger] entries[k1]
                == #[trigger] entries[k2] ==> k1 == k2
        &&& entries.dom().finite()
        &&& entries.dom().len() == self.slots@.len()
    }

    /// The number of values that the registry has built.
    pub closed spec fn made(&self) -> nat {
        self.slots@.len()
    }

    /// The slot that holds the value of `key`.
    closed spec fn slot_of(&self, key: Seq<u8>) -> int {
        key_index_entries(self.index)[key] as int
    }

    /// What `getter` must accept: the value cached under the key of `s`, or,
    /// where there is none, whatever `new` builds for that key.
    pub open spec fn may_use<N: FnMut(&str) -> Result<T>>(&self, s: &Str, new: N, x: T) -> bool {
        if self@.contains_key(s@) {
            x == self@[s@]
        } else {
            exists|k: &str| k@ == s.text() && call_ensures(new, (k,), Ok::<T, crate::common::VmError>(x))
        }
    }

    /// The slot of the key `s`, which is filled by `new` if the key is absent.
    fn slot_for<N: FnMut(&str) -> Result<T>>(&mut self, s: &Str, new: N) -> (r: Result<usize>)
        requires
            old(self).wf(),
            forall|k: &str| k@ == s.text() ==> call_requires(new, (k,)),
        ensures
            final(self).wf(),
            old(self)@.contains_key(s@) ==> r is Ok && final(self)@ == old(self)@ && final(self).made() == old(self).made(),
            !old(self)@.contains_key(s@) ==> exists|k: &str, built: Result<T>|
                k@ == s.text() && call_ensures(new, (k,), built) && match built {
                    Err(e) => r == Err::<usize, crate::common::VmError>(e) && final(self)@ == old(self)@ && final(self).made() == old(self).made(),
                    Ok(v) => r is Ok && final(self)@ == old(self)@.insert(s@, v) && final(self).made() == old(self).made() + 1,
                },
            r matches Ok(slot) ==> final(self)@.contains_key(s@) && final(self).slot_of(s@)
                == slot && old(self).may_use(s, new, final(self)@[s@]),
    {
        let mut new = new;
        let k_str = s.to_shared();
        match key_index_get(&self.index, &*k_str) {
            Some(slot) => Ok(slot),
            None => {
                let built = new(&*k_str);
                match built {
                    Err(e) => Err(e),
                    Ok(v) => {
                        let slot = self.slots.len();
                        let ghost entries = key_index_entries(self.index);
                        let ghost before = self@;
                        self.slots.push(v);
                        key_index_insert(&mut self.index, k_str, slot);
                        proof {
                            assert(self@ =~= before.insert(s@, v));
                            assert(key_index_entries(self.index).dom() =~= entries.dom().insert(s@));
                        }
                        Ok(slot)
                    },
                }
            },
        }
    }

    /// Looks up the key `s`, builds its value with `new` if there is none
    /// yet, and returns what `getter` makes of the value. A failure of `new`
    /// is returned as it is and leaves the registry unchanged; a value once
    /// built stays, whatever `getter` returns.
    pub fn get_fallible<R, N: FnMut(&str) -> Result<T>, G: FnOnce(&mut T) -> Result<R>>(
        &mut self,
        s: &Str,
        new: N,
        getter: G,
    ) -> (r: Result<R>)
        requires
            old(self).wf(),
            forall|k: &str| k@ == s.text() ==> call_requires(new, (k,)),
            forall|x: &mut T| old(self).may_use(s, new, *x) ==> call_requires(getter, (x,)),
        ensures
            final(self).wf(),
            final(self).counted_from(old(self), s@),
            old(self)@.contains_key(s@) ==> final(self).made() == old(self).made() && exists|
                x: &mut T,
            |
                *x == old(self)@[s@] && call_ensures(getter, (x,), r) && final(self)@ == old(self)@.insert(s@, *final(x)),
            !old(self)@.contains_key(s@) ==> exists|k: &str, built: Result<T>|
                k@ == s.text() && call_ensures(new, (k,), built) && match built {
                    Err(e) => r == Err::<R, crate::common::VmError>(e) && final(self)@ == old(self)@ && final(self).made() == old(self).made(),
                    Ok(v) => final(self).made() == old(self).made() + 1 && exists|x: &mut T|
                        *x == v && call_ensures(getter, (x,), r) && final(self)@ == old(self)@.insert(s@, *final(x)),
                },
    {
        let slot = match self.slot_for(s, new) {
            Ok(slot) => slot,
            Err(e) => {
                return Err(e);
            },
        };
        let ghost mid = self@;
        let r = getter(&mut self.slots[slot]);
        proof {
            assert(self@ =~= mid.insert(s@, self@[s@]));
            assert(self@ =~= old(self)@.insert(s@, self@[s@]));
        }
        r
    }

    /// Looks up the key `s`, builds its value with `new` if there is none
    /// yet, and returns what `getter` makes of the value. A failure of `new`
    /// is returned as it is and leaves the registry unchanged.
    pub fn get<R, N: FnMut(&str) -> Result<T>, G: FnOnce(&mut T) -> R>(
        &mut self,
        s: &Str,
        new: N,
        getter: G,
    ) -> (r: Result<R>)
        requires
            old(self).wf(),
            forall|k: &str| k@ == s.text() ==> call_requires(new, (k,)),
            forall|x: &mut T| old(self).may_use(s, new, *x) ==> call_requires(getter, (x,)),
        ensures
            final(self).wf(),
            final(self).counted_from(old(self), s@),
            old(self)@.contains_key(s@) ==> exists|x: &mut T, out: R|
                *x == old(self)@[s@] && call_ensures(getter, (x,), out) && r == Ok::<
                    R,
                    crate::common::VmError,
                >(out) && final(self)@ == old(self)@.insert(s@, *final(x)),
            !old(self)@.contains_key(s@) ==> exists|k: &str, built: Result<T>|
                k@ == s.text() && call_ensures(new, (k,), built) && match built {
                    Err(e) => r == Err::<R, crate::common::VmError>(e) && final(self)@ == old(self)@,
                    Ok(v) => exists|x: &mut T, out: R|
                        *x == v && call_ensures(getter, (x,), out) && r == Ok::<
                            R,
                            crate::common::VmError,
                        >(out) && final(self)@ == old(self)@.insert(s@, *final(x)),
                },
    {
        let slot = match self.slot_for(s, new) {
            Ok(slot) => slot,
            Err(e) => {
                return Err(e);
            },
        };
        let ghost mid = self@;
        let out = getter(&mut self.slots[slot]);
        proof {
            assert(self@ =~= mid.insert(s@, self@[s@]));
            assert(self@ =~= old(self)@.insert(s@, self@[s@]));
        }
        Ok(out)
    }

    /// How one lookup of `key` changes the books: a key that was absent and
    /// is present afterwards was built, once; nothing else is built, and no
    /// key is ever dropped.
    pub open spec fn counted_from(&self, before: &Self, key: Seq<u8>) -> bool {
        if !before@.contains_key(key) && self@.contains_key(key) {
            &&& self.made() == before.made() + 1
            &&& self@.dom() == before@.dom().insert(key)
        } else {
            &&& self.made() == before.made()
            &&& self@.dom() == before@.dom()
        }
    }

    /// The registry has built exactly one value for each of its keys.
    pub proof fn lemma_made_counts_keys(&self)
        requires
            self.wf(),
        ensures
            self@.dom().finite(),
            self.made() == self@.dom().len(),
    {
        assert(self@.dom() =~= key_index_entries(self.index).dom());
    }

    /// A value is built at most once for a key: the lookup that first finds
    /// the key present builds nothing, and neither does any later lookup of
    /// that key.
    pub proof fn lemma_built_at_most_once(r0: &Self, r1: &Self, r2: &Self, key: Seq<u8>)
        requires
            r1.counted_from(r0, key),
            r2.counted_from(r1, key),
            r1@.contains_key(key),
        ensures
            r1.made() <= r0.made() + 1,
            r1.made() == r0.made() + 1 <==> !r0@.contains_key(key),
            r2.made() == r1.made(),
            r2@.contains_key(key),
    {
    }
}

impl<T> Default for Registry<T> {
    /// A registry without entries.
    fn default() -> (r: Self)
        ensures
            r.wf(),
            r@ == Map::<Seq<u8>, T>::empty(),
            r.made() == 0,
    {
        let r = Registry { index: key_index_new(), slots: Vec::new() };
        proof {
            assert(r@ =~= Map::<Seq<u8>, T>::empty());
        }
        r
    }
}

} // verus!
