//! The instructions on maps: lookup, membership, store, and the start of
//! an iteration, for each kind of key and of value.

use super::{settles, truth_of, violation, Interp, Outcome};
use crate::common::Result;
use crate::convert::Int;
use crate::float::Float;
use crate::instr::{Instr, Reg};
use crate::lazy_str::Str;
use crate::machine::{at, execute, IterView};
use crate::maps::{IntMap, Iter, StrMap};
use vstd::prelude::*;

verus! {

impl<'a> Interp<'a> {
    /// Writes the value stored under the key, or the zero of the value type where the map has no such key.
    pub(super) fn lookup_int_int(&mut self, d: &Reg<Int>, map: &Reg<IntMap<Int>>, k: &Reg<Int>) -> (r:
        Result<Outcome<'a>>)
        requires
            old(self).wf(),
            old(self).pc < usize::MAX,
        ensures
            final(self).wf(),
            settles(
                old(self)@,
                execute(old(self)@, Instr::LookupIntInt(*d, *map, *k)),
                final(self)@,
                r,
            ),
    {
        if map.index() < self.maps_int_int.len() && k.index() < self.ints.len() {
            let value = match self.maps_int_int[map.index()].get(self.ints[k.index()]) {
                Some(v) => *v,
                None => 0,
            };
            self.settle_int(d, value)
        } else {
            violation("register out of range")
        }
    }

    /// Writes `1` if the map has the key, else `0`.
    pub(super) fn contains_int_int(&mut self, d: &Reg<Int>, map: &Reg<IntMap<Int>>, k: &Reg<Int>) -> (r:
        Result<Outcome<'a>>)
        requires
            old(self).wf(),
            old(self).pc < usize::MAX,
        ensures
            final(self).wf(),
            settles(
                old(self)@,
                execute(old(self)@, Instr::ContainsIntInt(*d, *map, *k)),
                final(self)@,
                r,
            ),
    {
        if map.index() < self.maps_int_int.len() && k.index() < self.ints.len() {
            let found = self.maps_int_int[map.index()].contains(self.ints[k.index()]);
            self.settle_int(d, truth_of(found))
        } else {
            violation("register out of range")
        }
    }

    /// Begins an iteration over the keys of the map.
    pub(super) fn iter_begin_int_int(&mut self, d: &Reg<Iter<Int>>, map: &Reg<IntMap<Int>>) -> (r: Result<
        Outcome<'a>,
    >)
        requires
            old(self).wf(),
            old(self).pc < usize::MAX,
        ensures
            final(self).wf(),
            settles(
                old(self)@,
                execute(old(self)@, Instr::IterBeginIntInt(*d, *map)),
                final(self)@,
                r,
            ),
    {
        if map.index() < self.maps_int_int.len() && d.index() < self.iters_int.len() {
            let it = self.maps_int_int[map.index()].iter();
            self.iters_int.set(d.index(), it);
            self.pc = self.pc + 1;
            proof {
                assert(self@.int_iters =~= old(self)@.int_iters.update(
                    at(*d),
                    IterView { position: 0, stamp: old(self)@.int_int[at(*map)].stamp },
                ));
            }
            Ok(Outcome::Continue)
        } else {
            violation("register out of range")
        }
    }

    /// Stores the value under the key.
    pub(super) fn store_int_int(&mut self, map: &Reg<IntMap<Int>>, k: &Reg<Int>, v: &Reg<Int>) -> (r:
        Result<Outcome<'a>>)
        requires
            old(self).wf(),
            old(self).pc < usize::MAX,
        ensures
            final(self).wf(),
            settles(
                old(self)@,
                execute(old(self)@, Instr::StoreIntInt(*map, *k, *v)),
                final(self)@,
                r,
            ),
    {
        if map.index() < self.maps_int_int.len() && k.index() < self.ints.len() && v.index()
            < self.ints.len() {
            let key = self.ints[k.index()];
            let value = self.ints[v.index()];
            let ghost before = old(self)@.int_int[at(*map)];
            self.maps_int_int[map.index()].insert(key, value);
            self.pc = self.pc + 1;
            proof {
                let after = self@.int_int[at(*map)];
                let expected = before.store(key, value);
                assert(after.entries =~= expected.entries);
                assert(after == expected);
                assert(self@.int_int =~= old(self)@.int_int.update(at(*map), expected));
            }
            Ok(Outcome::Continue)
        } else {
            violation("register out of range")
        }
    }

    /// Writes the value stored under the key, or the zero of the value type where the map has no such key.
    pub(super) fn lookup_int_str(&mut self, d: &Reg<Str<'a>>, map: &Reg<IntMap<Str<'a>>>, k: &Reg<Int>) -> (r:
        Result<Outcome<'a>>)
        requires
            old(self).wf(),
            old(self).pc < usize::MAX,
        ensures
            final(self).wf(),
            settles(
                old(self)@,
                execute(old(self)@, Instr::LookupIntStr(*d, *map, *k)),
                final(self)@,
                r,
            ),
    {
        if map.index() < self.maps_int_str.len() && k.index() < self.ints.len() {
            let value = match self.maps_int_str[map.index()].get(self.ints[k.index()]) {
                Some(v) => v.clone(),
                None => Str::empty(),
            };
            proof {
                let held = old(self)@.int_str[at(*map)];
                assert(value.text() == held.lookup(self.ints@[at(*k)], Seq::<char>::empty()));
            }
            self.settle_str(d, value)
        } else {
            violation("register out of range")
        }
    }

    /// Writes `1` if the map has the key, else `0`.
    pub(super) fn contains_int_str(&mut self, d: &Reg<Int>, map: &Reg<IntMap<Str<'a>>>, k: &Reg<Int>) -> (r:
        Result<Outcome<'a>>)
        requires
            old(self).wf(),
            old(self).pc < usize::MAX,
        ensures
            final(self).wf(),
            settles(
                old(self)@,
                execute(old(self)@, Instr::ContainsIntStr(*d, *map, *k)),
                final(self)@,
                r,
            ),
    {
        if map.index() < self.maps_int_str.len() && k.index() < self.ints.len() {
            let found = self.maps_int_str[map.index()].contains(self.ints[k.index()]);
            self.settle_int(d, truth_of(found))
        } else {
            violation("register out of range")
        }
    }

    /// Begins an iteration over the keys of the map.
    pub(super) fn iter_begin_int_str(&mut self, d: &Reg<Iter<Int>>, map: &Reg<IntMap<Str<'a>>>) -> (r: Result<
        Outcome<'a>,
    >)
        requires
            old(self).wf(),
            old(self).pc < usize::MAX,
        ensures
            final(self).wf(),
            settles(
                old(self)@,
                execute(old(self)@, Instr::IterBeginIntStr(*d, *map)),
                final(self)@,
                r,
            ),
    {
        if map.index() < self.maps_int_str.len() && d.index() < self.iters_int.len() {
            let it = self.maps_int_str[map.index()].iter();
            self.iters_int.set(d.index(), it);
            self.pc = self.pc + 1;
            proof {
                assert(self@.int_iters =~= old(self)@.int_iters.update(
                    at(*d),
                    IterView { position: 0, stamp: old(self)@.int_str[at(*map)].stamp },
                ));
            }
            Ok(Outcome::Continue)
        } else {
            violation("register out of range")
        }
    }

    /// Stores the value under the key.
    pub(super) fn store_int_str(&mut self, map: &Reg<IntMap<Str<'a>>>, k: &Reg<Int>, v: &Reg<Str<'a>>) -> (r:
        Result<Outcome<'a>>)
        requires
            old(self).wf(),
            old(self).pc < usize::MAX,
        ensures
            final(self).wf(),
            settles(
                old(self)@,
                execute(old(self)@, Instr::StoreIntStr(*map, *k, *v)),
                final(self)@,
                r,
            ),
    {
        if map.index() < self.maps_int_str.len() && k.index() < self.ints.len() && v.index()
            < self.strs.len() {
            let key = self.ints[k.index()];
            let value = self.strs[v.index()].clone();
            let ghost before = old(self)@.int_str[at(*map)];
            self.maps_int_str[map.index()].insert(key, value);
            self.pc = self.pc + 1;
            proof {
                let after = self@.int_str[at(*map)];
                let expected = before.store(key, value.text());
                assert(after.entries =~= expected.entries);
                assert(after == expected);
                assert(self@.int_str =~= old(self)@.int_str.update(at(*map), expected));
            }
            Ok(Outcome::Continue)
        } else {
            violation("register out of range")
        }
    }

    /// Writes the value stored under the key, or the zero of the value type where the map has no such key.
    pub(super) fn lookup_int_float(&mut self, d: &Reg<Float>, map: &Reg<IntMap<Float>>, k: &Reg<Int>) -> (r:
        Result<Outcome<'a>>)
        requires
            old(self).wf(),
            old(self).pc < usize::MAX,
        ensures
            final(self).wf(),
            settles(
                old(self)@,
                execute(old(self)@, Instr::LookupIntFloat(*d, *map, *k)),
                final(self)@,
                r,
            ),
    {
        if map.index() < self.maps_int_float.len() && k.index() < self.ints.len() {
            let value = match self.maps_int_float[map.index()].get(self.ints[k.index()]) {
                Some(v) => *v,
                None => Float::zero(),
            };
            self.settle_float(d, value)
        } else {
            violation("register out of range")
        }
    }

    /// Writes `1` if the map has the key, else `0`.
    pub(super) fn contains_int_float(&mut self, d: &Reg<Int>, map: &Reg<IntMap<Float>>, k: &Reg<Int>) -> (r:
        Result<Outcome<'a>>)
        requires
            old(self).wf(),
            old(self).pc < usize::MAX,
        ensures
            final(self).wf(),
            settles(
                old(self)@,
                execute(old(self)@, Instr::ContainsIntFloat(*d, *map, *k)),
                final(self)@,
                r,
            ),
    {
        if map.index() < self.maps_int_float.len() && k.index() < self.ints.len() {
            let found = self.maps_int_float[map.index()].contains(self.ints[k.index()]);
            self.settle_int(d, truth_of(found))
        } else {
            violation("register out of range")
        }
    }

    /// Begins an iteration over the keys of the map.
    pub(super) fn iter_begin_int_float(&mut self, d: &Reg<Iter<Int>>, map: &Reg<IntMap<Float>>) -> (r: Result<
        Outcome<'a>,
    >)
        requires
            old(self).wf(),
            old(self).pc < usize::MAX,
        ensures
            final(self).wf(),
            settles(
                old(self)@,
                execute(old(self)@, Instr::IterBeginIntFloat(*d, *map)),
                final(self)@,
                r,
            ),
    {
        if map.index() < self.maps_int_float.len() && d.index() < self.iters_int.len() {
            let it = self.maps_int_float[map.index()].iter();
            self.iters_int.set(d.index(), it);
            self.pc = self.pc + 1;
            proof {
                assert(self@.int_iters =~= old(self)@.int_iters.update(
                    at(*d),
                    IterView { position: 0, stamp: old(self)@.int_float[at(*map)].stamp },
                ));
            }
            Ok(Outcome::Continue)
        } else {
            violation("register out of range")
        }
    }

    /// Stores the value under the key.
    pub(super) fn store_int_float(&mut self, map: &Reg<IntMap<Float>>, k: &Reg<Int>, v: &Reg<Float>) -> (r:
        Result<Outcome<'a>>)
        requires
            old(self).wf(),
            old(self).pc < usize::MAX,
        ensures
            final(self).wf(),
            settles(
                old(self)@,
                execute(old(self)@, Instr::StoreIntFloat(*map, *k, *v)),
                final(self)@,
                r,
            ),
    {
        if map.index() < self.maps_int_float.len() && k.index() < self.ints.len() && v.index()
            < self.floats.len() {
            let key = self.ints[k.index()];
            let value = self.floats[v.index()];
            let ghost before = old(self)@.int_float[at(*map)];
            self.maps_int_float[map.index()].insert(key, value);
            self.pc = self.pc + 1;
            proof {
                let after = self@.int_float[at(*map)];
                let expected = before.store(key, value);
                assert(after.entries =~= expected.entries);
                assert(after == expected);
                assert(self@.int_float =~= old(self)@.int_float.update(at(*map), expected));
            }
            Ok(Outcome::Continue)
        } else {
            violation("register out of range")
        }
    }

    /// Writes the value stored under the key, or the zero of the value type where the map has no such key.
    pub(super) fn lookup_str_int(&mut self, d: &Reg<Int>, map: &Reg<StrMap<'a, Int>>, k: &Reg<Str<'a>>) -> (r:
        Result<Outcome<'a>>)
        requires
            old(self).wf(),
            old(self).pc < usize::MAX,
        ensures
            final(self).wf(),
            settles(
                old(self)@,
                execute(old(self)@, Instr::LookupStrInt(*d, *map, *k)),
                final(self)@,
                r,
            ),
    {
        if map.index() < self.maps_str_int.len() && k.index() < self.strs.len() {
            let value = match self.maps_str_int[map.index()].get(&self.strs[k.index()]) {
                Some(v) => *v,
                None => 0,
            };
            self.settle_int(d, value)
        } else {
            violation("register out of range")
        }
    }

    /// Writes `1` if the map has the key, else `0`.
    pub(super) fn contains_str_int(&mut self, d: &Reg<Int>, map: &Reg<StrMap<'a, Int>>, k: &Reg<Str<'a>>) -> (r:
        Result<Outcome<'a>>)
        requires
            old(self).wf(),
            old(self).pc < usize::MAX,
        ensures
            final(self).wf(),
            settles(
                old(self)@,
                execute(old(self)@, Instr::ContainsStrInt(*d, *map, *k)),
                final(self)@,
                r,
            ),
    {
        if map.index() < self.maps_str_int.len() && k.index() < self.strs.len() {
            let found = self.maps_str_int[map.index()].contains(&self.strs[k.index()]);
            self.settle_int(d, truth_of(found))
        } else {
            violation("register out of range")
        }
    }

    /// Begins an iteration over the keys of the map.
    pub(super) fn iter_begin_str_int(&mut self, d: &Reg<Iter<Str<'a>>>, map: &Reg<StrMap<'a, Int>>) -> (r: Result<
        Outcome<'a>,
    >)
        requires
            old(self).wf(),
            old(self).pc < usize::MAX,
        ensures
            final(self).wf(),
            settles(
                old(self)@,
                execute(old(self)@, Instr::IterBeginStrInt(*d, *map)),
                final(self)@,
                r,
            ),
    {
        if map.index() < self.maps_str_int.len() && d.index() < self.iters_str.len() {
            let it = self.maps_str_int[map.index()].iter();
            self.iters_str.set(d.index(), it);
            self.pc = self.pc + 1;
            proof {
                assert(self@.str_iters =~= old(self)@.str_iters.update(
                    at(*d),
                    IterView { position: 0, stamp: old(self)@.str_int[at(*map)].stamp },
                ));
            }
            Ok(Outcome::Continue)
        } else {
            violation("register out of range")
        }
    }

    /// Stores the value under the key.
    pub(super) fn store_str_int(&mut self, map: &Reg<StrMap<'a, Int>>, k: &Reg<Str<'a>>, v: &Reg<Int>) -> (r:
        Result<Outcome<'a>>)
        requires
            old(self).wf(),
            old(self).pc < usize::MAX,
        ensures
            final(self).wf(),
            settles(
                old(self)@,
                execute(old(self)@, Instr::StoreStrInt(*map, *k, *v)),
                final(self)@,
                r,
            ),
    {
        if map.index() < self.maps_str_int.len() && k.index() < self.strs.len() && v.index()
            < self.ints.len() {
            let key = self.strs[k.index()].clone();
            let value = self.ints[v.index()];
            let ghost before = old(self)@.str_int[at(*map)];
            self.maps_str_int[map.index()].insert(&key, value);
            self.pc = self.pc + 1;
            proof {
                let after = self@.str_int[at(*map)];
                let expected = before.store(key@, value);
                assert(after.entries =~= expected.entries);
                assert(after == expected);
                assert(self@.str_int =~= old(self)@.str_int.update(at(*map), expected));
            }
            Ok(Outcome::Continue)
        } else {
            violation("register out of range")
        }
    }

    /// Writes the value stored under the key, or the zero of the value type where the map has no such key.
    pub(super) fn lookup_str_str(&mut self, d: &Reg<Str<'a>>, map: &Reg<StrMap<'a, Str<'a>>>, k: &Reg<Str<'a>>) -> (r:
        Result<Outcome<'a>>)
        requires
            old(self).wf(),
            old(self).pc < usize::MAX,
        ensures
            final(self).wf(),
            settles(
                old(self)@,
                execute(old(self)@, Instr::LookupStrStr(*d, *map, *k)),
                final(self)@,
                r,
            ),
    {
        if map.index() < self.maps_str_str.len() && k.index() < self.strs.len() {
            let value = match self.maps_str_str[map.index()].get(&self.strs[k.index()]) {
                Some(v) => v.clone(),
                None => Str::empty(),
            };
            proof {
                let held = old(self)@.str_str[at(*map)];
                assert(value.text() == held.lookup(self.strs@[at(*k)]@, Seq::<char>::empty()));
            }
            self.settle_str(d, value)
        } else {
            violation("register out of range")
        }
    }

    /// Writes `1` if the map has the key, else `0`.
    pub(super) fn contains_str_str(&mut self, d: &Reg<Int>, map: &Reg<StrMap<'a, Str<'a>>>, k: &Reg<Str<'a>>) -> (r:
        Result<Outcome<'a>>)
        requires
            old(self).wf(),
            old(self).pc < usize::MAX,
        ensures
            final(self).wf(),
            settles(
                old(self)@,
                execute(old(self)@, Instr::ContainsStrStr(*d, *map, *k)),
                final(self)@,
                r,
            ),
    {
        if map.index() < self.maps_str_str.len() && k.index() < self.strs.len() {
            let found = self.maps_str_str[map.index()].contains(&self.strs[k.index()]);
            self.settle_int(d, truth_of(found))
        } else {
            violation("register out of range")
        }
    }

    /// Begins an iteration over the keys of the map.
    pub(super) fn iter_begin_str_str(&mut self, d: &Reg<Iter<Str<'a>>>, map: &Reg<StrMap<'a, Str<'a>>>) -> (r: Result<
        Outcome<'a>,
    >)
        requires
            old(self).wf(),
            old(self).pc < usize::MAX,
        ensures
            final(self).wf(),
            settles(
                old(self)@,
                execute(old(self)@, Instr::IterBeginStrStr(*d, *map)),
                final(self)@,
                r,
            ),
    {
        if map.index() < self.maps_str_str.len() && d.index() < self.iters_str.len() {
            let it = self.maps_str_str[map.index()].iter();
            self.iters_str.set(d.index(), it);
            self.pc = self.pc + 1;
            proof {
                assert(self@.str_iters =~= old(self)@.str_iters.update(
                    at(*d),
                    IterView { position: 0, stamp: old(self)@.str_str[at(*map)].stamp },
                ));
            }
            Ok(Outcome::Continue)
        } else {
            violation("register out of range")
        }
    }

    /// Stores the value under the key.
    pub(super) fn store_str_str(&mut self, map: &Reg<StrMap<'a, Str<'a>>>, k: &Reg<Str<'a>>, v: &Reg<Str<'a>>) -> (r:
        Result<Outcome<'a>>)
        requires
            old(self).wf(),
            old(self).pc < usize::MAX,
        ensures
            final(self).wf(),
            settles(
                old(self)@,
                execute(old(self)@, Instr::StoreStrStr(*map, *k, *v)),
                final(self)@,
                r,
            ),
    {
        if map.index() < self.maps_str_str.len() && k.index() < self.strs.len() && v.index()
            < self.strs.len() {
            let key = self.strs[k.index()].clone();
            let value = self.strs[v.index()].clone();
            let ghost before = old(self)@.str_str[at(*map)];
            self.maps_str_str[map.index()].insert(&key, value);
            self.pc = self.pc + 1;
            proof {
                let after = self@.str_str[at(*map)];
                let expected = before.store(key@, value.text());
                assert(after.entries =~= expected.entries);
                assert(after == expected);
                assert(self@.str_str =~= old(self)@.str_str.update(at(*map), expected));
            }
            Ok(Outcome::Continue)
        } else {
            violation("register out of range")
        }
    }

    /// Writes the value stored under the key, or the zero of the value type where the map has no such key.
    pub(super) fn lookup_str_float(&mut self, d: &Reg<Float>, map: &Reg<StrMap<'a, Float>>, k: &Reg<Str<'a>>) -> (r:
        Result<Outcome<'a>>)
        requires
            old(self).wf(),
            old(self).pc < usize::MAX,
        ensures
            final(self).wf(),
            settles(
                old(self)@,
                execute(old(self)@, Instr::LookupStrFloat(*d, *map, *k)),
                final(self)@,
                r,
            ),
    {
        if map.index() < self.maps_str_float.len() && k.index() < self.strs.len() {
            let value = match self.maps_str_float[map.index()].get(&self.strs[k.index()]) {
                Some(v) => *v,
                None => Float::zero(),
            };
            self.settle_float(d, value)
        } else {
            violation("register out of range")
        }
    }

    /// Writes `1` if the map has the key, else `0`.
    pub(super) fn contains_str_float(&mut self, d: &Reg<Int>, map: &Reg<StrMap<'a, Float>>, k: &Reg<Str<'a>>) -> (r:
        Result<Outcome<'a>>)
        requires
            old(self).wf(),
            old(self).pc < usize::MAX,
        ensures
            final(self).wf(),
            settles(
                old(self)@,
                execute(old(self)@, Instr::ContainsStrFloat(*d, *map, *k)),
                final(self)@,
                r,
            ),
    {
        if map.index() < self.maps_str_float.len() && k.index() < self.strs.len() {
            let found = self.maps_str_float[map.index()].contains(&self.strs[k.index()]);
            self.settle_int(d, truth_of(found))
        } else {
            violation("register out of range")
        }
    }

    /// Begins an iteration over the keys of the map.
    pub(super) fn iter_begin_str_float(&mut self, d: &Reg<Iter<Str<'a>>>, map: &Reg<StrMap<'a, Float>>) -> (r: Result<
        Outcome<'a>,
    >)
        requires
            old(self).wf(),
            old(self).pc < usize::MAX,
        ensures
            final(self).wf(),
            settles(
                old(self)@,
                execute(old(self)@, Instr::IterBeginStrFloat(*d, *map)),
                final(self)@,
                r,
            ),
    {
        if map.index() < self.maps_str_float.len() && d.index() < self.iters_str.len() {
            let it = self.maps_str_float[map.index()].iter();
            self.iters_str.set(d.index(), it);
            self.pc = self.pc + 1;
            proof {
                assert(self@.str_iters =~= old(self)@.str_iters.update(
                    at(*d),
                    IterView { position: 0, stamp: old(self)@.str_float[at(*map)].stamp },
                ));
            }
            Ok(Outcome::Continue)
        } else {
            violation("register out of range")
        }
    }

    /// Stores the value under the key.
    pub(super) fn store_str_float(&mut self, map: &Reg<StrMap<'a, Float>>, k: &Reg<Str<'a>>, v: &Reg<Float>) -> (r:
        Result<Outcome<'a>>)
        requires
            old(self).wf(),
            old(self).pc < usize::MAX,
        ensures
            final(self).wf(),
            settles(
                old(self)@,
                execute(old(self)@, Instr::StoreStrFloat(*map, *k, *v)),
                final(self)@,
                r,
            ),
    {
        if map.index() < self.maps_str_float.len() && k.index() < self.strs.len() && v.index()
            < self.floats.len() {
            let key = self.strs[k.index()].clone();
            let value = self.floats[v.index()];
            let ghost before = old(self)@.str_float[at(*map)];
            self.maps_str_float[map.index()].insert(&key, value);
            self.pc = self.pc + 1;
            proof {
                let after = self@.str_float[at(*map)];
                let expected = before.store(key@, value);
                assert(after.entries =~= expected.entries);
                assert(after == expected);
                assert(self@.str_float =~= old(self)@.str_float.update(at(*map), expected));
            }
            Ok(Outcome::Continue)
        } else {
            violation("register out of range")
        }
    }
}

} // verus!
