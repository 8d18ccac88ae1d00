//! Access to the register files from outside the interpreter.

use super::{int_map_view, int_str_map_view, iter_view, str_map_view, str_str_map_view, Interp};
use crate::convert::Int;
use crate::float::Float;
use crate::instr::Reg;
use crate::lazy_str::Str;
use crate::machine::{at, in_file, Machine};
use crate::maps::{IntMap, Iter, StrMap};
use vstd::prelude::*;

verus! {

/// Access to the registers that hold values of type `T`. The driver reads
/// results from registers and delivers the results of its work to them.
pub trait Get<T> {
    /// Whether `r` names a register of the file.
    spec fn has(&self, r: Reg<T>) -> bool;

    /// Whether `r` names a register of the file.
    fn in_range(&self, r: Reg<T>) -> (b: bool)
        ensures
            b == self.has(r),
    ;

    /// The value in the register `r`.
    fn get(&self, r: Reg<T>) -> (v: &T)
        requires
            self.has(r),
    ;

    /// The register `r`, to be written.
    fn get_mut(&mut self, r: Reg<T>) -> (v: &mut T)
        requires
            old(self).has(r),
    ;
}

impl<'a> Get<Int> for Interp<'a> {
    open spec fn has(&self, r: Reg<Int>) -> bool {
        in_file(r, self@.ints.len())
    }

    fn in_range(&self, r: Reg<Int>) -> (b: bool) {
        r.index() < self.ints.len()
    }

    fn get(&self, r: Reg<Int>) -> (v: &Int)
        ensures
            *v == self@.ints[at(r)],
    {
        &self.ints[r.index()]
    }

    fn get_mut(&mut self, r: Reg<Int>) -> (v: &mut Int)
        ensures
            *v == old(self)@.ints[at(r)],
            final(self)@ == (Machine {
                ints: old(self)@.ints.update(at(r), *final(v)),
                ..old(self)@
            }),
            old(self).wf() ==> final(self).wf(),
    {
        &mut self.ints[r.index()]
    }
}

impl<'a> Get<Str<'a>> for Interp<'a> {
    open spec fn has(&self, r: Reg<Str<'a>>) -> bool {
        in_file(r, self@.strs.len())
    }

    fn in_range(&self, r: Reg<Str<'a>>) -> (b: bool) {
        r.index() < self.strs.len()
    }

    fn get(&self, r: Reg<Str<'a>>) -> (v: &Str<'a>)
        ensures
            v.text() == self@.strs[at(r)],
    {
        &self.strs[r.index()]
    }

    fn get_mut(&mut self, r: Reg<Str<'a>>) -> (v: &mut Str<'a>)
        ensures
            v.text() == old(self)@.strs[at(r)],
            final(self)@ == (Machine {
                strs: old(self)@.strs.update(at(r), final(v).text()),
                ..old(self)@
            }),
            old(self).wf() ==> final(self).wf(),
    {
        &mut self.strs[r.index()]
    }
}

impl<'a> Get<IntMap<Int>> for Interp<'a> {
    open spec fn has(&self, r: Reg<IntMap<Int>>) -> bool {
        in_file(r, self@.int_int.len())
    }

    fn in_range(&self, r: Reg<IntMap<Int>>) -> (b: bool) {
        r.index() < self.maps_int_int.len()
    }

    fn get(&self, r: Reg<IntMap<Int>>) -> (v: &IntMap<Int>)
        ensures
            int_map_view(*v) == self@.int_int[at(r)],
            self.wf() ==> v.wf(),
    {
        &self.maps_int_int[r.index()]
    }

    fn get_mut(&mut self, r: Reg<IntMap<Int>>) -> (v: &mut IntMap<Int>)
        ensures
            int_map_view(*v) == old(self)@.int_int[at(r)],
            old(self).wf() ==> v.wf(),
            final(self)@ == (Machine {
                int_int: old(self)@.int_int.update(at(r), int_map_view(*final(v))),
                ..old(self)@
            }),
            old(self).wf() && final(v).wf() ==> final(self).wf(),
    {
        &mut self.maps_int_int[r.index()]
    }
}

impl<'a> Get<Float> for Interp<'a> {
    open spec fn has(&self, r: Reg<Float>) -> bool {
        in_file(r, self@.floats.len())
    }

    fn in_range(&self, r: Reg<Float>) -> (b: bool) {
        r.index() < self.floats.len()
    }

    fn get(&self, r: Reg<Float>) -> (v: &Float)
        ensures
            *v == self@.floats[at(r)],
    {
        &self.floats[r.index()]
    }

    fn get_mut(&mut self, r: Reg<Float>) -> (v: &mut Float)
        ensures
            *v == old(self)@.floats[at(r)],
            final(self)@ == (Machine {
                floats: old(self)@.floats.update(at(r), *final(v)),
                ..old(self)@
            }),
            old(self).wf() ==> final(self).wf(),
    {
        &mut self.floats[r.index()]
    }
}

impl<'a> Get<IntMap<Float>> for Interp<'a> {
    open spec fn has(&self, r: Reg<IntMap<Float>>) -> bool {
        in_file(r, self@.int_float.len())
    }

    fn in_range(&self, r: Reg<IntMap<Float>>) -> (b: bool) {
        r.index() < self.maps_int_float.len()
    }

    fn get(&self, r: Reg<IntMap<Float>>) -> (v: &IntMap<Float>)
        ensures
            int_map_view(*v) == self@.int_float[at(r)],
            self.wf() ==> v.wf(),
    {
        &self.maps_int_float[r.index()]
    }

    fn get_mut(&mut self, r: Reg<IntMap<Float>>) -> (v: &mut IntMap<Float>)
        ensures
            int_map_view(*v) == old(self)@.int_float[at(r)],
            old(self).wf() ==> v.wf(),
            final(self)@ == (Machine {
                int_float: old(self)@.int_float.update(at(r), int_map_view(*final(v))),
                ..old(self)@
            }),
            old(self).wf() && final(v).wf() ==> final(self).wf(),
    {
        &mut self.maps_int_float[r.index()]
    }
}

impl<'a> Get<IntMap<Str<'a>>> for Interp<'a> {
    open spec fn has(&self, r: Reg<IntMap<Str<'a>>>) -> bool {
        in_file(r, self@.int_str.len())
    }

    fn in_range(&self, r: Reg<IntMap<Str<'a>>>) -> (b: bool) {
        r.index() < self.maps_int_str.len()
    }

    fn get(&self, r: Reg<IntMap<Str<'a>>>) -> (v: &IntMap<Str<'a>>)
        ensures
            int_str_map_view(*v) == self@.int_str[at(r)],
            self.wf() ==> v.wf(),
    {
        &self.maps_int_str[r.index()]
    }

    fn get_mut(&mut self, r: Reg<IntMap<Str<'a>>>) -> (v: &mut IntMap<Str<'a>>)
        ensures
            int_str_map_view(*v) == old(self)@.int_str[at(r)],
            old(self).wf() ==> v.wf(),
            final(self)@ == (Machine {
                int_str: old(self)@.int_str.update(at(r), int_str_map_view(*final(v))),
                ..old(self)@
            }),
            old(self).wf() && final(v).wf() ==> final(self).wf(),
    {
        &mut self.maps_int_str[r.index()]
    }
}

impl<'a> Get<StrMap<'a, Int>> for Interp<'a> {
    open spec fn has(&self, r: Reg<StrMap<'a, Int>>) -> bool {
        in_file(r, self@.str_int.len())
    }

    fn in_range(&self, r: Reg<StrMap<'a, Int>>) -> (b: bool) {
        r.index() < self.maps_str_int.len()
    }

    fn get(&self, r: Reg<StrMap<'a, Int>>) -> (v: &StrMap<'a, Int>)
        ensures
            str_map_view(*v) == self@.str_int[at(r)],
            self.wf() ==> v.wf(),
    {
        &self.maps_str_int[r.index()]
    }

    fn get_mut(&mut self, r: Reg<StrMap<'a, Int>>) -> (v: &mut StrMap<'a, Int>)
        ensures
            str_map_view(*v) == old(self)@.str_int[at(r)],
            old(self).wf() ==> v.wf(),
            final(self)@ == (Machine {
                str_int: old(self)@.str_int.update(at(r), str_map_view(*final(v))),
                ..old(self)@
            }),
            old(self).wf() && final(v).wf() ==> final(self).wf(),
    {
        &mut self.maps_str_int[r.index()]
    }
}

impl<'a> Get<StrMap<'a, Float>> for Interp<'a> {
    open spec fn has(&self, r: Reg<StrMap<'a, Float>>) -> bool {
        in_file(r, self@.str_float.len())
    }

    fn in_range(&self, r: Reg<StrMap<'a, Float>>) -> (b: bool) {
        r.index() < self.maps_str_float.len()
    }

    fn get(&self, r: Reg<StrMap<'a, Float>>) -> (v: &StrMap<'a, Float>)
        ensures
            str_map_view(*v) == self@.str_float[at(r)],
            self.wf() ==> v.wf(),
    {
        &self.maps_str_float[r.index()]
    }

    fn get_mut(&mut self, r: Reg<StrMap<'a, Float>>) -> (v: &mut StrMap<'a, Float>)
        ensures
            str_map_view(*v) == old(self)@.str_float[at(r)],
            old(self).wf() ==> v.wf(),
            final(self)@ == (Machine {
                str_float: old(self)@.str_float.update(at(r), str_map_view(*final(v))),
                ..old(self)@
            }),
            old(self).wf() && final(v).wf() ==> final(self).wf(),
    {
        &mut self.maps_str_float[r.index()]
    }
}

impl<'a> Get<StrMap<'a, Str<'a>>> for Interp<'a> {
    open spec fn has(&self, r: Reg<StrMap<'a, Str<'a>>>) -> bool {
        in_file(r, self@.str_str.len())
    }

    fn in_range(&self, r: Reg<StrMap<'a, Str<'a>>>) -> (b: bool) {
        r.index() < self.maps_str_str.len()
    }

    fn get(&self, r: Reg<StrMap<'a, Str<'a>>>) -> (v: &StrMap<'a, Str<'a>>)
        ensures
            str_str_map_view(*v) == self@.str_str[at(r)],
            self.wf() ==> v.wf(),
    {
        &self.maps_str_str[r.index()]
    }

    fn get_mut(&mut self, r: Reg<StrMap<'a, Str<'a>>>) -> (v: &mut StrMap<'a, Str<'a>>)
        ensures
            str_str_map_view(*v) == old(self)@.str_str[at(r)],
            old(self).wf() ==> v.wf(),
            final(self)@ == (Machine {
                str_str: old(self)@.str_str.update(at(r), str_str_map_view(*final(v))),
                ..old(self)@
            }),
            old(self).wf() && final(v).wf() ==> final(self).wf(),
    {
        &mut self.maps_str_str[r.index()]
    }
}

impl<'a> Get<Iter<Int>> for Interp<'a> {
    open spec fn has(&self, r: Reg<Iter<Int>>) -> bool {
        in_file(r, self@.int_iters.len())
    }

    fn in_range(&self, r: Reg<Iter<Int>>) -> (b: bool) {
        r.index() < self.iters_int.len()
    }

    fn get(&self, r: Reg<Iter<Int>>) -> (v: &Iter<Int>)
        ensures
            iter_view(*v) == self@.int_iters[at(r)],
    {
        &self.iters_int[r.index()]
    }

    fn get_mut(&mut self, r: Reg<Iter<Int>>) -> (v: &mut Iter<Int>)
        ensures
            iter_view(*v) == old(self)@.int_iters[at(r)],
            final(self)@ == (Machine {
                int_iters: old(self)@.int_iters.update(at(r), iter_view(*final(v))),
                ..old(self)@
            }),
            old(self).wf() ==> final(self).wf(),
    {
        &mut self.iters_int[r.index()]
    }
}

impl<'a> Get<Iter<Float>> for Interp<'a> {
    open spec fn has(&self, r: Reg<Iter<Float>>) -> bool {
        in_file(r, self@.float_iters.len())
    }

    fn in_range(&self, r: Reg<Iter<Float>>) -> (b: bool) {
        r.index() < self.iters_float.len()
    }

    fn get(&self, r: Reg<Iter<Float>>) -> (v: &Iter<Float>)
        ensures
            iter_view(*v) == self@.float_iters[at(r)],
    {
        &self.iters_float[r.index()]
    }

    fn get_mut(&mut self, r: Reg<Iter<Float>>) -> (v: &mut Iter<Float>)
        ensures
            iter_view(*v) == old(self)@.float_iters[at(r)],
            final(self)@ == (Machine {
                float_iters: old(self)@.float_iters.update(at(r), iter_view(*final(v))),
                ..old(self)@
            }),
            old(self).wf() ==> final(self).wf(),
    {
        &mut self.iters_float[r.index()]
    }
}

impl<'a> Get<Iter<Str<'a>>> for Interp<'a> {
    open spec fn has(&self, r: Reg<Iter<Str<'a>>>) -> bool {
        in_file(r, self@.str_iters.len())
    }

    fn in_range(&self, r: Reg<Iter<Str<'a>>>) -> (b: bool) {
        r.index() < self.iters_str.len()
    }

    fn get(&self, r: Reg<Iter<Str<'a>>>) -> (v: &Iter<Str<'a>>)
        ensures
            iter_view(*v) == self@.str_iters[at(r)],
    {
        &self.iters_str[r.index()]
    }

    fn get_mut(&mut self, r: Reg<Iter<Str<'a>>>) -> (v: &mut Iter<Str<'a>>)
        ensures
            iter_view(*v) == old(self)@.str_iters[at(r)],
            final(self)@ == (Machine {
                str_iters: old(self)@.str_iters.update(at(r), iter_view(*final(v))),
                ..old(self)@
            }),
            old(self).wf() ==> final(self).wf(),
    {
        &mut self.iters_str[r.index()]
    }
}

} // verus!
