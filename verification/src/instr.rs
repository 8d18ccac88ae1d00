//! The instruction set: typed registers, labels and instructions.
//!
//! Every instruction names the type of each operand in its opcode, so that
//! executing one never inspects a value to learn its type. The destination
//! comes first, the sources follow.

use crate::convert::Int;
use crate::float::Float;
use crate::lazy_str::Str;
use crate::maps::{IntMap, Iter, StrMap};
use std::marker::PhantomData;
use vstd::prelude::*;

verus! {

/// An index into the instruction sequence.
#[derive(Clone, Copy, Debug)]
pub struct Label(pub u32);

/// An index into the register file of values of type `T`.
pub struct Reg<T>(u32, PhantomData<T>);

impl<T> Reg<T> {
    /// The place of the register in its file.
    pub closed spec fn spec_index(&self) -> nat {
        self.0 as nat
    }

    /// The register at place `i` of its file.
    pub fn new(i: u32) -> (r: Self)
        ensures
            r.spec_index() == i,
    {
        Reg(i, PhantomData)
    }

    /// The place of the register in its file.
    pub fn index(&self) -> (i: usize)
        ensures
            i == self.spec_index(),
    {
        self.0 as usize
    }
}

impl<T> Clone for Reg<T> {
    fn clone(&self) -> (r: Self)
        ensures
            r == *self,
    {
        Reg(self.0, PhantomData)
    }
}

impl<T> Copy for Reg<T> {

}

/// An instruction of the machine.
pub enum Instr<'a> {
    // Constants
    StoreConstStr(Reg<Str<'a>>, Str<'a>),
    StoreConstInt(Reg<Int>, Int),
    StoreConstFloat(Reg<Float>, Float),
    // Conversions
    IntToStr(Reg<Str<'a>>, Reg<Int>),
    FloatToStr(Reg<Str<'a>>, Reg<Float>),
    StrToInt(Reg<Int>, Reg<Str<'a>>),
    FloatToInt(Reg<Int>, Reg<Float>),
    IntToFloat(Reg<Float>, Reg<Int>),
    StrToFloat(Reg<Float>, Reg<Str<'a>>),
    // Arithmetic
    AddInt(Reg<Int>, Reg<Int>, Reg<Int>),
    AddFloat(Reg<Float>, Reg<Float>, Reg<Float>),
    MulFloat(Reg<Float>, Reg<Float>, Reg<Float>),
    MulInt(Reg<Int>, Reg<Int>, Reg<Int>),
    DivFloat(Reg<Float>, Reg<Float>, Reg<Float>),
    DivInt(Reg<Float>, Reg<Int>, Reg<Int>),
    MinusFloat(Reg<Float>, Reg<Float>, Reg<Float>),
    MinusInt(Reg<Int>, Reg<Int>, Reg<Int>),
    ModFloat(Reg<Float>, Reg<Float>, Reg<Float>),
    ModInt(Reg<Int>, Reg<Int>, Reg<Int>),
    Not(Reg<Int>, Reg<Int>),
    NegInt(Reg<Int>, Reg<Int>),
    NegFloat(Reg<Float>, Reg<Float>),
    // Strings
    Concat(Reg<Str<'a>>, Reg<Str<'a>>, Reg<Str<'a>>),
    Match(Reg<Int>, Reg<Str<'a>>, Reg<Str<'a>>),
    // Comparison
    LTFloat(Reg<Int>, Reg<Float>, Reg<Float>),
    LTInt(Reg<Int>, Reg<Int>, Reg<Int>),
    LTStr(Reg<Int>, Reg<Str<'a>>, Reg<Str<'a>>),
    GTFloat(Reg<Int>, Reg<Float>, Reg<Float>),
    GTInt(Reg<Int>, Reg<Int>, Reg<Int>),
    GTStr(Reg<Int>, Reg<Str<'a>>, Reg<Str<'a>>),
    LTEFloat(Reg<Int>, Reg<Float>, Reg<Float>),
    LTEInt(Reg<Int>, Reg<Int>, Reg<Int>),
    LTEStr(Reg<Int>, Reg<Str<'a>>, Reg<Str<'a>>),
    GTEFloat(Reg<Int>, Reg<Float>, Reg<Float>),
    GTEInt(Reg<Int>, Reg<Int>, Reg<Int>),
    GTEStr(Reg<Int>, Reg<Str<'a>>, Reg<Str<'a>>),
    EQFloat(Reg<Int>, Reg<Float>, Reg<Float>),
    EQInt(Reg<Int>, Reg<Int>, Reg<Int>),
    EQStr(Reg<Int>, Reg<Str<'a>>, Reg<Str<'a>>),
    // Columns: the register of the column number, and the string
    SetColumn(Reg<Int>, Reg<Str<'a>>),
    GetColumn(Reg<Str<'a>>, Reg<Int>),
    // Split: the count, the text, the map that takes the pieces, the separator
    SplitInt(Reg<Int>, Reg<Str<'a>>, Reg<IntMap<Str<'a>>>, Reg<Str<'a>>),
    SplitStr(Reg<Int>, Reg<Str<'a>>, Reg<StrMap<'a, Str<'a>>>, Reg<Str<'a>>),
    // Maps: the destination, the map, the key
    LookupIntInt(Reg<Int>, Reg<IntMap<Int>>, Reg<Int>),
    LookupIntStr(Reg<Str<'a>>, Reg<IntMap<Str<'a>>>, Reg<Int>),
    LookupIntFloat(Reg<Float>, Reg<IntMap<Float>>, Reg<Int>),
    LookupStrInt(Reg<Int>, Reg<StrMap<'a, Int>>, Reg<Str<'a>>),
    LookupStrStr(Reg<Str<'a>>, Reg<StrMap<'a, Str<'a>>>, Reg<Str<'a>>),
    LookupStrFloat(Reg<Float>, Reg<StrMap<'a, Float>>, Reg<Str<'a>>),
    ContainsIntInt(Reg<Int>, Reg<IntMap<Int>>, Reg<Int>),
    ContainsIntStr(Reg<Int>, Reg<IntMap<Str<'a>>>, Reg<Int>),
    ContainsIntFloat(Reg<Int>, Reg<IntMap<Float>>, Reg<Int>),
    ContainsStrInt(Reg<Int>, Reg<StrMap<'a, Int>>, Reg<Str<'a>>),
    ContainsStrStr(Reg<Int>, Reg<StrMap<'a, Str<'a>>>, Reg<Str<'a>>),
    ContainsStrFloat(Reg<Int>, Reg<StrMap<'a, Float>>, Reg<Str<'a>>),
    IterBeginIntInt(Reg<Iter<Int>>, Reg<IntMap<Int>>),
    IterBeginIntStr(Reg<Iter<Int>>, Reg<IntMap<Str<'a>>>),
    IterBeginIntFloat(Reg<Iter<Int>>, Reg<IntMap<Float>>),
    IterBeginStrInt(Reg<Iter<Str<'a>>>, Reg<StrMap<'a, Int>>),
    IterBeginStrStr(Reg<Iter<Str<'a>>>, Reg<StrMap<'a, Str<'a>>>),
    IterBeginStrFloat(Reg<Iter<Str<'a>>>, Reg<StrMap<'a, Float>>),
    // Stores: the map, the key, the value
    StoreIntInt(Reg<IntMap<Int>>, Reg<Int>, Reg<Int>),
    StoreIntStr(Reg<IntMap<Str<'a>>>, Reg<Int>, Reg<Str<'a>>),
    StoreIntFloat(Reg<IntMap<Float>>, Reg<Int>, Reg<Float>),
    StoreStrInt(Reg<StrMap<'a, Int>>, Reg<Str<'a>>, Reg<Int>),
    StoreStrStr(Reg<StrMap<'a, Str<'a>>>, Reg<Str<'a>>, Reg<Str<'a>>),
    StoreStrFloat(Reg<StrMap<'a, Float>>, Reg<Str<'a>>, Reg<Float>),
    // Output
    Print(Reg<Str<'a>>),
    // Control
    JmpIf(Reg<Int>, Label),
    Jmp(Label),
    Halt,
}

} // verus!
