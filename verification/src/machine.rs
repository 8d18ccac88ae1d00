//! The abstract machine: what the registers, maps and record of an
//! interpreter hold, and what each instruction does to them.
//!
//! Strings appear here as their text, maps as what they store, so that the
//! meaning of a program does not depend on how the interpreter represents
//! either.

use crate::common::ErrorKind;
use crate::convert::{decimal_bytes, decimal_text, Int};
use crate::fields::{join_spec, split_spec};
use crate::float::Float;
use crate::instr::{Instr, Label, Reg};
use crate::lazy_str::{lex_less, Str};
use crate::maps::{next_stamp, IntMap, StrMap, LAST_STAMP};
use crate::regex_cache::{pattern_compiles, pattern_matches};
use crate::strton::parse_int;
use vstd::prelude::*;
use vstd::utf8::*;

verus! {

/// What a map stores, the order of its keys, and its stamp.
#[verifier::ext_equal]
#[verifier::reject_recursive_types(K)]
pub struct MapView<K, V> {
    pub entries: Map<K, V>,
    pub order: Seq<K>,
    pub stamp: u64,
}

impl<K, V> MapView<K, V> {
    /// The map after `v` is stored under `k`.
    pub open spec fn store(self, k: K, v: V) -> Self {
        MapView {
            entries: self.entries.insert(k, v),
            order: if self.entries.contains_key(k) {
                self.order
            } else {
                self.order.push(k)
            },
            stamp: next_stamp(self.stamp),
        }
    }

    /// The value under `k`, or `zero` where the map has none.
    pub open spec fn lookup(self, k: K, zero: V) -> V {
        if self.entries.contains_key(k) {
            self.entries[k]
        } else {
            zero
        }
    }
}

/// Where an iterator stands: how many keys it has handed out, and the stamp
/// of its map when it began.
pub struct IterView {
    pub position: nat,
    pub stamp: u64,
}

/// The largest column number that can be written.
pub const MAX_COLUMN: i64 = 0xffff_ffff;

/// The five operations on floating-point pairs that the driver performs.
#[derive(Clone, Copy, Debug, PartialEq, Eq, Structural)]
pub enum FloatOp {
    Add,
    Sub,
    Mul,
    Div,
    Mod,
}

/// The five comparisons.
#[derive(Clone, Copy, Debug, PartialEq, Eq, Structural)]
pub enum CmpOp {
    Lt,
    Gt,
    Lte,
    Gte,
    Eq,
}

/// The operations on integer pairs.
#[derive(Clone, Copy, Debug, PartialEq, Eq, Structural)]
pub enum IntOp {
    Add,
    Sub,
    Mul,
    Mod,
    Compare(CmpOp),
}

/// Work that an instruction leaves to the driver, with the place of the
/// register that takes the result.
pub enum WorkView {
    Arith(nat, FloatOp, Float, Float),
    DivInt(nat, Int, Int),
    Compare(nat, CmpOp, Float, Float),
    IntToFloat(nat, Int),
    FloatToInt(nat, Float),
    FloatToStr(nat, Float),
    StrToFloat(nat, Seq<char>),
    Print(Seq<char>),
}

/// The state of the machine.
#[verifier::ext_equal]
pub struct Machine {
    pub ints: Seq<Int>,
    pub floats: Seq<Float>,
    pub strs: Seq<Seq<char>>,
    pub int_int: Seq<MapView<Int, Int>>,
    pub int_float: Seq<MapView<Int, Float>>,
    pub int_str: Seq<MapView<Int, Seq<char>>>,
    pub str_int: Seq<MapView<Seq<u8>, Int>>,
    pub str_float: Seq<MapView<Seq<u8>, Float>>,
    pub str_str: Seq<MapView<Seq<u8>, Seq<char>>>,
    pub int_iters: Seq<IterView>,
    pub float_iters: Seq<IterView>,
    pub str_iters: Seq<IterView>,
    pub line: Seq<char>,
    pub fields: Seq<Seq<char>>,
    pub sep: Seq<char>,
    pub pc: nat,
}

/// What one instruction does.
pub enum Effect {
    /// The machine goes on in the given state.
    Next(Machine),
    /// The program ends; the state stays.
    Halt,
    /// The machine goes on in the given state once the driver has done the
    /// work and delivered its result.
    Ask(Machine, WorkView),
    /// A fatal error; the state stays.
    Fail(ErrorKind),
}

/// `1` for true and `0` for false.
pub open spec fn truth(b: bool) -> Int {
    if b {
        1
    } else {
        0
    }
}

/// The outcome of a comparison, given whether the left side is less than
/// the right and whether the right is less than the left.
pub open spec fn compare(op: CmpOp, less: bool, greater: bool) -> bool {
    match op {
        CmpOp::Lt => less,
        CmpOp::Gt => greater,
        CmpOp::Lte => !greater,
        CmpOp::Gte => !less,
        CmpOp::Eq => !less && !greater,
    }
}

/// The 64-bit integer that `v` wraps to.
pub open spec fn wrap(v: int) -> Int {
    let m = v % 0x1_0000_0000_0000_0000;
    if m >= 0x8000_0000_0000_0000 {
        (m - 0x1_0000_0000_0000_0000) as Int
    } else {
        m as Int
    }
}

/// The remainder of `x` by a non-zero `y`, with the sign of `x`.
pub open spec fn remainder(x: int, y: int) -> int {
    let a = if x < 0 {
        -x
    } else {
        x
    };
    let b = if y < 0 {
        -y
    } else {
        y
    };
    if x < 0 {
        -(a % b)
    } else {
        a % b
    }
}

/// The result of an operation on two integers; `None` for a remainder by
/// zero. Sums, differences and products wrap.
pub open spec fn int_op(op: IntOp, x: Int, y: Int) -> Option<Int> {
    match op {
        IntOp::Add => Some(wrap(x + y)),
        IntOp::Sub => Some(wrap(x - y)),
        IntOp::Mul => Some(wrap(x * y)),
        IntOp::Mod => if y == 0 {
            None
        } else {
            Some(wrap(remainder(x as int, y as int)))
        },
        IntOp::Compare(c) => Some(truth(compare(c, x < y, y < x))),
    }
}

/// The fields after column `k` is set to `text`: the fields are padded with
/// empty ones up to `k` first.
pub open spec fn with_field(fields: Seq<Seq<char>>, k: int, text: Seq<char>) -> Seq<Seq<char>> {
    Seq::new(
        if k > fields.len() {
            k as nat
        } else {
            fields.len()
        },
        |i: int|
            if i == k - 1 {
                text
            } else if i < fields.len() {
                fields[i]
            } else {
                Seq::<char>::empty()
            },
    )
}

/// The map after the pieces are stored under the keys `1`, `2`, and so on.
pub open spec fn store_pieces_int(
    map: MapView<Int, Seq<char>>,
    pieces: Seq<Seq<char>>,
) -> MapView<Int, Seq<char>>
    decreases pieces.len(),
{
    if pieces.len() == 0 {
        map
    } else {
        store_pieces_int(map, pieces.drop_last()).store(pieces.len() as Int, pieces.last())
    }
}

/// The map after the pieces are stored under the keys `"1"`, `"2"`, and so
/// on.
pub open spec fn store_pieces_str(
    map: MapView<Seq<u8>, Seq<char>>,
    pieces: Seq<Seq<char>>,
) -> MapView<Seq<u8>, Seq<char>>
    decreases pieces.len(),
{
    if pieces.len() == 0 {
        map
    } else {
        store_pieces_str(map, pieces.drop_last()).store(
            decimal_bytes(pieces.len() as int),
            pieces.last(),
        )
    }
}

/// Whether the register `r` lies in a file of `len` registers.
pub open spec fn in_file<T>(r: Reg<T>, len: nat) -> bool {
    r.spec_index() < len
}

/// The place of the register `r` in its file.
pub open spec fn at<T>(r: Reg<T>) -> int {
    r.spec_index() as int
}

/// The outcome of a comparison of two strings by their bytes.
pub open spec fn str_compare(op: CmpOp, a: Seq<u8>, b: Seq<u8>) -> bool {
    match op {
        CmpOp::Eq => a == b,
        _ => compare(op, lex_less(a, b), lex_less(b, a)),
    }
}

impl Machine {
    /// The machine after the integer `v` is written to `d`.
    pub open spec fn put_int(self, d: Reg<Int>, v: Int) -> Effect {
        if in_file(d, self.ints.len()) {
            Effect::Next(Machine { ints: self.ints.update(at(d), v), pc: self.pc + 1, ..self })
        } else {
            Effect::Fail(ErrorKind::Invariant)
        }
    }

    /// The machine after the floating-point value `v` is written to `d`.
    pub open spec fn put_float(self, d: Reg<Float>, v: Float) -> Effect {
        if in_file(d, self.floats.len()) {
            Effect::Next(Machine { floats: self.floats.update(at(d), v), pc: self.pc + 1, ..self })
        } else {
            Effect::Fail(ErrorKind::Invariant)
        }
    }

    /// The machine after the text `v` is written to `d`.
    pub open spec fn put_str<'a>(self, d: Reg<Str<'a>>, v: Seq<char>) -> Effect {
        if in_file(d, self.strs.len()) {
            Effect::Next(Machine { strs: self.strs.update(at(d), v), pc: self.pc + 1, ..self })
        } else {
            Effect::Fail(ErrorKind::Invariant)
        }
    }

    /// The machine hands `w` to the driver and goes on.
    pub open spec fn ask(self, w: WorkView) -> Effect {
        Effect::Ask(Machine { pc: self.pc + 1, ..self }, w)
    }

    /// An operation on two integer registers. A register out of range is an
    /// invariant violation, whatever the values; a remainder by zero is an
    /// arithmetic error.
    pub open spec fn int_binary(self, d: Reg<Int>, a: Reg<Int>, b: Reg<Int>, op: IntOp) -> Effect {
        if in_file(a, self.ints.len()) && in_file(b, self.ints.len()) && in_file(
            d,
            self.ints.len(),
        ) {
            match int_op(op, self.ints[at(a)], self.ints[at(b)]) {
                Some(v) => self.put_int(d, v),
                None => Effect::Fail(ErrorKind::Arithmetic),
            }
        } else {
            Effect::Fail(ErrorKind::Invariant)
        }
    }

    /// An operation on two floating-point registers: work for the driver.
    pub open spec fn float_binary(
        self,
        d: Reg<Float>,
        a: Reg<Float>,
        b: Reg<Float>,
        op: FloatOp,
    ) -> Effect {
        if in_file(a, self.floats.len()) && in_file(b, self.floats.len()) && in_file(
            d,
            self.floats.len(),
        ) {
            self.ask(WorkView::Arith(d.spec_index(), op, self.floats[at(a)], self.floats[at(b)]))
        } else {
            Effect::Fail(ErrorKind::Invariant)
        }
    }

    /// A comparison of two floating-point registers: work for the driver.
    pub open spec fn float_compare(
        self,
        d: Reg<Int>,
        a: Reg<Float>,
        b: Reg<Float>,
        op: CmpOp,
    ) -> Effect {
        if in_file(a, self.floats.len()) && in_file(b, self.floats.len()) && in_file(
            d,
            self.ints.len(),
        ) {
            self.ask(WorkView::Compare(d.spec_index(), op, self.floats[at(a)], self.floats[at(b)]))
        } else {
            Effect::Fail(ErrorKind::Invariant)
        }
    }

    /// A comparison of two string registers by their bytes.
    pub open spec fn str_compare<'a>(
        self,
        d: Reg<Int>,
        a: Reg<Str<'a>>,
        b: Reg<Str<'a>>,
        op: CmpOp,
    ) -> Effect {
        if in_file(a, self.strs.len()) && in_file(b, self.strs.len()) {
            self.put_int(
                d,
                truth(
                    str_compare(op, encode_utf8(self.strs[at(a)]), encode_utf8(self.strs[at(b)])),
                ),
            )
        } else {
            Effect::Fail(ErrorKind::Invariant)
        }
    }

    /// The text of column `k`: the whole record for `0`, a field for a
    /// number up to the field count, and nothing for any other number.
    pub open spec fn column(self, k: Int) -> Seq<char> {
        if k == 0 {
            self.line
        } else if 1 <= k <= self.fields.len() {
            self.fields[k - 1]
        } else {
            Seq::empty()
        }
    }

    /// The machine after column `k` is set to `text`. Setting column `0`
    /// replaces the record, which is split anew; setting a field replaces or
    /// adds the field, and the record becomes the fields joined.
    pub open spec fn set_column(self, k: Int, text: Seq<char>) -> Effect {
        if k < 0 || k > MAX_COLUMN {
            Effect::Fail(ErrorKind::Invariant)
        } else if k == 0 {
            Effect::Next(
                Machine {
                    line: text,
                    fields: split_spec(text, self.sep),
                    pc: self.pc + 1,
                    ..self
                },
            )
        } else {
            let fields = with_field(self.fields, k as int, text);
            Effect::Next(
                Machine { line: join_spec(fields, self.sep), fields, pc: self.pc + 1, ..self },
            )
        }
    }

    /// The machine with the program counter at `target`.
    pub open spec fn jump(self, target: nat) -> Effect {
        Effect::Next(Machine { pc: target, ..self })
    }
}

/// What the instruction `i` does to the machine `m`.
pub open spec fn execute(m: Machine, i: Instr<'_>) -> Effect {
    match i {
        Instr::StoreConstStr(d, s) => m.put_str(d, s.text()),
        Instr::StoreConstInt(d, v) => m.put_int(d, v),
        Instr::StoreConstFloat(d, v) => m.put_float(d, v),
        Instr::IntToStr(d, s) => if in_file(s, m.ints.len()) {
            m.put_str(d, decimal_text(m.ints[at(s)] as int))
        } else {
            Effect::Fail(ErrorKind::Invariant)
        },
        Instr::FloatToStr(d, s) => if in_file(s, m.floats.len()) && in_file(d, m.strs.len()) {
            m.ask(WorkView::FloatToStr(d.spec_index(), m.floats[at(s)]))
        } else {
            Effect::Fail(ErrorKind::Invariant)
        },
        Instr::StrToInt(d, s) => if in_file(s, m.strs.len()) {
            m.put_int(d, parse_int(encode_utf8(m.strs[at(s)])))
        } else {
            Effect::Fail(ErrorKind::Invariant)
        },
        Instr::FloatToInt(d, s) => if in_file(s, m.floats.len()) && in_file(d, m.ints.len()) {
            m.ask(WorkView::FloatToInt(d.spec_index(), m.floats[at(s)]))
        } else {
            Effect::Fail(ErrorKind::Invariant)
        },
        Instr::IntToFloat(d, s) => if in_file(s, m.ints.len()) && in_file(d, m.floats.len()) {
            m.ask(WorkView::IntToFloat(d.spec_index(), m.ints[at(s)]))
        } else {
            Effect::Fail(ErrorKind::Invariant)
        },
        Instr::StrToFloat(d, s) => if in_file(s, m.strs.len()) && in_file(d, m.floats.len()) {
            m.ask(WorkView::StrToFloat(d.spec_index(), m.strs[at(s)]))
        } else {
            Effect::Fail(ErrorKind::Invariant)
        },
        Instr::AddInt(d, a, b) => m.int_binary(d, a, b, IntOp::Add),
        Instr::AddFloat(d, a, b) => m.float_binary(d, a, b, FloatOp::Add),
        Instr::MulFloat(d, a, b) => m.float_binary(d, a, b, FloatOp::Mul),
        Instr::MulInt(d, a, b) => m.int_binary(d, a, b, IntOp::Mul),
        Instr::DivFloat(d, a, b) => m.float_binary(d, a, b, FloatOp::Div),
        Instr::DivInt(d, a, b) => if in_file(a, m.ints.len()) && in_file(b, m.ints.len())
            && in_file(d, m.floats.len()) {
            if m.ints[at(b)] == 0 {
                Effect::Fail(ErrorKind::Arithmetic)
            } else {
                m.ask(WorkView::DivInt(d.spec_index(), m.ints[at(a)], m.ints[at(b)]))
            }
        } else {
            Effect::Fail(ErrorKind::Invariant)
        },
        Instr::MinusFloat(d, a, b) => m.float_binary(d, a, b, FloatOp::Sub),
        Instr::MinusInt(d, a, b) => m.int_binary(d, a, b, IntOp::Sub),
        Instr::ModFloat(d, a, b) => m.float_binary(d, a, b, FloatOp::Mod),
        Instr::ModInt(d, a, b) => m.int_binary(d, a, b, IntOp::Mod),
        Instr::Not(d, s) => if in_file(s, m.ints.len()) {
            m.put_int(d, truth(m.ints[at(s)] == 0))
        } else {
            Effect::Fail(ErrorKind::Invariant)
        },
        Instr::NegInt(d, s) => if in_file(s, m.ints.len()) {
            m.put_int(d, wrap(-m.ints[at(s)]))
        } else {
            Effect::Fail(ErrorKind::Invariant)
        },
        Instr::NegFloat(d, s) => if in_file(s, m.floats.len()) {
            m.put_float(d, m.floats[at(s)].spec_neg())
        } else {
            Effect::Fail(ErrorKind::Invariant)
        },
        Instr::Concat(d, a, b) => if in_file(a, m.strs.len()) && in_file(b, m.strs.len()) {
            m.put_str(d, m.strs[at(a)] + m.strs[at(b)])
        } else {
            Effect::Fail(ErrorKind::Invariant)
        },
        Instr::Match(d, subject, pattern) => if in_file(subject, m.strs.len()) && in_file(
            pattern,
            m.strs.len(),
        ) && in_file(d, m.ints.len()) {
            if pattern_compiles(m.strs[at(pattern)]) {
                m.put_int(d, truth(pattern_matches(m.strs[at(pattern)], m.strs[at(subject)])))
            } else {
                Effect::Fail(ErrorKind::Compile)
            }
        } else {
            Effect::Fail(ErrorKind::Invariant)
        },
        Instr::LTFloat(d, a, b) => m.float_compare(d, a, b, CmpOp::Lt),
        Instr::LTInt(d, a, b) => m.int_binary(d, a, b, IntOp::Compare(CmpOp::Lt)),
        Instr::LTStr(d, a, b) => m.str_compare(d, a, b, CmpOp::Lt),
        Instr::GTFloat(d, a, b) => m.float_compare(d, a, b, CmpOp::Gt),
        Instr::GTInt(d, a, b) => m.int_binary(d, a, b, IntOp::Compare(CmpOp::Gt)),
        Instr::GTStr(d, a, b) => m.str_compare(d, a, b, CmpOp::Gt),
        Instr::LTEFloat(d, a, b) => m.float_compare(d, a, b, CmpOp::Lte),
        Instr::LTEInt(d, a, b) => m.int_binary(d, a, b, IntOp::Compare(CmpOp::Lte)),
        Instr::LTEStr(d, a, b) => m.str_compare(d, a, b, CmpOp::Lte),
        Instr::GTEFloat(d, a, b) => m.float_compare(d, a, b, CmpOp::Gte),
        Instr::GTEInt(d, a, b) => m.int_binary(d, a, b, IntOp::Compare(CmpOp::Gte)),
        Instr::GTEStr(d, a, b) => m.str_compare(d, a, b, CmpOp::Gte),
        Instr::EQFloat(d, a, b) => m.float_compare(d, a, b, CmpOp::Eq),
        Instr::EQInt(d, a, b) => m.int_binary(d, a, b, IntOp::Compare(CmpOp::Eq)),
        Instr::EQStr(d, a, b) => m.str_compare(d, a, b, CmpOp::Eq),
        Instr::SetColumn(k, s) => if in_file(k, m.ints.len()) && in_file(s, m.strs.len()) {
            m.set_column(m.ints[at(k)], m.strs[at(s)])
        } else {
            Effect::Fail(ErrorKind::Invariant)
        },
        Instr::GetColumn(d, k) => if in_file(k, m.ints.len()) {
            m.put_str(d, m.column(m.ints[at(k)]))
        } else {
            Effect::Fail(ErrorKind::Invariant)
        },
        Instr::SplitInt(count, src, map, sep) => if in_file(count, m.ints.len()) && in_file(
            src,
            m.strs.len(),
        ) && in_file(map, m.int_str.len()) && in_file(sep, m.strs.len()) && split_spec(
            m.strs[at(src)],
            m.strs[at(sep)],
        ).len() <= i64::MAX {
            let pieces = split_spec(m.strs[at(src)], m.strs[at(sep)]);
            Effect::Next(
                Machine {
                    int_str: m.int_str.update(at(map), store_pieces_int(m.int_str[at(map)], pieces)),
                    ints: m.ints.update(at(count), pieces.len() as Int),
                    pc: m.pc + 1,
                    ..m
                },
            )
        } else {
            Effect::Fail(ErrorKind::Invariant)
        },
        Instr::SplitStr(count, src, map, sep) => if in_file(count, m.ints.len()) && in_file(
            src,
            m.strs.len(),
        ) && in_file(map, m.str_str.len()) && in_file(sep, m.strs.len()) && split_spec(
            m.strs[at(src)],
            m.strs[at(sep)],
        ).len() <= i64::MAX {
            let pieces = split_spec(m.strs[at(src)], m.strs[at(sep)]);
            Effect::Next(
                Machine {
                    str_str: m.str_str.update(at(map), store_pieces_str(m.str_str[at(map)], pieces)),
                    ints: m.ints.update(at(count), pieces.len() as Int),
                    pc: m.pc + 1,
                    ..m
                },
            )
        } else {
            Effect::Fail(ErrorKind::Invariant)
        },
        Instr::LookupIntInt(d, map, k) => if in_file(map, m.int_int.len()) && in_file(k, m.ints.len()) {
            m.put_int(d, m.int_int[at(map)].lookup(m.ints[at(k)], 0))
        } else {
            Effect::Fail(ErrorKind::Invariant)
        },
        Instr::LookupIntStr(d, map, k) => if in_file(map, m.int_str.len()) && in_file(k, m.ints.len()) {
            m.put_str(d, m.int_str[at(map)].lookup(m.ints[at(k)], Seq::<char>::empty()))
        } else {
            Effect::Fail(ErrorKind::Invariant)
        },
        Instr::LookupIntFloat(d, map, k) => if in_file(map, m.int_float.len()) && in_file(k, m.ints.len()) {
            m.put_float(d, m.int_float[at(map)].lookup(m.ints[at(k)], Float::spec_zero()))
        } else {
            Effect::Fail(ErrorKind::Invariant)
        },
        Instr::LookupStrInt(d, map, k) => if in_file(map, m.str_int.len()) && in_file(k, m.strs.len()) {
            m.put_int(d, m.str_int[at(map)].lookup(encode_utf8(m.strs[at(k)]), 0))
        } else {
            Effect::Fail(ErrorKind::Invariant)
        },
        Instr::LookupStrStr(d, map, k) => if in_file(map, m.str_str.len()) && in_file(k, m.strs.len()) {
            m.put_str(d, m.str_str[at(map)].lookup(encode_utf8(m.strs[at(k)]), Seq::<char>::empty()))
        } else {
            Effect::Fail(ErrorKind::Invariant)
        },
        Instr::LookupStrFloat(d, map, k) => if in_file(map, m.str_float.len()) && in_file(k, m.strs.len()) {
            m.put_float(d, m.str_float[at(map)].lookup(encode_utf8(m.strs[at(k)]), Float::spec_zero()))
        } else {
            Effect::Fail(ErrorKind::Invariant)
        },
        Instr::ContainsIntInt(d, map, k) => if in_file(map, m.int_int.len()) && in_file(k, m.ints.len()) {
            m.put_int(d, truth(m.int_int[at(map)].entries.contains_key(m.ints[at(k)])))
        } else {
            Effect::Fail(ErrorKind::Invariant)
        },
        Instr::ContainsIntStr(d, map, k) => if in_file(map, m.int_str.len()) && in_file(k, m.ints.len()) {
            m.put_int(d, truth(m.int_str[at(map)].entries.contains_key(m.ints[at(k)])))
        } else {
            Effect::Fail(ErrorKind::Invariant)
        },
        Instr::ContainsIntFloat(d, map, k) => if in_file(map, m.int_float.len()) && in_file(k, m.ints.len()) {
            m.put_int(d, truth(m.int_float[at(map)].entries.contains_key(m.ints[at(k)])))
        } else {
            Effect::Fail(ErrorKind::Invariant)
        },
        Instr::ContainsStrInt(d, map, k) => if in_file(map, m.str_int.len()) && in_file(k, m.strs.len()) {
            m.put_int(d, truth(m.str_int[at(map)].entries.contains_key(encode_utf8(m.strs[at(k)]))))
        } else {
            Effect::Fail(ErrorKind::Invariant)
        },
        Instr::ContainsStrStr(d, map, k) => if in_file(map, m.str_str.len()) && in_file(k, m.strs.len()) {
            m.put_int(d, truth(m.str_str[at(map)].entries.contains_key(encode_utf8(m.strs[at(k)]))))
        } else {
            Effect::Fail(ErrorKind::Invariant)
        },
        Instr::ContainsStrFloat(d, map, k) => if in_file(map, m.str_float.len()) && in_file(k, m.strs.len()) {
            m.put_int(d, truth(m.str_float[at(map)].entries.contains_key(encode_utf8(m.strs[at(k)]))))
        } else {
            Effect::Fail(ErrorKind::Invariant)
        },
        Instr::IterBeginIntInt(d, map) => if in_file(map, m.int_int.len()) && in_file(d, m.int_iters.len()) {
            Effect::Next(
                Machine {
                    int_iters: m.int_iters.update(
                        at(d),
                        IterView { position: 0, stamp: m.int_int[at(map)].stamp },
                    ),
                    pc: m.pc + 1,
                    ..m
                },
            )
        } else {
            Effect::Fail(ErrorKind::Invariant)
        },
        Instr::IterBeginIntStr(d, map) => if in_file(map, m.int_str.len()) && in_file(d, m.int_iters.len()) {
            Effect::Next(
                Machine {
                    int_iters: m.int_iters.update(
                        at(d),
                        IterView { position: 0, stamp: m.int_str[at(map)].stamp },
                    ),
                    pc: m.pc + 1,
                    ..m
                },
            )
        } else {
            Effect::Fail(ErrorKind::Invariant)
        },
        Instr::IterBeginIntFloat(d, map) => if in_file(map, m.int_float.len()) && in_file(d, m.int_iters.len()) {
            Effect::Next(
                Machine {
                    int_iters: m.int_iters.update(
                        at(d),
                        IterView { position: 0, stamp: m.int_float[at(map)].stamp },
                    ),
                    pc: m.pc + 1,
                    ..m
                },
            )
        } else {
            Effect::Fail(ErrorKind::Invariant)
        },
        Instr::IterBeginStrInt(d, map) => if in_file(map, m.str_int.len()) && in_file(d, m.str_iters.len()) {
            Effect::Next(
                Machine {
                    str_iters: m.str_iters.update(
                        at(d),
                        IterView { position: 0, stamp: m.str_int[at(map)].stamp },
                    ),
                    pc: m.pc + 1,
                    ..m
                },
            )
        } else {
            Effect::Fail(ErrorKind::Invariant)
        },
        Instr::IterBeginStrStr(d, map) => if in_file(map, m.str_str.len()) && in_file(d, m.str_iters.len()) {
            Effect::Next(
                Machine {
                    str_iters: m.str_iters.update(
                        at(d),
                        IterView { position: 0, stamp: m.str_str[at(map)].stamp },
                    ),
                    pc: m.pc + 1,
                    ..m
                },
            )
        } else {
            Effect::Fail(ErrorKind::Invariant)
        },
        Instr::IterBeginStrFloat(d, map) => if in_file(map, m.str_float.len()) && in_file(d, m.str_iters.len()) {
            Effect::Next(
                Machine {
                    str_iters: m.str_iters.update(
                        at(d),
                        IterView { position: 0, stamp: m.str_float[at(map)].stamp },
                    ),
                    pc: m.pc + 1,
                    ..m
                },
            )
        } else {
            Effect::Fail(ErrorKind::Invariant)
        },
        Instr::StoreIntInt(map, k, v) => if in_file(map, m.int_int.len()) && in_file(k, m.ints.len()) && in_file(
            v,
            m.ints.len(),
        ) {
            Effect::Next(
                Machine {
                    int_int: m.int_int.update(at(map), m.int_int[at(map)].store(m.ints[at(k)], m.ints[at(v)])),
                    pc: m.pc + 1,
                    ..m
                },
            )
        } else {
            Effect::Fail(ErrorKind::Invariant)
        },
        Instr::StoreIntStr(map, k, v) => if in_file(map, m.int_str.len()) && in_file(k, m.ints.len()) && in_file(
            v,
            m.strs.len(),
        ) {
            Effect::Next(
                Machine {
                    int_str: m.int_str.update(at(map), m.int_str[at(map)].store(m.ints[at(k)], m.strs[at(v)])),
                    pc: m.pc + 1,
                    ..m
                },
            )
        } else {
            Effect::Fail(ErrorKind::Invariant)
        },
        Instr::StoreIntFloat(map, k, v) => if in_file(map, m.int_float.len()) && in_file(k, m.ints.len()) && in_file(
            v,
            m.floats.len(),
        ) {
            Effect::Next(
                Machine {
                    int_float: m.int_float.update(at(map), m.int_float[at(map)].store(m.ints[at(k)], m.floats[at(v)])),
                    pc: m.pc + 1,
                    ..m
                },
            )
        } else {
            Effect::Fail(ErrorKind::Invariant)
        },
        Instr::StoreStrInt(map, k, v) => if in_file(map, m.str_int.len()) && in_file(k, m.strs.len()) && in_file(
            v,
            m.ints.len(),
        ) {
            Effect::Next(
                Machine {
                    str_int: m.str_int.update(at(map), m.str_int[at(map)].store(encode_utf8(m.strs[at(k)]), m.ints[at(v)])),
                    pc: m.pc + 1,
                    ..m
                },
            )
        } else {
            Effect::Fail(ErrorKind::Invariant)
        },
        Instr::StoreStrStr(map, k, v) => if in_file(map, m.str_str.len()) && in_file(k, m.strs.len()) && in_file(
            v,
            m.strs.len(),
        ) {
            Effect::Next(
                Machine {
                    str_str: m.str_str.update(at(map), m.str_str[at(map)].store(encode_utf8(m.strs[at(k)]), m.strs[at(v)])),
                    pc: m.pc + 1,
                    ..m
                },
            )
        } else {
            Effect::Fail(ErrorKind::Invariant)
        },
        Instr::StoreStrFloat(map, k, v) => if in_file(map, m.str_float.len()) && in_file(k, m.strs.len()) && in_file(
            v,
            m.floats.len(),
        ) {
            Effect::Next(
                Machine {
                    str_float: m.str_float.update(at(map), m.str_float[at(map)].store(encode_utf8(m.strs[at(k)]), m.floats[at(v)])),
                    pc: m.pc + 1,
                    ..m
                },
            )
        } else {
            Effect::Fail(ErrorKind::Invariant)
        },
        Instr::Print(s) => if in_file(s, m.strs.len()) {
            m.ask(WorkView::Print(m.strs[at(s)]))
        } else {
            Effect::Fail(ErrorKind::Invariant)
        },
        Instr::JmpIf(c, label) => if in_file(c, m.ints.len()) {
            if m.ints[at(c)] != 0 {
                m.jump(label.0 as nat)
            } else {
                m.jump(m.pc + 1)
            }
        } else {
            Effect::Fail(ErrorKind::Invariant)
        },
        Instr::Jmp(label) => m.jump(label.0 as nat),
        Instr::Halt => Effect::Halt,
    }
}

/// A conditional jump branches if and only if its register holds a non-zero
/// integer, an unconditional jump always branches, and either lands on the
/// instruction that its label names.
pub proof fn lemma_jumps(m: Machine, c: Reg<Int>, label: Label)
    requires
        in_file(c, m.ints.len()),
    ensures
        execute(m, Instr::Jmp(label)) == Effect::Next(Machine { pc: label.0 as nat, ..m }),
        m.ints[at(c)] != 0 ==> execute(m, Instr::JmpIf(c, label)) == Effect::Next(
            Machine { pc: label.0 as nat, ..m },
        ),
        m.ints[at(c)] == 0 ==> execute(m, Instr::JmpIf(c, label)) == Effect::Next(
            Machine { pc: m.pc + 1, ..m },
        ),
{
}

/// What the next instruction of `program` does to the machine `m`. A
/// program counter beyond the last instruction, by running off the end or by
/// a jump to a label that names no instruction, is an invariant violation.
pub open spec fn step_spec(m: Machine, program: Seq<Instr<'_>>) -> Effect {
    if m.pc < program.len() {
        execute(m, program[m.pc as int])
    } else {
        Effect::Fail(ErrorKind::Invariant)
    }
}

/// Where at most `fuel` instructions of `program` lead from `m`: the state
/// in which the last instruction ran, and what it did. The machine stops
/// early at the first instruction that halts, fails or leaves work to the
/// driver; when the fuel runs out it just goes on from where it stands.
pub open spec fn run_spec(m: Machine, program: Seq<Instr<'_>>, fuel: nat) -> (Machine, Effect)
    decreases fuel,
{
    if fuel == 0 {
        (m, Effect::Next(m))
    } else {
        match step_spec(m, program) {
            Effect::Next(next) => run_spec(next, program, (fuel - 1) as nat),
            other => (m, other),
        }
    }
}

/// The number of registers of each type.
pub struct RegCounts {
    pub ints: usize,
    pub floats: usize,
    pub strs: usize,
    pub maps_int_int: usize,
    pub maps_int_float: usize,
    pub maps_int_str: usize,
    pub maps_str_int: usize,
    pub maps_str_float: usize,
    pub maps_str_str: usize,
    pub iters_int: usize,
    pub iters_float: usize,
    pub iters_str: usize,
}

/// A map without entries.
pub open spec fn empty_map<K, V>() -> MapView<K, V> {
    MapView { entries: Map::empty(), order: Seq::empty(), stamp: 0 }
}

/// An iterator that was never begun: it is stale on every map.
pub open spec fn idle_iter() -> IterView {
    IterView { position: 0, stamp: LAST_STAMP }
}

impl Machine {
    /// The machine before its first instruction: integers are `0`,
    /// floating-point values positive zero, strings and maps empty, no
    /// iterator begun, the record empty, and the program counter at the
    /// first instruction.
    pub open spec fn fresh(counts: RegCounts, sep: Seq<char>) -> Machine {
        Machine {
            ints: Seq::new(counts.ints as nat, |i: int| 0i64),
            floats: Seq::new(counts.floats as nat, |i: int| Float::spec_zero()),
            strs: Seq::new(counts.strs as nat, |i: int| Seq::<char>::empty()),
            int_int: Seq::new(counts.maps_int_int as nat, |i: int| empty_map()),
            int_float: Seq::new(counts.maps_int_float as nat, |i: int| empty_map()),
            int_str: Seq::new(counts.maps_int_str as nat, |i: int| empty_map()),
            str_int: Seq::new(counts.maps_str_int as nat, |i: int| empty_map()),
            str_float: Seq::new(counts.maps_str_float as nat, |i: int| empty_map()),
            str_str: Seq::new(counts.maps_str_str as nat, |i: int| empty_map()),
            int_iters: Seq::new(counts.iters_int as nat, |i: int| idle_iter()),
            float_iters: Seq::new(counts.iters_float as nat, |i: int| idle_iter()),
            str_iters: Seq::new(counts.iters_str as nat, |i: int| idle_iter()),
            line: Seq::empty(),
            fields: Seq::empty(),
            sep,
            pc: 0,
        }
    }
}

/// A lookup of a key that an integer-keyed map does not hold gives the zero
/// of the value type, and the matching test gives `0`.
pub proof fn lemma_missing_int_key<'a>(
    m: Machine,
    k: Reg<Int>,
    to_int: Reg<Int>,
    to_float: Reg<Float>,
    to_str: Reg<Str<'a>>,
    ints: Reg<IntMap<Int>>,
    floats: Reg<IntMap<Float>>,
    strs: Reg<IntMap<Str<'a>>>,
)
    requires
        in_file(k, m.ints.len()),
    ensures
        in_file(ints, m.int_int.len()) && !m.int_int[at(ints)].entries.contains_key(m.ints[at(k)])
            ==> execute(m, Instr::LookupIntInt(to_int, ints, k)) == m.put_int(to_int, 0)
            && execute(m, Instr::ContainsIntInt(to_int, ints, k)) == m.put_int(to_int, 0),
        in_file(floats, m.int_float.len()) && !m.int_float[at(floats)].entries.contains_key(
            m.ints[at(k)],
        ) ==> execute(m, Instr::LookupIntFloat(to_float, floats, k)) == m.put_float(
            to_float,
            Float::spec_zero(),
        ) && execute(m, Instr::ContainsIntFloat(to_int, floats, k)) == m.put_int(to_int, 0),
        in_file(strs, m.int_str.len()) && !m.int_str[at(strs)].entries.contains_key(m.ints[at(k)])
            ==> execute(m, Instr::LookupIntStr(to_str, strs, k)) == m.put_str(
            to_str,
            Seq::<char>::empty(),
        ) && execute(m, Instr::ContainsIntStr(to_int, strs, k)) == m.put_int(to_int, 0),
{
}

/// A lookup of a key that a string-keyed map does not hold gives the zero of
/// the value type, and the matching test gives `0`.
pub proof fn lemma_missing_str_key<'a>(
    m: Machine,
    k: Reg<Str<'a>>,
    to_int: Reg<Int>,
    to_float: Reg<Float>,
    to_str: Reg<Str<'a>>,
    ints: Reg<StrMap<'a, Int>>,
    floats: Reg<StrMap<'a, Float>>,
    strs: Reg<StrMap<'a, Str<'a>>>,
)
    requires
        in_file(k, m.strs.len()),
    ensures
        in_file(ints, m.str_int.len()) && !m.str_int[at(ints)].entries.contains_key(
            encode_utf8(m.strs[at(k)]),
        ) ==> execute(m, Instr::LookupStrInt(to_int, ints, k)) == m.put_int(to_int, 0) && execute(
            m,
            Instr::ContainsStrInt(to_int, ints, k),
        ) == m.put_int(to_int, 0),
        in_file(floats, m.str_float.len()) && !m.str_float[at(floats)].entries.contains_key(
            encode_utf8(m.strs[at(k)]),
        ) ==> execute(m, Instr::LookupStrFloat(to_float, floats, k)) == m.put_float(
            to_float,
            Float::spec_zero(),
        ) && execute(m, Instr::ContainsStrFloat(to_int, floats, k)) == m.put_int(to_int, 0),
        in_file(strs, m.str_str.len()) && !m.str_str[at(strs)].entries.contains_key(
            encode_utf8(m.strs[at(k)]),
        ) ==> execute(m, Instr::LookupStrStr(to_str, strs, k)) == m.put_str(
            to_str,
            Seq::<char>::empty(),
        ) && execute(m, Instr::ContainsStrStr(to_int, strs, k)) == m.put_int(to_int, 0),
{
}

/// A fresh machine holds no keys: every map of it is empty.
pub proof fn lemma_fresh_maps_empty(counts: RegCounts, sep: Seq<char>, i: int, k: Int, s: Seq<u8>)
    ensures
        0 <= i < counts.maps_int_int ==> !Machine::fresh(counts, sep).int_int[i].entries.contains_key(k),
        0 <= i < counts.maps_int_float ==> !Machine::fresh(
            counts,
            sep,
        ).int_float[i].entries.contains_key(k),
        0 <= i < counts.maps_int_str ==> !Machine::fresh(counts, sep).int_str[i].entries.contains_key(k),
        0 <= i < counts.maps_str_int ==> !Machine::fresh(counts, sep).str_int[i].entries.contains_key(s),
        0 <= i < counts.maps_str_float ==> !Machine::fresh(
            counts,
            sep,
        ).str_float[i].entries.contains_key(s),
        0 <= i < counts.maps_str_str ==> !Machine::fresh(counts, sep).str_str[i].entries.contains_key(s),
{
}

} // verus!
