//! The interpreter: typed register files, and the execution of one
//! instruction at a time.
//!
//! The interpreter decides; the driver does what the interpreter cannot.
//! Floating-point arithmetic and output are handed to the driver as work,
//! and the driver delivers each result to the register that waits for it.

mod access;
mod map_ops;

pub use access::Get;

use crate::common::{ErrorKind, Result, VmError};
use crate::convert::{int_to_string, lemma_decimal_text_bytes, Int};
use crate::fields::{join_spec, split, split_spec, texts};
use crate::float::Float;
use crate::instr::{Instr, Label, Reg};
use crate::lazy_str::Str;
use crate::machine::{
    at, compare, execute, in_file, int_op, remainder, run_spec, step_spec, store_pieces_int,
    store_pieces_str, truth, with_field, CmpOp, Effect, FloatOp, IntOp, IterView, Machine,
    MapView, RegCounts, WorkView, MAX_COLUMN,
};
use crate::maps::{IntMap, Iter, StrMap};
use crate::regex_cache::RegexCache;
use vstd::prelude::*;
use vstd::string::*;
use vstd::utf8::*;

verus! {

/// Work that an instruction leaves to the driver. The driver computes the
/// result and delivers it to the register named first.
pub enum Work<'a> {
    /// The result of the operation on the two values.
    Arith(Reg<Float>, FloatOp, Float, Float),
    /// The quotient of two integers, as a floating-point value.
    DivInt(Reg<Float>, Int, Int),
    /// `1` if the comparison holds of the two values, else `0`.
    Compare(Reg<Int>, CmpOp, Float, Float),
    /// The integer widened to floating point.
    IntToFloat(Reg<Float>, Int),
    /// The value truncated toward zero.
    FloatToInt(Reg<Int>, Float),
    /// The shortest text that reads back as the value.
    FloatToStr(Reg<Str<'a>>, Float),
    /// The value that the text denotes, read leniently.
    StrToFloat(Reg<Float>, Str<'a>),
    /// Nothing to deliver: the text goes to the output.
    Print(Str<'a>),
}

impl<'a> View for Work<'a> {
    type V = WorkView;

    open spec fn view(&self) -> WorkView {
        match *self {
            Work::Arith(d, op, a, b) => WorkView::Arith(d.spec_index(), op, a, b),
            Work::DivInt(d, a, b) => WorkView::DivInt(d.spec_index(), a, b),
            Work::Compare(d, op, a, b) => WorkView::Compare(d.spec_index(), op, a, b),
            Work::IntToFloat(d, v) => WorkView::IntToFloat(d.spec_index(), v),
            Work::FloatToInt(d, v) => WorkView::FloatToInt(d.spec_index(), v),
            Work::FloatToStr(d, v) => WorkView::FloatToStr(d.spec_index(), v),
            Work::StrToFloat(d, s) => WorkView::StrToFloat(d.spec_index(), s.text()),
            Work::Print(s) => WorkView::Print(s.text()),
        }
    }
}

/// How the execution of an instruction ended, short of an error.
pub enum Outcome<'a> {
    /// The instruction is done.
    Continue,
    /// The program has halted.
    Halt,
    /// The instruction is done once the driver has done this work.
    Work(Work<'a>),
}

/// What an integer-keyed map shows to the machine.
pub open spec fn int_map_view<V>(m: IntMap<V>) -> MapView<Int, V> {
    MapView { entries: m@, order: m.key_order(), stamp: m.stamp() }
}

/// What an integer-keyed map of strings shows to the machine.
pub open spec fn int_str_map_view(m: IntMap<Str<'_>>) -> MapView<Int, Seq<char>> {
    MapView {
        entries: Map::new(|k: Int| m@.contains_key(k), |k: Int| m@[k].text()),
        order: m.key_order(),
        stamp: m.stamp(),
    }
}

/// What a string-keyed map shows to the machine.
pub open spec fn str_map_view<V>(m: StrMap<'_, V>) -> MapView<Seq<u8>, V> {
    MapView { entries: m@, order: m.key_order(), stamp: m.stamp() }
}

/// What a string-keyed map of strings shows to the machine.
pub open spec fn str_str_map_view(m: StrMap<'_, Str<'_>>) -> MapView<Seq<u8>, Seq<char>> {
    MapView {
        entries: Map::new(|k: Seq<u8>| m@.contains_key(k), |k: Seq<u8>| m@[k].text()),
        order: m.key_order(),
        stamp: m.stamp(),
    }
}

/// What an iterator shows to the machine.
pub open spec fn iter_view<K>(it: Iter<K>) -> IterView {
    IterView { position: it.position(), stamp: it.stamp() }
}

/// The texts of strings.
pub open spec fn str_texts(v: Seq<Str<'_>>) -> Seq<Seq<char>> {
    Seq::new(v.len(), |i: int| v[i].text())
}

/// Whether the outcome `r` in the state `after` is what `effect` asks for
/// of an instruction that ran in the state `before`.
pub open spec fn settles(
    before: Machine,
    effect: Effect,
    after: Machine,
    r: Result<Outcome<'_>>,
) -> bool {
    match effect {
        Effect::Next(m) => after == m && r matches Ok(Outcome::Continue),
        Effect::Halt => after == before && r matches Ok(Outcome::Halt),
        Effect::Ask(m, w) => after == m && (r matches Ok(Outcome::Work(work)) && work@ == w),
        Effect::Fail(kind) => after == before && (r matches Err(e) && e.kind == kind),
    }
}

/// The interpreter.
pub struct Interp<'a> {
    floats: Vec<Float>,
    ints: Vec<Int>,
    strs: Vec<Str<'a>>,
    maps_int_float: Vec<IntMap<Float>>,
    maps_int_int: Vec<IntMap<Int>>,
    maps_int_str: Vec<IntMap<Str<'a>>>,
    maps_str_float: Vec<StrMap<'a, Float>>,
    maps_str_int: Vec<StrMap<'a, Int>>,
    maps_str_str: Vec<StrMap<'a, Str<'a>>>,
    iters_int: Vec<Iter<Int>>,
    iters_float: Vec<Iter<Float>>,
    iters_str: Vec<Iter<Str<'a>>>,
    regexes: RegexCache,
    line: Str<'a>,
    fields: Vec<Str<'a>>,
    dirty: bool,
    sep: Str<'a>,
    pc: usize,
}

impl<'a> View for Interp<'a> {
    type V = Machine;

    closed spec fn view(&self) -> Machine {
        Machine {
            ints: self.ints@,
            floats: self.floats@,
            strs: str_texts(self.strs@),
            int_int: Seq::new(self.maps_int_int@.len(), |i: int| int_map_view(self.maps_int_int@[i])),
            int_float: Seq::new(
                self.maps_int_float@.len(),
                |i: int| int_map_view(self.maps_int_float@[i]),
            ),
            int_str: Seq::new(
                self.maps_int_str@.len(),
                |i: int| int_str_map_view(self.maps_int_str@[i]),
            ),
            str_int: Seq::new(self.maps_str_int@.len(), |i: int| str_map_view(self.maps_str_int@[i])),
            str_float: Seq::new(
                self.maps_str_float@.len(),
                |i: int| str_map_view(self.maps_str_float@[i]),
            ),
            str_str: Seq::new(
                self.maps_str_str@.len(),
                |i: int| str_str_map_view(self.maps_str_str@[i]),
            ),
            int_iters: Seq::new(self.iters_int@.len(), |i: int| iter_view(self.iters_int@[i])),
            float_iters: Seq::new(self.iters_float@.len(), |i: int| iter_view(self.iters_float@[i])),
            str_iters: Seq::new(self.iters_str@.len(), |i: int| iter_view(self.iters_str@[i])),
            line: if self.dirty {
                join_spec(str_texts(self.fields@), self.sep.text())
            } else {
                self.line.text()
            },
            fields: str_texts(self.fields@),
            sep: self.sep.text(),
            pc: self.pc as nat,
        }
    }
}

/// An invariant violation: the program breaks a promise of its producer.
fn violation<T>(message: &str) -> (r: Result<T>)
    ensures
        r matches Err(e) && e.kind == ErrorKind::Invariant,
{
    Err(VmError::new(ErrorKind::Invariant, String::from_str(message)))
}

/// `1` for true and `0` for false.
fn truth_of(b: bool) -> (r: Int)
    ensures
        r == truth(b),
{
    if b {
        1
    } else {
        0
    }
}

/// Whether the comparison holds, given whether the left side is less than
/// the right and whether the right is less than the left.
fn holds(op: CmpOp, less: bool, greater: bool) -> (r: bool)
    ensures
        r == compare(op, less, greater),
{
    match op {
        CmpOp::Lt => less,
        CmpOp::Gt => greater,
        CmpOp::Lte => !greater,
        CmpOp::Gte => !less,
        CmpOp::Eq => !less && !greater,
    }
}

/// The result of an operation on two integers; `None` for a remainder by
/// zero.
fn apply_int_op(op: IntOp, x: Int, y: Int) -> (r: Option<Int>)
    ensures
        r == int_op(op, x, y),
{
    match op {
        IntOp::Add => Some(x.wrapping_add(y)),
        IntOp::Sub => Some(x.wrapping_sub(y)),
        IntOp::Mul => Some(x.wrapping_mul(y)),
        IntOp::Mod => {
            if y == 0 {
                None
            } else {
                match x.checked_rem(y) {
                    Some(v) => {
                        assert(v == remainder(x as int, y as int)) by (nonlinear_arith)
                            requires
                                y != 0,
                                !(x == i64::MIN && y == -1),
                                v == if x == 0 {
                                    0
                                } else if x > 0 && y > 0 {
                                    x as int % y as int
                                } else if x < 0 && y < 0 {
                                    ((x as int * -1) % (y as int * -1)) * -1
                                } else if x < 0 {
                                    ((x as int * -1) % y as int) * -1
                                } else {
                                    x as int % (y as int * -1)
                                },
                        ;
                        Some(v)
                    },
                    None => Some(0),
                }
            }
        },
        IntOp::Compare(c) => Some(truth_of(holds(c, x < y, y < x))),
    }
}

/// The fields of `text`, each in a string of its own.
fn owned_pieces<'a>(text: &Str<'a>, sep: &Str<'a>) -> (v: Vec<Str<'a>>)
    ensures
        str_texts(v@) == split_spec(text.text(), sep.text()),
{
    let t = text.flatten();
    let s = sep.flatten();
    let parts = split(t.as_str(), s.as_str());
    let mut out: Vec<Str<'a>> = Vec::new();
    let mut i: usize = 0;
    while i < parts.len()
        invariant
            i <= parts@.len(),
            out@.len() == i,
            forall|j: int| 0 <= j < i ==> (#[trigger] out@[j]).text() == parts@[j]@,
        decreases parts@.len() - i,
    {
        out.push(Str::from(String::from_str(parts[i])));
        i += 1;
    }
    proof {
        assert(str_texts(out@) =~= texts(parts@));
    }
    out
}

/// The fields joined by `sep`, as one lazy string: no byte is copied.
fn join_fields<'a>(fields: &Vec<Str<'a>>, sep: &Str<'a>) -> (r: Str<'a>)
    ensures
        r.text() == join_spec(str_texts(fields@), sep.text()),
{
    if fields.len() == 0 {
        return Str::empty();
    }
    let mut acc = fields[0].clone();
    let mut i: usize = 1;
    proof {
        assert(str_texts(fields@).take(1).len() == 1);
    }
    while i < fields.len()
        invariant
            1 <= i <= fields@.len(),
            acc.text() == join_spec(str_texts(fields@).take(i as int), sep.text()),
        decreases fields@.len() - i,
    {
        proof {
            let all = str_texts(fields@);
            assert(all.take(i + 1).drop_last() =~= all.take(i as int));
            assert(all.take(i + 1).last() == fields@[i as int].text());
        }
        acc = Str::concat(Str::concat(acc, sep.clone()), fields[i].clone());
        i += 1;
    }
    proof {
        assert(str_texts(fields@).take(i as int) =~= str_texts(fields@));
    }
    acc
}

/// Stores the pieces under the keys `1`, `2`, and so on.
fn fill_int_map<'a>(map: &mut IntMap<Str<'a>>, pieces: &Vec<Str<'a>>)
    requires
        old(map).wf(),
        pieces@.len() <= i64::MAX,
    ensures
        final(map).wf(),
        int_str_map_view(*final(map)) == store_pieces_int(
            int_str_map_view(*old(map)),
            str_texts(pieces@),
        ),
{
    let ghost start = int_str_map_view(*map);
    let ghost all = str_texts(pieces@);
    let mut i: usize = 0;
    proof {
        assert(all.take(0) =~= Seq::<Seq<char>>::empty());
    }
    while i < pieces.len()
        invariant
            map.wf(),
            i <= pieces@.len(),
            pieces@.len() <= i64::MAX,
            all == str_texts(pieces@),
            int_str_map_view(*map) == store_pieces_int(start, all.take(i as int)),
        decreases pieces@.len() - i,
    {
        let ghost before = int_str_map_view(*map);
        let piece = pieces[i].clone();
        map.insert((i + 1) as i64, piece);
        proof {
            let expected = before.store((i + 1) as Int, piece.text());
            assert(all.take(i + 1).drop_last() =~= all.take(i as int));
            assert(all.take(i + 1).last() == piece.text());
            assert(int_str_map_view(*map).entries =~= expected.entries);
            assert(int_str_map_view(*map) == expected);
        }
        i += 1;
    }
    proof {
        assert(all.take(i as int) =~= all);
    }
}

/// Stores the pieces under the keys `"1"`, `"2"`, and so on.
fn fill_str_map<'a>(map: &mut StrMap<'a, Str<'a>>, pieces: &Vec<Str<'a>>)
    requires
        old(map).wf(),
        pieces@.len() <= i64::MAX,
    ensures
        final(map).wf(),
        str_str_map_view(*final(map)) == store_pieces_str(
            str_str_map_view(*old(map)),
            str_texts(pieces@),
        ),
{
    let ghost start = str_str_map_view(*map);
    let ghost all = str_texts(pieces@);
    let mut i: usize = 0;
    proof {
        assert(all.take(0) =~= Seq::<Seq<char>>::empty());
    }
    while i < pieces.len()
        invariant
            map.wf(),
            i <= pieces@.len(),
            pieces@.len() <= i64::MAX,
            all == str_texts(pieces@),
            str_str_map_view(*map) == store_pieces_str(start, all.take(i as int)),
        decreases pieces@.len() - i,
    {
        let ghost before = str_str_map_view(*map);
        let piece = pieces[i].clone();
        let key: Str<'a> = Str::from(int_to_string((i + 1) as i64));
        proof {
            lemma_decimal_text_bytes(i + 1);
        }
        map.insert(&key, piece);
        proof {
            let expected = before.store(key@, piece.text());
            assert(all.take(i + 1).drop_last() =~= all.take(i as int));
            assert(all.take(i + 1).last() == piece.text());
            assert(str_str_map_view(*map).entries =~= expected.entries);
            assert(str_str_map_view(*map) == expected);
        }
        i += 1;
    }
    proof {
        assert(all.take(i as int) =~= all);
    }
}

/// A vector of `n` values, each made by a call of `make`.
fn filled<T, F: Fn() -> T>(n: usize, make: F) -> (v: Vec<T>)
    requires
        call_requires(make, ()),
    ensures
        v@.len() == n,
        forall|i: int| 0 <= i < n ==> call_ensures(make, (), #[trigger] v@[i]),
{
    let mut v: Vec<T> = Vec::new();
    while v.len() < n
        invariant
            v@.len() <= n,
            call_requires(make, ()),
            forall|i: int| 0 <= i < v@.len() ==> call_ensures(make, (), #[trigger] v@[i]),
        decreases n - v@.len(),
    {
        v.push(make());
    }
    v
}

/// The integer zero.
fn zero_int() -> (v: Int)
    ensures
        v == 0,
{
    0
}

impl<'a> Interp<'a> {
    /// The interpreter's invariant: its maps and its pattern cache are well
    /// formed.
    pub closed spec fn wf(&self) -> bool {
        &&& self.regexes.wf()
        &&& forall|i: int| 0 <= i < self.maps_int_int@.len() ==> (#[trigger] self.maps_int_int@[i]).wf()
        &&& forall|i: int|
            0 <= i < self.maps_int_float@.len() ==> (#[trigger] self.maps_int_float@[i]).wf()
        &&& forall|i: int| 0 <= i < self.maps_int_str@.len() ==> (#[trigger] self.maps_int_str@[i]).wf()
        &&& forall|i: int| 0 <= i < self.maps_str_int@.len() ==> (#[trigger] self.maps_str_int@[i]).wf()
        &&& forall|i: int|
            0 <= i < self.maps_str_float@.len() ==> (#[trigger] self.maps_str_float@[i]).wf()
        &&& forall|i: int| 0 <= i < self.maps_str_str@.len() ==> (#[trigger] self.maps_str_str@[i]).wf()
    }

    /// Writes `v` to the integer register `d` and goes on.
    fn settle_int(&mut self, d: &Reg<Int>, v: Int) -> (r: Result<Outcome<'a>>)
        requires
            old(self).wf(),
            old(self).pc < usize::MAX,
        ensures
            final(self).wf(),
            settles(old(self)@, old(self)@.put_int(*d, v), final(self)@, r),
    {
        if d.index() < self.ints.len() {
            self.ints.set(d.index(), v);
            self.pc = self.pc + 1;
            Ok(Outcome::Continue)
        } else {
            violation("integer register out of range")
        }
    }

    /// Writes `v` to the floating-point register `d` and goes on.
    fn settle_float(&mut self, d: &Reg<Float>, v: Float) -> (r: Result<Outcome<'a>>)
        requires
            old(self).wf(),
            old(self).pc < usize::MAX,
        ensures
            final(self).wf(),
            settles(old(self)@, old(self)@.put_float(*d, v), final(self)@, r),
    {
        if d.index() < self.floats.len() {
            self.floats.set(d.index(), v);
            self.pc = self.pc + 1;
            Ok(Outcome::Continue)
        } else {
            violation("floating-point register out of range")
        }
    }

    /// Writes `v` to the string register `d` and goes on.
    fn settle_str(&mut self, d: &Reg<Str<'a>>, v: Str<'a>) -> (r: Result<Outcome<'a>>)
        requires
            old(self).wf(),
            old(self).pc < usize::MAX,
        ensures
            final(self).wf(),
            settles(old(self)@, old(self)@.put_str(*d, v.text()), final(self)@, r),
    {
        if d.index() < self.strs.len() {
            self.strs.set(d.index(), v);
            self.pc = self.pc + 1;
            proof {
                assert(self@.strs =~= old(self)@.strs.update(at(*d), v.text()));
            }
            Ok(Outcome::Continue)
        } else {
            violation("string register out of range")
        }
    }

    /// Hands `w` to the driver and goes on.
    fn settle_work(&mut self, w: Work<'a>) -> (r: Result<Outcome<'a>>)
        requires
            old(self).wf(),
            old(self).pc < usize::MAX,
        ensures
            final(self).wf(),
            settles(old(self)@, old(self)@.ask(w@), final(self)@, r),
    {
        self.pc = self.pc + 1;
        Ok(Outcome::Work(w))
    }

    /// Moves the program counter to `target`.
    fn jump(&mut self, target: usize) -> (r: Result<Outcome<'a>>)
        requires
            old(self).wf(),
        ensures
            final(self).wf(),
            settles(old(self)@, old(self)@.jump(target as nat), final(self)@, r),
    {
        self.pc = target;
        Ok(Outcome::Continue)
    }

    /// An operation on two integer registers.
    fn int_binary(&mut self, d: &Reg<Int>, a: &Reg<Int>, b: &Reg<Int>, op: IntOp) -> (r: Result<
        Outcome<'a>,
    >)
        requires
            old(self).wf(),
            old(self).pc < usize::MAX,
        ensures
            final(self).wf(),
            settles(old(self)@, old(self)@.int_binary(*d, *a, *b, op), final(self)@, r),
    {
        if a.index() < self.ints.len() && b.index() < self.ints.len() && d.index()
            < self.ints.len() {
            match apply_int_op(op, self.ints[a.index()], self.ints[b.index()]) {
                Some(v) => self.settle_int(d, v),
                None => Err(VmError::new(ErrorKind::Arithmetic, String::from_str("remainder by zero"))),
            }
        } else {
            violation("integer register out of range")
        }
    }

    /// An operation on two floating-point registers: work for the driver.
    fn float_binary(&mut self, d: &Reg<Float>, a: &Reg<Float>, b: &Reg<Float>, op: FloatOp) -> (r:
        Result<Outcome<'a>>)
        requires
            old(self).wf(),
            old(self).pc < usize::MAX,
        ensures
            final(self).wf(),
            settles(old(self)@, old(self)@.float_binary(*d, *a, *b, op), final(self)@, r),
    {
        if a.index() < self.floats.len() && b.index() < self.floats.len() && d.index()
            < self.floats.len() {
            let w = Work::Arith(*d, op, self.floats[a.index()], self.floats[b.index()]);
            self.settle_work(w)
        } else {
            violation("floating-point register out of range")
        }
    }

    /// A comparison of two floating-point registers: work for the driver.
    fn float_compare(&mut self, d: &Reg<Int>, a: &Reg<Float>, b: &Reg<Float>, op: CmpOp) -> (r:
        Result<Outcome<'a>>)
        requires
            old(self).wf(),
            old(self).pc < usize::MAX,
        ensures
            final(self).wf(),
            settles(old(self)@, old(self)@.float_compare(*d, *a, *b, op), final(self)@, r),
    {
        if a.index() < self.floats.len() && b.index() < self.floats.len() && d.index()
            < self.ints.len() {
            let w = Work::Compare(*d, op, self.floats[a.index()], self.floats[b.index()]);
            self.settle_work(w)
        } else {
            violation("register out of range")
        }
    }

    /// A comparison of two string registers by their bytes.
    fn str_compare(&mut self, d: &Reg<Int>, a: &Reg<Str<'a>>, b: &Reg<Str<'a>>, op: CmpOp) -> (r:
        Result<Outcome<'a>>)
        requires
            old(self).wf(),
            old(self).pc < usize::MAX,
        ensures
            final(self).wf(),
            settles(old(self)@, old(self)@.str_compare(*d, *a, *b, op), final(self)@, r),
    {
        if a.index() < self.strs.len() && b.index() < self.strs.len() {
            let x = &self.strs[a.index()];
            let y = &self.strs[b.index()];
            let answer = match op {
                CmpOp::Eq => x == y,
                CmpOp::Lt => x.less_than(y),
                CmpOp::Gt => y.less_than(x),
                CmpOp::Lte => !y.less_than(x),
                CmpOp::Gte => !x.less_than(y),
            };
            self.settle_int(d, truth_of(answer))
        } else {
            violation("string register out of range")
        }
    }

    /// Writes the decimal text of an integer register to a string register.
    fn int_to_str(&mut self, d: &Reg<Str<'a>>, s: &Reg<Int>) -> (r: Result<Outcome<'a>>)
        requires
            old(self).wf(),
            old(self).pc < usize::MAX,
        ensures
            final(self).wf(),
            settles(old(self)@, execute(old(self)@, Instr::IntToStr(*d, *s)), final(self)@, r),
    {
        if s.index() < self.ints.len() {
            let text = int_to_string(self.ints[s.index()]);
            self.settle_str(d, Str::from(text))
        } else {
            violation("integer register out of range")
        }
    }

    /// Writes the integer read leniently from a string register to an integer register.
    fn str_to_int(&mut self, d: &Reg<Int>, s: &Reg<Str<'a>>) -> (r: Result<Outcome<'a>>)
        requires
            old(self).wf(),
            old(self).pc < usize::MAX,
        ensures
            final(self).wf(),
            settles(old(self)@, execute(old(self)@, Instr::StrToInt(*d, *s)), final(self)@, r),
    {
        if s.index() < self.strs.len() {
            let v: Int = crate::convert::convert(&self.strs[s.index()]);
            self.settle_int(d, v)
        } else {
            violation("string register out of range")
        }
    }

    /// Leaves to the driver to print a floating-point register into a string register.
    fn float_to_str(&mut self, d: &Reg<Str<'a>>, s: &Reg<Float>) -> (r: Result<Outcome<'a>>)
        requires
            old(self).wf(),
            old(self).pc < usize::MAX,
        ensures
            final(self).wf(),
            settles(old(self)@, execute(old(self)@, Instr::FloatToStr(*d, *s)), final(self)@, r),
    {
        if s.index() < self.floats.len() && d.index() < self.strs.len() {
            let w = Work::FloatToStr(*d, self.floats[s.index()]);
            self.settle_work(w)
        } else {
            violation("register out of range")
        }
    }

    /// Leaves to the driver to truncate a floating-point register into an integer register.
    fn float_to_int(&mut self, d: &Reg<Int>, s: &Reg<Float>) -> (r: Result<Outcome<'a>>)
        requires
            old(self).wf(),
            old(self).pc < usize::MAX,
        ensures
            final(self).wf(),
            settles(old(self)@, execute(old(self)@, Instr::FloatToInt(*d, *s)), final(self)@, r),
    {
        if s.index() < self.floats.len() && d.index() < self.ints.len() {
            let w = Work::FloatToInt(*d, self.floats[s.index()]);
            self.settle_work(w)
        } else {
            violation("register out of range")
        }
    }

    /// Leaves to the driver to widen an integer register into a floating-point register.
    fn int_to_float(&mut self, d: &Reg<Float>, s: &Reg<Int>) -> (r: Result<Outcome<'a>>)
        requires
            old(self).wf(),
            old(self).pc < usize::MAX,
        ensures
            final(self).wf(),
            settles(old(self)@, execute(old(self)@, Instr::IntToFloat(*d, *s)), final(self)@, r),
    {
        if s.index() < self.ints.len() && d.index() < self.floats.len() {
            let w = Work::IntToFloat(*d, self.ints[s.index()]);
            self.settle_work(w)
        } else {
            violation("register out of range")
        }
    }

    /// Leaves to the driver to read a floating-point value from a string register.
    fn str_to_float(&mut self, d: &Reg<Float>, s: &Reg<Str<'a>>) -> (r: Result<Outcome<'a>>)
        requires
            old(self).wf(),
            old(self).pc < usize::MAX,
        ensures
            final(self).wf(),
            settles(old(self)@, execute(old(self)@, Instr::StrToFloat(*d, *s)), final(self)@, r),
    {
        if s.index() < self.strs.len() && d.index() < self.floats.len() {
            let w = Work::StrToFloat(*d, self.strs[s.index()].clone());
            self.settle_work(w)
        } else {
            violation("register out of range")
        }
    }

    /// Leaves the quotient of two integer registers to the driver; a zero divisor is an arithmetic error.
    fn div_int(&mut self, d: &Reg<Float>, a: &Reg<Int>, b: &Reg<Int>) -> (r: Result<Outcome<'a>>)
        requires
            old(self).wf(),
            old(self).pc < usize::MAX,
        ensures
            final(self).wf(),
            settles(old(self)@, execute(old(self)@, Instr::DivInt(*d, *a, *b)), final(self)@, r),
    {
        if a.index() < self.ints.len() && b.index() < self.ints.len() && d.index()
            < self.floats.len() {
            if self.ints[b.index()] == 0 {
                Err(VmError::new(ErrorKind::Arithmetic, String::from_str("division by zero")))
            } else {
                let w = Work::DivInt(*d, self.ints[a.index()], self.ints[b.index()]);
                self.settle_work(w)
            }
        } else {
            violation("register out of range")
        }
    }

    /// Writes `1` for a register that holds `0`, and `0` for any other.
    fn not_int(&mut self, d: &Reg<Int>, s: &Reg<Int>) -> (r: Result<Outcome<'a>>)
        requires
            old(self).wf(),
            old(self).pc < usize::MAX,
        ensures
            final(self).wf(),
            settles(old(self)@, execute(old(self)@, Instr::Not(*d, *s)), final(self)@, r),
    {
        if s.index() < self.ints.len() {
            let v = truth_of(self.ints[s.index()] == 0);
            self.settle_int(d, v)
        } else {
            violation("integer register out of range")
        }
    }

    /// Writes the negation of an integer register; the least integer negates to itself.
    fn neg_int(&mut self, d: &Reg<Int>, s: &Reg<Int>) -> (r: Result<Outcome<'a>>)
        requires
            old(self).wf(),
            old(self).pc < usize::MAX,
        ensures
            final(self).wf(),
            settles(old(self)@, execute(old(self)@, Instr::NegInt(*d, *s)), final(self)@, r),
    {
        if s.index() < self.ints.len() {
            let zero: Int = 0;
            let v = zero.wrapping_sub(self.ints[s.index()]);
            self.settle_int(d, v)
        } else {
            violation("integer register out of range")
        }
    }

    /// Writes the negation of a floating-point register.
    fn neg_float(&mut self, d: &Reg<Float>, s: &Reg<Float>) -> (r: Result<Outcome<'a>>)
        requires
            old(self).wf(),
            old(self).pc < usize::MAX,
        ensures
            final(self).wf(),
            settles(old(self)@, execute(old(self)@, Instr::NegFloat(*d, *s)), final(self)@, r),
    {
        if s.index() < self.floats.len() {
            let v = self.floats[s.index()].neg();
            self.settle_float(d, v)
        } else {
            violation("floating-point register out of range")
        }
    }

    /// Writes the lazy concatenation of two string registers.
    fn concat(&mut self, d: &Reg<Str<'a>>, a: &Reg<Str<'a>>, b: &Reg<Str<'a>>) -> (r: Result<
        Outcome<'a>,
    >)
        requires
            old(self).wf(),
            old(self).pc < usize::MAX,
        ensures
            final(self).wf(),
            settles(old(self)@, execute(old(self)@, Instr::Concat(*d, *a, *b)), final(self)@, r),
    {
        if a.index() < self.strs.len() && b.index() < self.strs.len() {
            let joined = Str::concat(self.strs[a.index()].clone(), self.strs[b.index()].clone());
            self.settle_str(d, joined)
        } else {
            violation("string register out of range")
        }
    }

    /// Writes `1` if the pattern matches anywhere in the subject, else `0`; a pattern that does not compile is a compile error.
    fn match_str(&mut self, d: &Reg<Int>, subject: &Reg<Str<'a>>, pattern: &Reg<Str<'a>>) -> (r:
        Result<Outcome<'a>>)
        requires
            old(self).wf(),
            old(self).pc < usize::MAX,
        ensures
            final(self).wf(),
            settles(
                old(self)@,
                execute(old(self)@, Instr::Match(*d, *subject, *pattern)),
                final(self)@,
                r,
            ),
    {
        if subject.index() < self.strs.len() && pattern.index() < self.strs.len() && d.index()
            < self.ints.len() {
            let found = self.regexes.match_regex(
                &self.strs[pattern.index()],
                &self.strs[subject.index()],
            );
            match found {
                Ok(b) => self.settle_int(d, truth_of(b)),
                Err(e) => Err(e),
            }
        } else {
            violation("register out of range")
        }
    }

    /// Hands the text of a string register to the driver for output.
    fn print(&mut self, s: &Reg<Str<'a>>) -> (r: Result<Outcome<'a>>)
        requires
            old(self).wf(),
            old(self).pc < usize::MAX,
        ensures
            final(self).wf(),
            settles(old(self)@, execute(old(self)@, Instr::Print(*s)), final(self)@, r),
    {
        if s.index() < self.strs.len() {
            let w = Work::Print(self.strs[s.index()].clone());
            self.settle_work(w)
        } else {
            violation("string register out of range")
        }
    }

    /// Jumps to the label if the register holds a non-zero integer, else goes on.
    fn jmp_if(&mut self, c: &Reg<Int>, label: &Label) -> (r: Result<Outcome<'a>>)
        requires
            old(self).wf(),
            old(self).pc < usize::MAX,
        ensures
            final(self).wf(),
            settles(old(self)@, execute(old(self)@, Instr::JmpIf(*c, *label)), final(self)@, r),
    {
        if c.index() < self.ints.len() {
            if self.ints[c.index()] != 0 {
                self.jump(label.0 as usize)
            } else {
                self.jump(self.pc + 1)
            }
        } else {
            violation("integer register out of range")
        }
    }

    /// Splits a string register at a separator into an integer-keyed map, under the keys from `1` on, and writes the number of pieces.
    fn split_int(
        &mut self,
        count: &Reg<Int>,
        src: &Reg<Str<'a>>,
        map: &Reg<IntMap<Str<'a>>>,
        sep: &Reg<Str<'a>>,
    ) -> (r: Result<Outcome<'a>>)
        requires
            old(self).wf(),
            old(self).pc < usize::MAX,
        ensures
            final(self).wf(),
            settles(
                old(self)@,
                execute(old(self)@, Instr::SplitInt(*count, *src, *map, *sep)),
                final(self)@,
                r,
            ),
    {
        if count.index() < self.ints.len() && src.index() < self.strs.len() && map.index()
            < self.maps_int_str.len() && sep.index() < self.strs.len() {
            let pieces = owned_pieces(&self.strs[src.index()], &self.strs[sep.index()]);
            let n = pieces.len();
            if n as u64 > 0x7fff_ffff_ffff_ffff {
                return violation("too many pieces");
            }
            fill_int_map(&mut self.maps_int_str[map.index()], &pieces);
            self.ints.set(count.index(), n as i64);
            self.pc = self.pc + 1;
            proof {
                let expected = store_pieces_int(old(self)@.int_str[at(*map)], str_texts(pieces@));
                assert(self@.int_str =~= old(self)@.int_str.update(at(*map), expected));
            }
            Ok(Outcome::Continue)
        } else {
            violation("register out of range")
        }
    }

    /// Splits a string register at a separator into a string-keyed map, under the keys from `"1"` on, and writes the number of pieces.
    fn split_str(
        &mut self,
        count: &Reg<Int>,
        src: &Reg<Str<'a>>,
        map: &Reg<StrMap<'a, Str<'a>>>,
        sep: &Reg<Str<'a>>,
    ) -> (r: Result<Outcome<'a>>)
        requires
            old(self).wf(),
            old(self).pc < usize::MAX,
        ensures
            final(self).wf(),
            settles(
                old(self)@,
                execute(old(self)@, Instr::SplitStr(*count, *src, *map, *sep)),
                final(self)@,
                r,
            ),
    {
        if count.index() < self.ints.len() && src.index() < self.strs.len() && map.index()
            < self.maps_str_str.len() && sep.index() < self.strs.len() {
            let pieces = owned_pieces(&self.strs[src.index()], &self.strs[sep.index()]);
            let n = pieces.len();
            if n as u64 > 0x7fff_ffff_ffff_ffff {
                return violation("too many pieces");
            }
            fill_str_map(&mut self.maps_str_str[map.index()], &pieces);
            self.ints.set(count.index(), n as i64);
            self.pc = self.pc + 1;
            proof {
                let expected = store_pieces_str(old(self)@.str_str[at(*map)], str_texts(pieces@));
                assert(self@.str_str =~= old(self)@.str_str.update(at(*map), expected));
            }
            Ok(Outcome::Continue)
        } else {
            violation("register out of range")
        }
    }

    /// Joins the fields into the record if a field was set since the record
    /// was last read. What the machine holds does not change.
    fn refresh_line(&mut self)
        requires
            old(self).wf(),
        ensures
            final(self).wf(),
            final(self)@ == old(self)@,
            final(self).pc == old(self).pc,
            !final(self).dirty,
            final(self).line.text() == old(self)@.line,
    {
        if self.dirty {
            self.line = join_fields(&self.fields, &self.sep);
            self.dirty = false;
        }
    }

    /// The text of column `column`.
    fn column_text(&mut self, column: Int) -> (v: Str<'a>)
        requires
            old(self).wf(),
        ensures
            final(self).wf(),
            final(self)@ == old(self)@,
            final(self).pc == old(self).pc,
            v.text() == old(self)@.column(column),
    {
        if column == 0 {
            self.refresh_line();
            self.line.clone()
        } else if 1 <= column && (column as u64) <= self.fields.len() as u64 {
            self.fields[(column - 1) as usize].clone()
        } else {
            Str::empty()
        }
    }

    /// Writes the text of the column that an integer register names.
    fn get_column(&mut self, d: &Reg<Str<'a>>, k: &Reg<Int>) -> (r: Result<Outcome<'a>>)
        requires
            old(self).wf(),
            old(self).pc < usize::MAX,
        ensures
            final(self).wf(),
            settles(old(self)@, execute(old(self)@, Instr::GetColumn(*d, *k)), final(self)@, r),
    {
        if k.index() < self.ints.len() {
            let column = self.ints[k.index()];
            let value = self.column_text(column);
            self.settle_str(d, value)
        } else {
            violation("integer register out of range")
        }
    }

    /// Replaces the record by `text` and splits it into fields.
    fn replace_line(&mut self, text: Str<'a>)
        requires
            old(self).wf(),
        ensures
            final(self).wf(),
            final(self)@ == (Machine {
                line: text.text(),
                fields: split_spec(text.text(), old(self)@.sep),
                ..old(self)@
            }),
            final(self).pc == old(self).pc,
    {
        self.fields = owned_pieces(&text, &self.sep);
        self.line = text;
        self.dirty = false;
    }

    /// Sets the field `column`, which is at least `1`, to `text`.
    fn replace_field(&mut self, column: usize, text: Str<'a>)
        requires
            old(self).wf(),
            column >= 1,
        ensures
            final(self).wf(),
            final(self)@ == (Machine {
                line: join_spec(with_field(old(self)@.fields, column as int, text.text()), old(self)@.sep),
                fields: with_field(old(self)@.fields, column as int, text.text()),
                ..old(self)@
            }),
            final(self).pc == old(self).pc,
    {
        let ghost before = str_texts(self.fields@);
        while self.fields.len() < column
            invariant
                self.wf(),
                self.pc == old(self).pc,
                before.len() <= self.fields@.len(),
                self.fields@.len() <= column || self.fields@.len() == before.len(),
                forall|i: int| 0 <= i < before.len() ==> (#[trigger] self.fields@[i]).text() == before[i],
                forall|i: int|
                    before.len() <= i < self.fields@.len() ==> (#[trigger] self.fields@[i]).text()
                        == Seq::<char>::empty(),
                self@ == (Machine {
                    line: self@.line,
                    fields: self@.fields,
                    ..old(self)@
                }),
            decreases column - self.fields@.len(),
        {
            self.fields.push(Str::empty());
        }
        self.fields.set(column - 1, text);
        self.dirty = true;
        proof {
            assert(str_texts(self.fields@) =~= with_field(before, column as int, text.text()));
        }
    }

    /// Sets the column that an integer register names to the text of a string register.
    fn set_column(&mut self, k: &Reg<Int>, s: &Reg<Str<'a>>) -> (r: Result<Outcome<'a>>)
        requires
            old(self).wf(),
            old(self).pc < usize::MAX,
        ensures
            final(self).wf(),
            settles(old(self)@, execute(old(self)@, Instr::SetColumn(*k, *s)), final(self)@, r),
    {
        if k.index() < self.ints.len() && s.index() < self.strs.len() {
            let column = self.ints[k.index()];
            let text = self.strs[s.index()].clone();
            if column < 0 || column > MAX_COLUMN {
                violation("column out of range")
            } else if column == 0 {
                self.replace_line(text);
                self.pc = self.pc + 1;
                Ok(Outcome::Continue)
            } else {
                self.replace_field(column as usize, text);
                self.pc = self.pc + 1;
                Ok(Outcome::Continue)
            }
        } else {
            violation("register out of range")
        }
    }

    /// Executes the instruction `instr`.
    fn apply(&mut self, instr: &Instr<'a>) -> (r: Result<Outcome<'a>>)
        requires
            old(self).wf(),
            old(self).pc < usize::MAX,
        ensures
            final(self).wf(),
            settles(old(self)@, execute(old(self)@, *instr), final(self)@, r),
    {
        match instr {
            Instr::StoreConstStr(a0, a1) => self.settle_str(a0, a1.clone()),
            Instr::StoreConstInt(a0, a1) => self.settle_int(a0, *a1),
            Instr::StoreConstFloat(a0, a1) => self.settle_float(a0, *a1),
            Instr::IntToStr(a0, a1) => self.int_to_str(a0, a1),
            Instr::FloatToStr(a0, a1) => self.float_to_str(a0, a1),
            Instr::StrToInt(a0, a1) => self.str_to_int(a0, a1),
            Instr::FloatToInt(a0, a1) => self.float_to_int(a0, a1),
            Instr::IntToFloat(a0, a1) => self.int_to_float(a0, a1),
            Instr::StrToFloat(a0, a1) => self.str_to_float(a0, a1),
            Instr::AddInt(a0, a1, a2) => self.int_binary(a0, a1, a2, IntOp::Add),
            Instr::AddFloat(a0, a1, a2) => self.float_binary(a0, a1, a2, FloatOp::Add),
            Instr::MulFloat(a0, a1, a2) => self.float_binary(a0, a1, a2, FloatOp::Mul),
            Instr::MulInt(a0, a1, a2) => self.int_binary(a0, a1, a2, IntOp::Mul),
            Instr::DivFloat(a0, a1, a2) => self.float_binary(a0, a1, a2, FloatOp::Div),
            Instr::DivInt(a0, a1, a2) => self.div_int(a0, a1, a2),
            Instr::MinusFloat(a0, a1, a2) => self.float_binary(a0, a1, a2, FloatOp::Sub),
            Instr::MinusInt(a0, a1, a2) => self.int_binary(a0, a1, a2, IntOp::Sub),
            Instr::ModFloat(a0, a1, a2) => self.float_binary(a0, a1, a2, FloatOp::Mod),
            Instr::ModInt(a0, a1, a2) => self.int_binary(a0, a1, a2, IntOp::Mod),
            Instr::Not(a0, a1) => self.not_int(a0, a1),
            Instr::NegInt(a0, a1) => self.neg_int(a0, a1),
            Instr::NegFloat(a0, a1) => self.neg_float(a0, a1),
            Instr::Concat(a0, a1, a2) => self.concat(a0, a1, a2),
            Instr::Match(a0, a1, a2) => self.match_str(a0, a1, a2),
            Instr::LTFloat(a0, a1, a2) => self.float_compare(a0, a1, a2, CmpOp::Lt),
            Instr::LTInt(a0, a1, a2) => self.int_binary(a0, a1, a2, IntOp::Compare(CmpOp::Lt)),
            Instr::LTStr(a0, a1, a2) => self.str_compare(a0, a1, a2, CmpOp::Lt),
            Instr::GTFloat(a0, a1, a2) => self.float_compare(a0, a1, a2, CmpOp::Gt),
            Instr::GTInt(a0, a1, a2) => self.int_binary(a0, a1, a2, IntOp::Compare(CmpOp::Gt)),
            Instr::GTStr(a0, a1, a2) => self.str_compare(a0, a1, a2, CmpOp::Gt),
            Instr::LTEFloat(a0, a1, a2) => self.float_compare(a0, a1, a2, CmpOp::Lte),
            Instr::LTEInt(a0, a1, a2) => self.int_binary(a0, a1, a2, IntOp::Compare(CmpOp::Lte)),
            Instr::LTEStr(a0, a1, a2) => self.str_compare(a0, a1, a2, CmpOp::Lte),
            Instr::GTEFloat(a0, a1, a2) => self.float_compare(a0, a1, a2, CmpOp::Gte),
            Instr::GTEInt(a0, a1, a2) => self.int_binary(a0, a1, a2, IntOp::Compare(CmpOp::Gte)),
            Instr::GTEStr(a0, a1, a2) => self.str_compare(a0, a1, a2, CmpOp::Gte),
            Instr::EQFloat(a0, a1, a2) => self.float_compare(a0, a1, a2, CmpOp::Eq),
            Instr::EQInt(a0, a1, a2) => self.int_binary(a0, a1, a2, IntOp::Compare(CmpOp::Eq)),
            Instr::EQStr(a0, a1, a2) => self.str_compare(a0, a1, a2, CmpOp::Eq),
            Instr::SetColumn(a0, a1) => self.set_column(a0, a1),
            Instr::GetColumn(a0, a1) => self.get_column(a0, a1),
            Instr::SplitInt(a0, a1, a2, a3) => self.split_int(a0, a1, a2, a3),
            Instr::SplitStr(a0, a1, a2, a3) => self.split_str(a0, a1, a2, a3),
            Instr::LookupIntInt(a0, a1, a2) => self.lookup_int_int(a0, a1, a2),
            Instr::LookupIntStr(a0, a1, a2) => self.lookup_int_str(a0, a1, a2),
            Instr::LookupIntFloat(a0, a1, a2) => self.lookup_int_float(a0, a1, a2),
            Instr::LookupStrInt(a0, a1, a2) => self.lookup_str_int(a0, a1, a2),
            Instr::LookupStrStr(a0, a1, a2) => self.lookup_str_str(a0, a1, a2),
            Instr::LookupStrFloat(a0, a1, a2) => self.lookup_str_float(a0, a1, a2),
            Instr::ContainsIntInt(a0, a1, a2) => self.contains_int_int(a0, a1, a2),
            Instr::ContainsIntStr(a0, a1, a2) => self.contains_int_str(a0, a1, a2),
            Instr::ContainsIntFloat(a0, a1, a2) => self.contains_int_float(a0, a1, a2),
            Instr::ContainsStrInt(a0, a1, a2) => self.contains_str_int(a0, a1, a2),
            Instr::ContainsStrStr(a0, a1, a2) => self.contains_str_str(a0, a1, a2),
            Instr::ContainsStrFloat(a0, a1, a2) => self.contains_str_float(a0, a1, a2),
            Instr::IterBeginIntInt(a0, a1) => self.iter_begin_int_int(a0, a1),
            Instr::IterBeginIntStr(a0, a1) => self.iter_begin_int_str(a0, a1),
            Instr::IterBeginIntFloat(a0, a1) => self.iter_begin_int_float(a0, a1),
            Instr::IterBeginStrInt(a0, a1) => self.iter_begin_str_int(a0, a1),
            Instr::IterBeginStrStr(a0, a1) => self.iter_begin_str_str(a0, a1),
            Instr::IterBeginStrFloat(a0, a1) => self.iter_begin_str_float(a0, a1),
            Instr::StoreIntInt(a0, a1, a2) => self.store_int_int(a0, a1, a2),
            Instr::StoreIntStr(a0, a1, a2) => self.store_int_str(a0, a1, a2),
            Instr::StoreIntFloat(a0, a1, a2) => self.store_int_float(a0, a1, a2),
            Instr::StoreStrInt(a0, a1, a2) => self.store_str_int(a0, a1, a2),
            Instr::StoreStrStr(a0, a1, a2) => self.store_str_str(a0, a1, a2),
            Instr::StoreStrFloat(a0, a1, a2) => self.store_str_float(a0, a1, a2),
            Instr::Print(a0) => self.print(a0),
            Instr::JmpIf(a0, a1) => self.jmp_if(a0, a1),
            Instr::Jmp(a0) => self.jump(a0.0 as usize),
            Instr::Halt => Ok(Outcome::Halt),
        }
    }

    /// Executes the instruction of `program` at the program counter.
    pub fn step(&mut self, program: &Vec<Instr<'a>>) -> (r: Result<Outcome<'a>>)
        requires
            old(self).wf(),
        ensures
            final(self).wf(),
            settles(old(self)@, step_spec(old(self)@, program@), final(self)@, r),
    {
        if self.pc < program.len() {
            self.apply(&program[self.pc])
        } else {
            violation("program counter out of range")
        }
    }

    /// Executes instructions of `program` until one halts, fails or leaves
    /// work to the driver, but no more than `fuel` of them. `Continue` means
    /// that the fuel ran out.
    pub fn run(&mut self, program: &Vec<Instr<'a>>, fuel: u64) -> (r: Result<Outcome<'a>>)
        requires
            old(self).wf(),
        ensures
            final(self).wf(),
            settles(
                run_spec(old(self)@, program@, fuel as nat).0,
                run_spec(old(self)@, program@, fuel as nat).1,
                final(self)@,
                r,
            ),
    {
        let mut left = fuel;
        while left > 0
            invariant
                self.wf(),
                run_spec(self@, program@, left as nat) == run_spec(
                    old(self)@,
                    program@,
                    fuel as nat,
                ),
            decreases left,
        {
            let r = self.step(program);
            match r {
                Ok(Outcome::Continue) => {
                    left = left - 1;
                },
                other => {
                    return other;
                },
            }
        }
        Ok(Outcome::Continue)
    }

    /// An interpreter with the given numbers of registers, which splits and
    /// joins records at `sep`.
    pub fn new(counts: &RegCounts, sep: Str<'a>) -> (vm: Self)
        ensures
            vm.wf(),
            vm@ == Machine::fresh(*counts, sep.text()),
    {
        let vm = Interp {
            floats: filled(counts.floats, Float::zero),
            ints: filled(counts.ints, zero_int),
            strs: filled(counts.strs, Str::empty),
            maps_int_float: filled(counts.maps_int_float, IntMap::new),
            maps_int_int: filled(counts.maps_int_int, IntMap::new),
            maps_int_str: filled(counts.maps_int_str, IntMap::new),
            maps_str_float: filled(counts.maps_str_float, StrMap::new),
            maps_str_int: filled(counts.maps_str_int, StrMap::new),
            maps_str_str: filled(counts.maps_str_str, StrMap::new),
            iters_int: filled(counts.iters_int, Iter::empty),
            iters_float: filled(counts.iters_float, Iter::empty),
            iters_str: filled(counts.iters_str, Iter::empty),
            regexes: RegexCache::default(),
            line: Str::empty(),
            fields: Vec::new(),
            dirty: false,
            sep,
            pc: 0,
        };
        proof {
            let m = Machine::fresh(*counts, sep.text());
            assert(vm@.ints =~= m.ints);
            assert(vm@.floats =~= m.floats);
            assert(vm@.strs =~= m.strs);
            assert(vm@.int_int =~= m.int_int);
            assert(vm@.int_float =~= m.int_float);
            assert(vm@.int_str =~= m.int_str) by {
                assert forall|i: int| 0 <= i < m.int_str.len() implies vm@.int_str[i] == m.int_str[i] by {
                    assert(vm@.int_str[i].entries =~= m.int_str[i].entries);
                }
            }
            assert(vm@.str_int =~= m.str_int);
            assert(vm@.str_float =~= m.str_float);
            assert(vm@.str_str =~= m.str_str) by {
                assert forall|i: int| 0 <= i < m.str_str.len() implies vm@.str_str[i] == m.str_str[i] by {
                    assert(vm@.str_str[i].entries =~= m.str_str[i].entries);
                }
            }
            assert(vm@.int_iters =~= m.int_iters);
            assert(vm@.float_iters =~= m.float_iters);
            assert(vm@.str_iters =~= m.str_iters);
            assert(vm@.fields =~= m.fields);
        }
        vm
    }

    /// Moves the program counter back to the first instruction, for the
    /// next run of the program. Registers, maps and the record stay.
    pub fn rewind(&mut self)
        requires
            old(self).wf(),
        ensures
            final(self).wf(),
            final(self)@ == (Machine { pc: 0, ..old(self)@ }),
    {
        self.pc = 0;
    }

    /// Makes `line` the current record and splits it into fields.
    pub fn set_record(&mut self, line: Str<'a>)
        requires
            old(self).wf(),
        ensures
            final(self).wf(),
            final(self)@ == (Machine {
                line: line.text(),
                fields: split_spec(line.text(), old(self)@.sep),
                ..old(self)@
            }),
    {
        self.replace_line(line)
    }

    /// The text of column `k` of the current record: the whole record for
    /// `0`, the empty string for a number that names no field.
    pub fn column(&mut self, k: Int) -> (v: Str<'a>)
        requires
            old(self).wf(),
        ensures
            final(self).wf(),
            final(self)@ == old(self)@,
            v.text() == old(self)@.column(k),
    {
        self.column_text(k)
    }
}

} // verus!
