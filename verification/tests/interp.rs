use record_vm::common::{ErrorKind, VmError};
use record_vm::convert::Int;
use record_vm::float::Float;
use record_vm::instr::{Instr, Label, Reg};
use record_vm::interp::{Get, Interp, Outcome, Work};
use record_vm::lazy_str::Str;
use record_vm::machine::{CmpOp, FloatOp, RegCounts};
use record_vm::maps::{IntMap, Iter, StrMap};
use record_vm::strton::scan_float;

fn counts(n: usize) -> RegCounts {
    RegCounts {
        ints: n,
        floats: n,
        strs: n,
        maps_int_int: n,
        maps_int_float: n,
        maps_int_str: n,
        maps_str_int: n,
        maps_str_float: n,
        maps_str_str: n,
        iters_int: n,
        iters_float: n,
        iters_str: n,
    }
}

fn machine<'a>() -> Interp<'a> {
    Interp::new(&counts(8), Str::from(" "))
}

fn ireg(i: u32) -> Reg<Int> {
    Reg::new(i)
}

fn freg(i: u32) -> Reg<Float> {
    Reg::new(i)
}

fn sreg<'a>(i: u32) -> Reg<Str<'a>> {
    Reg::new(i)
}

fn bits(f: f64) -> Float {
    Float::from_bits(f.to_bits())
}

fn value(f: Float) -> f64 {
    f64::from_bits(f.bits)
}

fn lenient_float(text: &str) -> f64 {
    let (start, end) = scan_float(text.as_bytes());
    text[start..end].parse().unwrap_or(0.0)
}

fn do_work<'a>(vm: &mut Interp<'a>, work: Work<'a>, out: &mut Vec<String>) {
    match work {
        Work::Arith(d, op, a, b) => {
            let (a, b) = (value(a), value(b));
            let r = match op {
                FloatOp::Add => a + b,
                FloatOp::Sub => a - b,
                FloatOp::Mul => a * b,
                FloatOp::Div => a / b,
                FloatOp::Mod => a % b,
            };
            *vm.get_mut(d) = bits(r);
        }
        Work::DivInt(d, a, b) => {
            *vm.get_mut(d) = bits(a as f64 / b as f64);
        }
        Work::Compare(d, op, a, b) => {
            let (a, b) = (value(a), value(b));
            let r = match op {
                CmpOp::Lt => a < b,
                CmpOp::Gt => a > b,
                CmpOp::Lte => a <= b,
                CmpOp::Gte => a >= b,
                CmpOp::Eq => a == b,
            };
            *vm.get_mut(d) = r as Int;
        }
        Work::IntToFloat(d, v) => {
            *vm.get_mut(d) = bits(v as f64);
        }
        Work::FloatToInt(d, v) => {
            *vm.get_mut(d) = value(v) as Int;
        }
        Work::FloatToStr(d, v) => {
            let mut buffer = ryu::Buffer::new();
            let text = String::from(buffer.format(value(v)));
            *vm.get_mut(d) = Str::from(text);
        }
        Work::StrToFloat(d, s) => {
            *vm.get_mut(d) = bits(lenient_float(&s.flatten()));
        }
        Work::Print(s) => out.push(s.flatten()),
    }
}

fn drive<'a>(
    vm: &mut Interp<'a>,
    program: &Vec<Instr<'a>>,
    out: &mut Vec<String>,
) -> Result<(), VmError> {
    loop {
        match vm.run(program, 1000)? {
            Outcome::Continue => panic!("the program does not end"),
            Outcome::Halt => return Ok(()),
            Outcome::Work(work) => do_work(vm, work, out),
        }
    }
}

#[test]
fn hello_sets_the_record() {
    let mut vm = machine();
    let program = vec![
        Instr::StoreConstStr(sreg(0), Str::from("hi")),
        Instr::SetColumn(ireg(0), sreg(0)),
        Instr::Halt,
    ];
    let mut out = Vec::new();
    drive(&mut vm, &program, &mut out).unwrap();
    assert_eq!(vm.column(0).flatten(), "hi");
    assert_eq!(vm.column(1).flatten(), "hi");
    assert!(out.is_empty());
}

#[test]
fn sum_of_ints_is_printed() {
    let mut vm = machine();
    let program = vec![
        Instr::StoreConstInt(ireg(0), 2),
        Instr::StoreConstInt(ireg(1), 3),
        Instr::AddInt(ireg(2), ireg(0), ireg(1)),
        Instr::IntToStr(sreg(3), ireg(2)),
        Instr::Print(sreg(3)),
        Instr::Halt,
    ];
    let mut out = Vec::new();
    drive(&mut vm, &program, &mut out).unwrap();
    assert_eq!(out, vec![String::from("5")]);
    assert_eq!(*vm.get(ireg(2)), 5);
}

#[test]
fn regex_counts_matching_lines() {
    let mut vm = machine();
    let per_line = vec![
        Instr::StoreConstStr(sreg(1), Str::from("foo")),
        Instr::GetColumn(sreg(0), ireg(7)),
        Instr::Match(ireg(1), sreg(0), sreg(1)),
        Instr::AddInt(ireg(0), ireg(0), ireg(1)),
        Instr::Halt,
    ];
    let mut out = Vec::new();
    for line in "foo\nbar\nfood\n".lines() {
        vm.set_record(Str::from(line));
        vm.rewind();
        drive(&mut vm, &per_line, &mut out).unwrap();
    }
    assert!(out.is_empty());
    let at_end = vec![Instr::IntToStr(sreg(2), ireg(0)), Instr::Print(sreg(2)), Instr::Halt];
    vm.rewind();
    drive(&mut vm, &at_end, &mut out).unwrap();
    assert_eq!(out, vec![String::from("2")]);
}

#[test]
fn split_fills_both_kinds_of_map() {
    let mut vm = machine();
    let program = vec![
        Instr::StoreConstStr(sreg(0), Str::from("a,b,,c")),
        Instr::StoreConstStr(sreg(1), Str::from(",")),
        Instr::SplitStr(ireg(0), sreg(0), Reg::new(2), sreg(1)),
        Instr::SplitInt(ireg(1), sreg(0), Reg::new(3), sreg(1)),
        Instr::Halt,
    ];
    let mut out = Vec::new();
    drive(&mut vm, &program, &mut out).unwrap();
    assert_eq!(*vm.get(ireg(0)), 4);
    assert_eq!(*vm.get(ireg(1)), 4);
    let by_str: &StrMap<Str> = vm.get(Reg::new(2));
    assert_eq!(by_str.len(), 4);
    for (key, expected) in [("1", "a"), ("2", "b"), ("3", ""), ("4", "c")] {
        assert_eq!(by_str.get(&Str::from(key)).unwrap().flatten(), expected);
    }
    assert!(by_str.get(&Str::from("0")).is_none());
    assert!(by_str.get(&Str::from("5")).is_none());
    let by_int: &IntMap<Str> = vm.get(Reg::new(3));
    assert_eq!(by_int.len(), 4);
    for (key, expected) in [(1, "a"), (2, "b"), (3, ""), (4, "c")] {
        assert_eq!(by_int.get(key).unwrap().flatten(), expected);
    }
    assert!(!by_int.contains(0));
    assert!(!by_int.contains(5));
}

#[test]
fn division_of_ints_gives_a_float() {
    let mut vm = machine();
    let program = vec![
        Instr::StoreConstInt(ireg(0), 7),
        Instr::StoreConstInt(ireg(1), 2),
        Instr::DivInt(freg(0), ireg(0), ireg(1)),
        Instr::FloatToStr(sreg(0), freg(0)),
        Instr::Halt,
    ];
    let mut out = Vec::new();
    drive(&mut vm, &program, &mut out).unwrap();
    assert_eq!(value(*vm.get(freg(0))), 3.5);
    assert_eq!(vm.get(sreg(0)).flatten(), "3.5");
}

#[test]
fn modulo_zero_is_fatal() {
    let mut vm = machine();
    let program = vec![
        Instr::StoreConstInt(ireg(5), 5),
        Instr::StoreConstInt(ireg(0), 0),
        Instr::ModInt(ireg(1), ireg(5), ireg(0)),
        Instr::Halt,
    ];
    let mut out = Vec::new();
    let e = drive(&mut vm, &program, &mut out).err().unwrap();
    assert_eq!(e.kind, ErrorKind::Arithmetic);
    assert_eq!(*vm.get(ireg(1)), 0);
    let mut vm = machine();
    let division = vec![
        Instr::StoreConstInt(ireg(5), 5),
        Instr::DivInt(freg(0), ireg(5), ireg(0)),
        Instr::Halt,
    ];
    let e = drive(&mut vm, &division, &mut out).err().unwrap();
    assert_eq!(e.kind, ErrorKind::Arithmetic);
}

#[test]
fn integer_arithmetic_wraps() {
    let mut vm = machine();
    let program = vec![
        Instr::StoreConstInt(ireg(0), i64::MAX),
        Instr::StoreConstInt(ireg(1), 1),
        Instr::AddInt(ireg(2), ireg(0), ireg(1)),
        Instr::StoreConstInt(ireg(3), i64::MIN),
        Instr::MinusInt(ireg(4), ireg(3), ireg(1)),
        Instr::MulInt(ireg(5), ireg(0), ireg(0)),
        Instr::NegInt(ireg(6), ireg(3)),
        Instr::StoreConstInt(ireg(7), -1),
        Instr::ModInt(ireg(7), ireg(3), ireg(7)),
        Instr::Halt,
    ];
    let mut out = Vec::new();
    drive(&mut vm, &program, &mut out).unwrap();
    assert_eq!(*vm.get(ireg(2)), i64::MIN);
    assert_eq!(*vm.get(ireg(4)), i64::MAX);
    assert_eq!(*vm.get(ireg(5)), 1);
    assert_eq!(*vm.get(ireg(6)), i64::MIN);
    assert_eq!(*vm.get(ireg(7)), 0);
}

#[test]
fn remainder_takes_the_sign_of_the_dividend() {
    for (a, b, expected) in [(7, 2, 1), (-7, 2, -1), (7, -2, 1), (-7, -2, -1), (0, 5, 0), (6, 3, 0)] {
        let mut vm = machine();
        let program = vec![
            Instr::StoreConstInt(ireg(0), a),
            Instr::StoreConstInt(ireg(1), b),
            Instr::ModInt(ireg(2), ireg(0), ireg(1)),
            Instr::Halt,
        ];
        let mut out = Vec::new();
        drive(&mut vm, &program, &mut out).unwrap();
        assert_eq!(*vm.get(ireg(2)), expected);
    }
}

#[test]
fn not_is_logical() {
    let mut vm = machine();
    let program = vec![
        Instr::StoreConstInt(ireg(0), 0),
        Instr::StoreConstInt(ireg(1), 1),
        Instr::StoreConstInt(ireg(2), -17),
        Instr::Not(ireg(3), ireg(0)),
        Instr::Not(ireg(4), ireg(1)),
        Instr::Not(ireg(5), ireg(2)),
        Instr::Halt,
    ];
    let mut out = Vec::new();
    drive(&mut vm, &program, &mut out).unwrap();
    assert_eq!(*vm.get(ireg(3)), 1);
    assert_eq!(*vm.get(ireg(4)), 0);
    assert_eq!(*vm.get(ireg(5)), 0);
}

#[test]
fn comparisons_write_one_or_zero() {
    let mut vm = machine();
    let program = vec![
        Instr::StoreConstInt(ireg(0), 2),
        Instr::StoreConstInt(ireg(1), 3),
        Instr::LTInt(ireg(2), ireg(0), ireg(1)),
        Instr::GTInt(ireg(3), ireg(0), ireg(1)),
        Instr::LTEInt(ireg(4), ireg(1), ireg(1)),
        Instr::GTEInt(ireg(5), ireg(0), ireg(1)),
        Instr::EQInt(ireg(6), ireg(1), ireg(1)),
        Instr::StoreConstStr(sreg(0), Str::from("abc")),
        Instr::StoreConstStr(sreg(1), Str::from("abd")),
        Instr::StoreConstStr(sreg(2), Str::from("ab")),
        Instr::Concat(sreg(3), sreg(2), sreg(2)),
        Instr::Halt,
    ];
    let mut out = Vec::new();
    drive(&mut vm, &program, &mut out).unwrap();
    let got: Vec<Int> = (2..7).map(|i| *vm.get(ireg(i))).collect();
    assert_eq!(got, vec![1, 0, 1, 0, 1]);
    let cases = [
        (0, 1, [1, 0, 1, 0, 0]),
        (1, 0, [0, 1, 0, 1, 0]),
        (0, 0, [0, 0, 1, 1, 1]),
        (2, 0, [1, 0, 1, 0, 0]),
        (3, 0, [1, 0, 1, 0, 0]),
        (0, 3, [0, 1, 0, 1, 0]),
    ];
    for (a, b, expected) in cases {
        let compare = vec![
            Instr::LTStr(ireg(0), sreg(a), sreg(b)),
            Instr::GTStr(ireg(1), sreg(a), sreg(b)),
            Instr::LTEStr(ireg(2), sreg(a), sreg(b)),
            Instr::GTEStr(ireg(3), sreg(a), sreg(b)),
            Instr::EQStr(ireg(4), sreg(a), sreg(b)),
            Instr::Halt,
        ];
        let mut next = Interp::new(&counts(8), Str::from(" "));
        for i in 0..4 {
            *next.get_mut(sreg(i)) = vm.get(sreg(i)).clone();
        }
        drive(&mut next, &compare, &mut out).unwrap();
        let got: Vec<Int> = (0..5).map(|i| *next.get(ireg(i))).collect();
        assert_eq!(got, expected.to_vec());
    }
}

#[test]
fn jumps_branch_as_specified() {
    let mut vm = machine();
    let program = vec![
        Instr::StoreConstInt(ireg(0), 3),
        Instr::StoreConstInt(ireg(1), 0),
        Instr::StoreConstInt(ireg(2), -1),
        // loop: r1 += 1; r0 += -1; if r0 != 0 goto loop
        Instr::MinusInt(ireg(1), ireg(1), ireg(2)),
        Instr::AddInt(ireg(0), ireg(0), ireg(2)),
        Instr::JmpIf(ireg(0), Label(3)),
        Instr::Jmp(Label(8)),
        Instr::StoreConstInt(ireg(1), 100),
        Instr::Halt,
    ];
    let mut out = Vec::new();
    drive(&mut vm, &program, &mut out).unwrap();
    assert_eq!(*vm.get(ireg(0)), 0);
    assert_eq!(*vm.get(ireg(1)), 3);
}

#[test]
fn a_jump_not_taken_falls_through() {
    let mut vm = machine();
    let program = vec![
        Instr::JmpIf(ireg(0), Label(2)),
        Instr::StoreConstInt(ireg(1), 7),
        Instr::Halt,
    ];
    assert!(matches!(vm.step(&program), Ok(Outcome::Continue)));
    assert!(matches!(vm.step(&program), Ok(Outcome::Continue)));
    assert_eq!(*vm.get(ireg(1)), 7);
    assert!(matches!(vm.step(&program), Ok(Outcome::Halt)));
}

#[test]
fn running_off_the_end_is_fatal() {
    let mut vm = machine();
    let program = vec![Instr::StoreConstInt(ireg(0), 1)];
    assert_eq!(vm.run(&program, 10).err().unwrap().kind, ErrorKind::Invariant);
    let mut vm = machine();
    let unknown_label = vec![Instr::Jmp(Label(9)), Instr::Halt];
    assert_eq!(vm.run(&unknown_label, 10).err().unwrap().kind, ErrorKind::Invariant);
    let mut vm = machine();
    let empty: Vec<Instr> = Vec::new();
    assert_eq!(vm.step(&empty).err().unwrap().kind, ErrorKind::Invariant);
}

#[test]
fn a_register_out_of_range_is_fatal() {
    let programs = vec![
        vec![Instr::StoreConstInt(ireg(8), 1)],
        vec![Instr::AddInt(ireg(0), ireg(1), ireg(99))],
        vec![Instr::StoreConstStr(sreg(8), Str::from("x"))],
        vec![Instr::StoreConstFloat(freg(8), bits(1.0))],
        vec![Instr::LookupIntInt(ireg(0), Reg::new(8), ireg(0))],
        vec![Instr::StoreStrStr(Reg::new(0), sreg(8), sreg(0))],
        vec![Instr::IterBeginIntInt(Reg::new(8), Reg::new(0))],
        vec![Instr::AddFloat(freg(0), freg(8), freg(0))],
        vec![Instr::Print(sreg(8))],
        vec![Instr::JmpIf(ireg(8), Label(0))],
    ];
    for program in programs {
        let mut vm = machine();
        assert_eq!(vm.step(&program).err().unwrap().kind, ErrorKind::Invariant);
    }
}

#[test]
fn the_fuel_bounds_a_run() {
    let mut vm = machine();
    let forever = vec![Instr::AddInt(ireg(0), ireg(0), ireg(1)), Instr::Jmp(Label(0))];
    *vm.get_mut(ireg(1)) = 1;
    assert!(matches!(vm.run(&forever, 10), Ok(Outcome::Continue)));
    assert_eq!(*vm.get(ireg(0)), 5);
    assert!(matches!(vm.run(&forever, 0), Ok(Outcome::Continue)));
    assert_eq!(*vm.get(ireg(0)), 5);
    assert!(matches!(vm.run(&forever, 1), Ok(Outcome::Continue)));
    assert_eq!(*vm.get(ireg(0)), 6);
}

#[test]
fn lookup_of_a_missing_key_gives_zero() {
    let mut vm = machine();
    let program = vec![
        Instr::StoreConstInt(ireg(0), 42),
        Instr::StoreConstInt(ireg(1), 9),
        Instr::StoreConstStr(sreg(0), Str::from("key")),
        Instr::StoreConstStr(sreg(1), Str::from("filler")),
        Instr::StoreConstFloat(freg(0), bits(2.5)),
        Instr::LookupIntInt(ireg(1), Reg::new(0), ireg(0)),
        Instr::LookupIntStr(sreg(1), Reg::new(0), ireg(0)),
        Instr::LookupIntFloat(freg(0), Reg::new(0), ireg(0)),
        Instr::ContainsIntInt(ireg(2), Reg::new(0), ireg(0)),
        Instr::ContainsIntStr(ireg(3), Reg::new(0), ireg(0)),
        Instr::ContainsIntFloat(ireg(4), Reg::new(0), ireg(0)),
        Instr::StoreConstInt(ireg(5), 9),
        Instr::StoreConstStr(sreg(2), Str::from("filler")),
        Instr::StoreConstFloat(freg(1), bits(2.5)),
        Instr::LookupStrInt(ireg(5), Reg::new(0), sreg(0)),
        Instr::LookupStrStr(sreg(2), Reg::new(0), sreg(0)),
        Instr::LookupStrFloat(freg(1), Reg::new(0), sreg(0)),
        Instr::ContainsStrInt(ireg(6), Reg::new(0), sreg(0)),
        Instr::ContainsStrStr(ireg(7), Reg::new(0), sreg(0)),
        Instr::Halt,
    ];
    let mut out = Vec::new();
    drive(&mut vm, &program, &mut out).unwrap();
    assert_eq!(*vm.get(ireg(1)), 0);
    assert_eq!(vm.get(sreg(1)).flatten(), "");
    assert_eq!(vm.get(freg(0)).bits, 0);
    assert_eq!(*vm.get(ireg(2)), 0);
    assert_eq!(*vm.get(ireg(3)), 0);
    assert_eq!(*vm.get(ireg(4)), 0);
    assert_eq!(*vm.get(ireg(5)), 0);
    assert_eq!(vm.get(sreg(2)).flatten(), "");
    assert_eq!(vm.get(freg(1)).bits, 0);
    assert_eq!(*vm.get(ireg(6)), 0);
    assert_eq!(*vm.get(ireg(7)), 0);
}

#[test]
fn stores_are_found_again() {
    let mut vm = machine();
    let program = vec![
        Instr::StoreConstInt(ireg(0), 42),
        Instr::StoreConstInt(ireg(1), 9),
        Instr::StoreConstStr(sreg(0), Str::from("key")),
        Instr::StoreConstStr(sreg(1), Str::from("value")),
        Instr::StoreConstFloat(freg(0), bits(2.5)),
        Instr::StoreIntInt(Reg::new(0), ireg(0), ireg(1)),
        Instr::StoreIntStr(Reg::new(0), ireg(0), sreg(1)),
        Instr::StoreIntFloat(Reg::new(0), ireg(0), freg(0)),
        Instr::StoreStrInt(Reg::new(0), sreg(0), ireg(1)),
        Instr::StoreStrStr(Reg::new(0), sreg(0), sreg(1)),
        Instr::StoreStrFloat(Reg::new(0), sreg(0), freg(0)),
        Instr::Concat(sreg(2), sreg(0), sreg(3)),
        Instr::LookupIntInt(ireg(2), Reg::new(0), ireg(0)),
        Instr::LookupIntStr(sreg(4), Reg::new(0), ireg(0)),
        Instr::LookupIntFloat(freg(1), Reg::new(0), ireg(0)),
        Instr::LookupStrInt(ireg(3), Reg::new(0), sreg(2)),
        Instr::LookupStrStr(sreg(5), Reg::new(0), sreg(2)),
        Instr::LookupStrFloat(freg(2), Reg::new(0), sreg(2)),
        Instr::ContainsIntInt(ireg(4), Reg::new(0), ireg(0)),
        Instr::ContainsStrFloat(ireg(5), Reg::new(0), sreg(2)),
        Instr::ContainsIntInt(ireg(6), Reg::new(1), ireg(0)),
        Instr::StoreConstInt(ireg(1), 10),
        Instr::StoreIntInt(Reg::new(0), ireg(0), ireg(1)),
        Instr::LookupIntInt(ireg(7), Reg::new(0), ireg(0)),
        Instr::Halt,
    ];
    let mut out = Vec::new();
    drive(&mut vm, &program, &mut out).unwrap();
    assert_eq!(*vm.get(ireg(2)), 9);
    assert_eq!(vm.get(sreg(4)).flatten(), "value");
    assert_eq!(value(*vm.get(freg(1))), 2.5);
    assert_eq!(*vm.get(ireg(3)), 9);
    assert_eq!(vm.get(sreg(5)).flatten(), "value");
    assert_eq!(value(*vm.get(freg(2))), 2.5);
    assert_eq!(*vm.get(ireg(4)), 1);
    assert_eq!(*vm.get(ireg(5)), 1);
    assert_eq!(*vm.get(ireg(6)), 0);
    assert_eq!(*vm.get(ireg(7)), 10);
}

#[test]
fn floating_point_work_goes_to_the_driver() {
    let mut vm = machine();
    let program = vec![
        Instr::StoreConstFloat(freg(0), bits(1.5)),
        Instr::StoreConstFloat(freg(1), bits(0.25)),
        Instr::AddFloat(freg(2), freg(0), freg(1)),
        Instr::MinusFloat(freg(3), freg(0), freg(1)),
        Instr::MulFloat(freg(4), freg(0), freg(1)),
        Instr::DivFloat(freg(5), freg(0), freg(1)),
        Instr::ModFloat(freg(6), freg(0), freg(1)),
        Instr::NegFloat(freg(7), freg(0)),
        Instr::LTFloat(ireg(0), freg(0), freg(1)),
        Instr::GTFloat(ireg(1), freg(0), freg(1)),
        Instr::LTEFloat(ireg(2), freg(0), freg(0)),
        Instr::GTEFloat(ireg(3), freg(1), freg(0)),
        Instr::EQFloat(ireg(4), freg(0), freg(0)),
        Instr::FloatToInt(ireg(5), freg(2)),
        Instr::StoreConstInt(ireg(6), -3),
        Instr::IntToFloat(freg(1), ireg(6)),
        Instr::StoreConstStr(sreg(0), Str::from("1e3abc")),
        Instr::StrToFloat(freg(0), sreg(0)),
        Instr::Halt,
    ];
    let mut out = Vec::new();
    drive(&mut vm, &program, &mut out).unwrap();
    assert_eq!(value(*vm.get(freg(2))), 1.75);
    assert_eq!(value(*vm.get(freg(3))), 1.25);
    assert_eq!(value(*vm.get(freg(4))), 0.375);
    assert_eq!(value(*vm.get(freg(5))), 6.0);
    assert_eq!(value(*vm.get(freg(6))), 0.0);
    assert_eq!(value(*vm.get(freg(7))), -1.5);
    let got: Vec<Int> = (0..6).map(|i| *vm.get(ireg(i))).collect();
    assert_eq!(got, vec![0, 1, 1, 0, 1, 1]);
    assert_eq!(value(*vm.get(freg(1))), -3.0);
    assert_eq!(value(*vm.get(freg(0))), 1000.0);
}

#[test]
fn work_names_its_operands_and_destination() {
    let mut vm = machine();
    let program = vec![
        Instr::StoreConstFloat(freg(0), bits(1.5)),
        Instr::ModFloat(freg(3), freg(0), freg(1)),
        Instr::Halt,
    ];
    match vm.run(&program, 10).unwrap() {
        Outcome::Work(Work::Arith(d, op, a, b)) => {
            assert_eq!(d.index(), 3);
            assert_eq!(op, FloatOp::Mod);
            assert_eq!(value(a), 1.5);
            assert_eq!(value(b), 0.0);
        }
        _ => panic!("the remainder is work for the driver"),
    }
    assert!(matches!(vm.run(&program, 10), Ok(Outcome::Halt)));
}

#[test]
fn negation_flips_the_sign_bit_only() {
    for f in [0.0, -0.0, 1.5, -2.25, f64::INFINITY, f64::NEG_INFINITY, f64::NAN, f64::MIN_POSITIVE] {
        let negated = bits(f).neg();
        assert_eq!(negated.bits, (-f).to_bits());
        assert_eq!(negated.neg().bits, f.to_bits());
    }
    assert_eq!(Float::zero().bits, 0.0f64.to_bits());
}

#[test]
fn columns_follow_the_record() {
    let mut vm = machine();
    vm.set_record(Str::from("alpha beta gamma"));
    assert_eq!(vm.column(0).flatten(), "alpha beta gamma");
    assert_eq!(vm.column(1).flatten(), "alpha");
    assert_eq!(vm.column(3).flatten(), "gamma");
    assert_eq!(vm.column(4).flatten(), "");
    assert_eq!(vm.column(-1).flatten(), "");
    assert_eq!(vm.column(i64::MAX).flatten(), "");
    let program = vec![
        Instr::StoreConstInt(ireg(0), 2),
        Instr::StoreConstStr(sreg(0), Str::from("B")),
        Instr::SetColumn(ireg(0), sreg(0)),
        Instr::StoreConstInt(ireg(1), 5),
        Instr::StoreConstStr(sreg(1), Str::from("E")),
        Instr::SetColumn(ireg(1), sreg(1)),
        Instr::StoreConstInt(ireg(2), 0),
        Instr::GetColumn(sreg(2), ireg(2)),
        Instr::StoreConstInt(ireg(3), 4),
        Instr::GetColumn(sreg(3), ireg(3)),
        Instr::GetColumn(sreg(4), ireg(1)),
        Instr::Halt,
    ];
    let mut out = Vec::new();
    drive(&mut vm, &program, &mut out).unwrap();
    assert_eq!(vm.get(sreg(2)).flatten(), "alpha B gamma  E");
    assert_eq!(vm.get(sreg(3)).flatten(), "");
    assert_eq!(vm.get(sreg(4)).flatten(), "E");
    let reset = vec![
        Instr::StoreConstStr(sreg(0), Str::from("x y")),
        Instr::SetColumn(ireg(2), sreg(0)),
        Instr::Halt,
    ];
    let mut again = Interp::new(&counts(8), Str::from(" "));
    drive(&mut again, &reset, &mut out).unwrap();
    assert_eq!(again.column(0).flatten(), "x y");
    assert_eq!(again.column(2).flatten(), "y");
    assert_eq!(again.column(3).flatten(), "");
}

#[test]
fn a_negative_column_cannot_be_set() {
    let mut vm = machine();
    let program = vec![
        Instr::StoreConstInt(ireg(0), -1),
        Instr::SetColumn(ireg(0), sreg(0)),
        Instr::Halt,
    ];
    assert_eq!(vm.run(&program, 10).err().unwrap().kind, ErrorKind::Invariant);
    let mut vm = machine();
    let program = vec![
        Instr::StoreConstInt(ireg(0), 0x1_0000_0000),
        Instr::SetColumn(ireg(0), sreg(0)),
        Instr::Halt,
    ];
    assert_eq!(vm.run(&program, 10).err().unwrap().kind, ErrorKind::Invariant);
}

#[test]
fn match_writes_one_or_zero_and_reports_bad_patterns() {
    let mut vm = machine();
    let program = vec![
        Instr::StoreConstStr(sreg(0), Str::from("food")),
        Instr::StoreConstStr(sreg(1), Str::from("o+d$")),
        Instr::StoreConstStr(sreg(2), Str::from("^o")),
        Instr::Match(ireg(0), sreg(0), sreg(1)),
        Instr::Match(ireg(1), sreg(0), sreg(2)),
        Instr::StoreConstStr(sreg(3), Str::from("(")),
        Instr::Match(ireg(2), sreg(0), sreg(3)),
        Instr::Halt,
    ];
    let e = vm.run(&program, 100).err().unwrap();
    assert_eq!(e.kind, ErrorKind::Compile);
    assert_eq!(*vm.get(ireg(0)), 1);
    assert_eq!(*vm.get(ireg(1)), 0);
    assert_eq!(*vm.get(ireg(2)), 0);
}

#[test]
fn iterators_walk_the_keys_once() {
    let mut vm = machine();
    let program = vec![
        Instr::StoreConstInt(ireg(0), 10),
        Instr::StoreConstInt(ireg(1), 20),
        Instr::StoreConstInt(ireg(2), 30),
        Instr::StoreIntInt(Reg::new(0), ireg(0), ireg(0)),
        Instr::StoreIntInt(Reg::new(0), ireg(1), ireg(0)),
        Instr::StoreIntInt(Reg::new(0), ireg(2), ireg(0)),
        Instr::StoreIntInt(Reg::new(0), ireg(1), ireg(2)),
        Instr::IterBeginIntInt(Reg::new(0), Reg::new(0)),
        Instr::StoreConstStr(sreg(0), Str::from("k")),
        Instr::StoreStrInt(Reg::new(0), sreg(0), ireg(0)),
        Instr::IterBeginStrInt(Reg::new(0), Reg::new(0)),
        Instr::Halt,
    ];
    let mut out = Vec::new();
    drive(&mut vm, &program, &mut out).unwrap();
    let mut it: Iter<Int> = *vm.get(Reg::new(0));
    let map: &IntMap<Int> = vm.get(Reg::new(0));
    let mut keys = Vec::new();
    while let Some(k) = map.next_key(&mut it).unwrap() {
        keys.push(k);
    }
    keys.sort();
    assert_eq!(keys, vec![10, 20, 30]);
    assert_eq!(map.next_key(&mut it).unwrap(), None);
    let mut words: Iter<Str> = *vm.get(Reg::new(0));
    let by_word: &StrMap<Int> = vm.get(Reg::new(0));
    assert_eq!(by_word.next_key(&mut words).unwrap().unwrap().flatten(), "k");
    assert!(by_word.next_key(&mut words).unwrap().is_none());
}

#[test]
fn a_store_invalidates_live_iterators() {
    let mut vm = machine();
    let program = vec![
        Instr::StoreConstInt(ireg(0), 10),
        Instr::StoreIntInt(Reg::new(0), ireg(0), ireg(0)),
        Instr::IterBeginIntInt(Reg::new(0), Reg::new(0)),
        Instr::StoreIntInt(Reg::new(0), ireg(0), ireg(1)),
        Instr::Halt,
    ];
    let mut out = Vec::new();
    drive(&mut vm, &program, &mut out).unwrap();
    let mut it: Iter<Int> = *vm.get(Reg::new(0));
    let map: &IntMap<Int> = vm.get(Reg::new(0));
    assert_eq!(map.next_key(&mut it).err().unwrap().kind, ErrorKind::Invariant);
    let mut idle: Iter<Int> = *vm.get(Reg::new(1));
    assert_eq!(map.next_key(&mut idle).err().unwrap().kind, ErrorKind::Invariant);
    let mut fresh = map.iter();
    assert_eq!(map.next_key(&mut fresh).unwrap(), Some(10));
}

#[test]
fn lenient_float_parse() {
    assert_eq!(lenient_float("1e3abc"), 1000.0);
    assert_eq!(lenient_float("junk"), 0.0);
    assert_eq!(lenient_float(""), 0.0);
    assert_eq!(lenient_float("  -2.5e-1x"), -0.25);
    assert_eq!(lenient_float("+.5."), 0.5);
    assert_eq!(lenient_float("7.e"), 7.0);
    assert_eq!(lenient_float("3e+"), 3.0);
    assert_eq!(lenient_float("."), 0.0);
    assert_eq!(lenient_float("-e5"), 0.0);
    assert_eq!(scan_float(b"1e3abc"), (0, 3));
    assert_eq!(scan_float(b"junk"), (0, 0));
    assert_eq!(scan_float(b"  -2.5e-1x"), (2, 9));
    assert_eq!(scan_float(b" \t"), (2, 2));
    assert_eq!(scan_float(b"12E5E6"), (0, 4));
    assert_eq!(scan_float(b"1.5.2"), (0, 3));
}

#[test]
fn finite_floats_round_trip_through_text() {
    for f in [0.0, -0.0, 3.5, 1e300, -1.7976931348623157e308, 5e-324, 0.1, 1.0 / 3.0, 123456789.125] {
        let mut buffer = ryu::Buffer::new();
        let text = String::from(buffer.format(f));
        assert_eq!(lenient_float(&text).to_bits(), f64::to_bits(f));
    }
}

#[test]
fn registers_know_their_range() {
    let vm = machine();
    assert!(vm.in_range(ireg(7)));
    assert!(!vm.in_range(ireg(8)));
    assert!(vm.in_range(sreg(0)));
    assert!(!vm.in_range(freg(100)));
    let none = Interp::new(&counts(0), Str::from(","));
    assert!(!none.in_range(ireg(0)));
    let maps: Reg<IntMap<Int>> = Reg::new(0);
    assert!(!none.in_range(maps));
    assert_eq!(Reg::<Int>::new(5).index(), 5);
}
