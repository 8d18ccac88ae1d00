use record_vm::common::{ErrorKind, VmError};
use record_vm::lazy_str::Str;
use record_vm::regex_cache::RegexCache;
use record_vm::registry::Registry;
use std::cell::Cell;

#[test]
fn make_runs_once_per_key() {
    let made = Cell::new(0);
    let mut reg: Registry<usize> = Registry::default();
    let key = Str::concat(Str::from("al"), Str::from("pha"));
    for round in 0..5 {
        let got = reg.get(
            &key,
            |k| {
                made.set(made.get() + 1);
                Ok(k.len())
            },
            |v| {
                *v += 1;
                *v
            },
        );
        assert_eq!(got.unwrap(), 5 + round + 1);
    }
    assert_eq!(made.get(), 1);
    let flat = Str::from(String::from("alpha"));
    let got = reg.get(&flat, |_| Ok(0), |v| *v);
    assert_eq!(got.unwrap(), 10);
    let other = reg.get(
        &Str::from("beta"),
        |k| {
            made.set(made.get() + 1);
            Ok(k.len())
        },
        |v| *v,
    );
    assert_eq!(other.unwrap(), 4);
    assert_eq!(made.get(), 2);
}

#[test]
fn failed_make_inserts_nothing() {
    let made = Cell::new(0);
    let mut reg: Registry<u32> = Registry::default();
    let key = Str::from("k");
    let first: Result<u32, VmError> = reg.get(
        &key,
        |_| {
            made.set(made.get() + 1);
            Err(VmError::new(ErrorKind::Io, String::from("no such thing")))
        },
        |v| *v,
    );
    let e = first.unwrap_err();
    assert_eq!(e.kind, ErrorKind::Io);
    assert_eq!(e.message, "no such thing");
    let second = reg.get(
        &key,
        |_| {
            made.set(made.get() + 1);
            Ok(7)
        },
        |v| *v,
    );
    assert_eq!(second.unwrap(), 7);
    assert_eq!(made.get(), 2);
}

#[test]
fn fallible_use_keeps_the_value() {
    let made = Cell::new(0);
    let mut reg: Registry<u32> = Registry::default();
    let key = Str::from("k");
    let first: Result<u32, VmError> = reg.get_fallible(
        &key,
        |_| {
            made.set(made.get() + 1);
            Ok(1)
        },
        |_| Err(VmError::new(ErrorKind::Io, String::from("read failed"))),
    );
    assert_eq!(first.unwrap_err().kind, ErrorKind::Io);
    let second = reg.get_fallible(
        &key,
        |_| {
            made.set(made.get() + 1);
            Ok(2)
        },
        |v| Ok(*v),
    );
    assert_eq!(second.unwrap(), 1);
    assert_eq!(made.get(), 1);
}

#[test]
fn regex_cache_matches_unanchored() {
    let mut cache = RegexCache::default();
    let pat = Str::from("foo");
    let mut count = 0;
    for line in ["foo", "bar", "food"] {
        if cache.match_regex(&pat, &Str::from(line)).unwrap() {
            count += 1;
        }
    }
    assert_eq!(count, 2);
    let alt = Str::concat(Str::from("^(a|b)"), Str::from("[0-9]+$"));
    assert!(cache.match_regex(&alt, &Str::from("b42")).unwrap());
    assert!(!cache.match_regex(&alt, &Str::from("c42")).unwrap());
    let lazy = Str::concat(Str::from("a"), Str::from("7"));
    assert!(cache.match_regex(&alt, &lazy).unwrap());
}

#[test]
fn invalid_pattern_is_a_compile_error() {
    let mut cache = RegexCache::default();
    let bad = Str::from("foo(bar");
    let e = cache.match_regex(&bad, &Str::from("foo(bar")).unwrap_err();
    assert_eq!(e.kind, ErrorKind::Compile);
    assert!(!e.message.is_empty());
    let again = cache.match_regex(&bad, &Str::from("x")).unwrap_err();
    assert_eq!(again.kind, ErrorKind::Compile);
    assert!(cache.match_regex(&Str::from("x"), &Str::from("x")).unwrap());
}
