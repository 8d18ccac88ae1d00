use record_vm::fields::split;
use record_vm::lazy_str::Str;
use record_vm::maps::{IntMap, StrMap};

#[test]
fn split_keeps_empty_pieces() {
    assert_eq!(split("a,b,,c", ","), vec!["a", "b", "", "c"]);
    assert_eq!(split(",a,", ","), vec!["", "a", ""]);
    assert_eq!(split(",", ","), vec!["", ""]);
    assert_eq!(split("abc", ","), vec!["abc"]);
}

#[test]
fn split_edge_cases() {
    let none: Vec<&str> = Vec::new();
    assert_eq!(split("", ","), none);
    assert_eq!(split("", ""), none);
    assert_eq!(split("abc", ""), vec!["abc"]);
    assert_eq!(split("a--b---c", "--"), vec!["a", "b", "-c"]);
    assert_eq!(split("aaa", "aa"), vec!["", "a"]);
    assert_eq!(split("été→là", "→"), vec!["été", "là"]);
}

#[test]
fn int_map_stores_and_finds() {
    let mut m: IntMap<i64> = IntMap::new();
    assert_eq!(m.len(), 0);
    assert!(m.get(5).is_none());
    m.insert(5, 1);
    m.insert(-7, 2);
    m.insert(5, 3);
    assert_eq!(m.len(), 2);
    assert_eq!(m.get(5), Some(&3));
    assert_eq!(m.get(-7), Some(&2));
    assert!(m.contains(5));
    assert!(!m.contains(6));
    let mut it = m.iter();
    assert_eq!(m.next_key(&mut it).unwrap(), Some(5));
    assert_eq!(m.next_key(&mut it).unwrap(), Some(-7));
    assert_eq!(m.next_key(&mut it).unwrap(), None);
    assert_eq!(m.next_key(&mut it).unwrap(), None);
}

#[test]
fn str_map_keys_are_compared_by_bytes() {
    let mut m: StrMap<i64> = StrMap::new();
    let lazy = Str::concat(Str::from("ke"), Str::from(String::from("y")));
    m.insert(&lazy, 1);
    assert_eq!(m.get(&Str::from("key")), Some(&1));
    assert_eq!(m.get(&Str::from(String::from("key"))), Some(&1));
    assert!(m.get(&Str::from("ke")).is_none());
    m.insert(&Str::from("key"), 2);
    assert_eq!(m.len(), 1);
    assert_eq!(m.get(&lazy), Some(&2));
    assert!(m.contains(&lazy));
    assert!(!m.contains(&Str::from("")));
}
