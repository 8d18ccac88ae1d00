use record_vm::lazy_str::{conv_len, Str};

#[test]
fn concat_test() {
    let s1 = Str::from("hi there fellow");
    let s2 = Str::concat(
        Str::concat(Str::from("hi"), Str::from(String::from(" there"))),
        Str::concat(
            Str::from(" "),
            Str::concat(Str::from("fel"), Str::from("low")),
        ),
    );
    assert_eq!(s1, s2);
    assert!(s1 != Str::concat(s1.clone(), s2));
}

#[test]
fn conv_len_saturates() {
    assert_eq!(conv_len(0), 0);
    assert_eq!(conv_len(17), 17);
    assert_eq!(conv_len(u32::MAX as usize), u32::MAX);
    if usize::BITS > 32 {
        assert_eq!(conv_len((u32::MAX as usize).wrapping_add(1)), u32::MAX);
        assert_eq!(conv_len(usize::MAX), u32::MAX);
    }
}

#[test]
fn mixed_variants_compare_equal() {
    let literal = Str::from("ab");
    let mixed = Str::concat(Str::from("a"), Str::from(String::from("b")));
    let boxed = Str::from(String::from("ab"));
    assert_eq!(literal, mixed);
    assert_eq!(mixed, boxed);
    assert_eq!(literal, boxed);
    assert_eq!(boxed, literal);
}

#[test]
fn concat_is_associative() {
    let left = Str::concat(
        Str::concat(Str::from("x"), Str::from(String::from("yz"))),
        Str::from("w"),
    );
    let right = Str::concat(
        Str::from("x"),
        Str::concat(Str::from(String::from("yz")), Str::from("w")),
    );
    assert_eq!(left, right);
    let mut forced = left.clone();
    forced.force();
    assert_eq!(forced.peek(), Some("xyzw"));
}

#[test]
fn force_is_idempotent() {
    let mut s = Str::concat(Str::from("ab"), Str::concat(Str::from(""), Str::from("cde")));
    assert_eq!(s.peek(), None);
    assert_eq!(s.len(), 5);
    s.force();
    assert_eq!(s.peek(), Some("abcde"));
    assert_eq!(s.len(), 5);
    s.force();
    assert_eq!(s.peek(), Some("abcde"));
    assert_eq!(s.len(), 5);
}

#[test]
fn force_leaves_shared_children_lazy() {
    let child = Str::concat(Str::from("a"), Str::from("b"));
    let mut parent = Str::concat(child.clone(), Str::from("c"));
    parent.force();
    assert_eq!(parent.peek(), Some("abc"));
    assert_eq!(child.peek(), None);
    assert_eq!(child, Str::from("ab"));
}

#[test]
fn different_lengths_are_unequal() {
    let a = Str::concat(Str::from("ab"), Str::from("c"));
    let b = Str::from("abcd");
    assert!(a.differs_by_len(&b));
    assert!(a != b);
    assert!(!a.differs_by_len(&Str::from("xyz")));
    assert!(a != Str::from("xyz"));
    assert_eq!(a.peek(), None);
}

#[test]
fn len_counts_bytes() {
    assert_eq!(Str::from("").len(), 0);
    assert_eq!(Str::from("héllo").len(), 6);
    assert_eq!(Str::from("héllo").len_u32(), 6);
    let s = Str::concat(Str::from("héllo"), Str::from(String::from("→")));
    assert_eq!(s.len(), 9);
    assert_eq!(s.len_u32(), 9);
}

#[test]
fn deep_left_and_right_trees_flatten_in_order() {
    let mut left = Str::from("0");
    let mut right = Str::from("0");
    let mut expected_left = String::from("0");
    let mut expected_right = String::from("0");
    for i in 1..200 {
        let piece = (i % 10).to_string();
        left = Str::concat(left, Str::from(piece.clone()));
        expected_left.push_str(&piece);
        right = Str::concat(Str::from(piece.clone()), right);
        expected_right.insert_str(0, &piece);
    }
    left.force();
    right.force();
    assert_eq!(left.peek(), Some(expected_left.as_str()));
    assert_eq!(right.peek(), Some(expected_right.as_str()));
}

#[test]
fn clone_str_and_with_str_force_first() {
    let mut s = Str::concat(Str::from("hi"), Str::from(" you"));
    let shared = s.clone_str();
    assert_eq!(&*shared, "hi you");
    assert_eq!(s.peek(), Some("hi you"));
    let mut t = Str::concat(Str::from("a"), Str::from("bc"));
    let n = t.with_str(|raw| raw.len());
    assert_eq!(n, 3);
    assert_eq!(t.peek(), Some("abc"));
    let u = Str::concat(Str::from("p"), Str::from("q"));
    assert_eq!(&*u.to_shared(), "pq");
    assert_eq!(u.peek(), None);
}

#[test]
fn equals_forces_both_sides() {
    let mut a = Str::concat(Str::from("ab"), Str::from("cd"));
    let mut b = Str::concat(Str::from("a"), Str::from("bcd"));
    assert!(Str::equals(&mut a, &mut b));
    assert_eq!(a.peek(), Some("abcd"));
    assert_eq!(b.peek(), Some("abcd"));
    let mut c = Str::concat(Str::from("ab"), Str::from("ce"));
    assert!(!Str::equals(&mut a, &mut c));
    let mut d = Str::from("abc");
    let mut e = Str::concat(Str::from("ab"), Str::from("cd"));
    assert!(!Str::equals(&mut d, &mut e));
    assert_eq!(e.peek(), None);
}
