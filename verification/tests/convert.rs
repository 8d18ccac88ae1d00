use record_vm::convert::{convert, int_to_string, Int};
use record_vm::lazy_str::Str;
use record_vm::strton::{parse_bytes, strtoi};

#[test]
fn lenient_parse_examples() {
    assert_eq!(strtoi("  -42xyz"), -42);
    assert_eq!(strtoi(""), 0);
    assert_eq!(strtoi("junk"), 0);
    assert_eq!(strtoi("+17"), 17);
    assert_eq!(strtoi("\t\n\r 8 9"), 8);
    assert_eq!(strtoi("-"), 0);
    assert_eq!(strtoi("- 5"), 0);
    assert_eq!(strtoi("--5"), 0);
    assert_eq!(strtoi("007"), 7);
    assert_eq!(strtoi("12.9"), 12);
    assert_eq!(strtoi("1e3"), 1);
    assert_eq!(strtoi("\u{a0}5"), 0);
}

#[test]
fn parse_clamps_to_the_integer_range() {
    assert_eq!(strtoi("9223372036854775807"), i64::MAX);
    assert_eq!(strtoi("9223372036854775808"), i64::MAX);
    assert_eq!(strtoi("-9223372036854775808"), i64::MIN);
    assert_eq!(strtoi("-9223372036854775809"), i64::MIN);
    assert_eq!(strtoi("99999999999999999999999999999999999999999"), i64::MAX);
    assert_eq!(strtoi("-99999999999999999999999999999999999999999"), i64::MIN);
    assert_eq!(parse_bytes(b" 31\xff"), 31);
}

#[test]
fn integers_print_in_shortest_decimal_form() {
    assert_eq!(int_to_string(0), "0");
    assert_eq!(int_to_string(5), "5");
    assert_eq!(int_to_string(-42), "-42");
    assert_eq!(int_to_string(1000), "1000");
    assert_eq!(int_to_string(i64::MAX), "9223372036854775807");
    assert_eq!(int_to_string(i64::MIN), "-9223372036854775808");
}

#[test]
fn integer_round_trip() {
    let samples: [Int; 11] = [
        0,
        1,
        -1,
        9,
        10,
        -10,
        123456789,
        -987654321,
        i64::MAX,
        i64::MIN,
        i64::MIN + 1,
    ];
    for i in samples {
        let s: Str = convert(i);
        assert_eq!(s.peek(), Some(i.to_string().as_str()));
        let back: Int = convert(&s);
        assert_eq!(back, i);
        let owned: Int = convert(s);
        assert_eq!(owned, i);
    }
}

#[test]
fn lazy_strings_convert_like_flat_ones() {
    let lazy = Str::concat(Str::from("  -4"), Str::concat(Str::from("2x"), Str::from("yz")));
    let by_ref: Int = convert(&lazy);
    assert_eq!(by_ref, -42);
    assert_eq!(lazy.peek(), None);
    let by_value: Int = convert(lazy);
    assert_eq!(by_value, -42);
}
