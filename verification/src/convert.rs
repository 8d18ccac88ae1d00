//! The closed set of conversions between integers and strings.
//!
//! An integer prints as its shortest decimal form; a string parses leniently,
//! so every conversion is total.

use crate::lazy_str::Str;
use crate::strton::{decimal_value, has_sign, is_digit, is_space, lemma_run_unique, parse_int, strtoi};
use vstd::prelude::*;
use vstd::string::*;
use vstd::utf8::*;

verus! {

/// The integer type of the machine.
pub type Int = i64;

/// The digits of `n` in base ten, most significant first, without leading
/// zeros; a single `0` for zero.
pub open spec fn digit_bytes(n: nat) -> Seq<u8>
    decreases n,
{
    if n < 10 {
        seq![(48 + n) as u8]
    } else {
        digit_bytes(n / 10).push((48 + n % 10) as u8)
    }
}

/// The decimal form of `i`: its digits, after a `-` if it is negative.
pub open spec fn decimal_bytes(i: int) -> Seq<u8> {
    if i < 0 {
        seq![45u8] + digit_bytes((-i) as nat)
    } else {
        digit_bytes(i as nat)
    }
}

/// The characters that ASCII bytes stand for.
pub open spec fn ascii_text(b: Seq<u8>) -> Seq<char> {
    Seq::new(b.len(), |k: int| b[k] as char)
}

/// The decimal form of `i` as text.
pub open spec fn decimal_text(i: int) -> Seq<char> {
    ascii_text(decimal_bytes(i))
}

/// The digits of a number are digits, there is at least one, and they denote
/// the number.
pub proof fn lemma_digit_bytes(n: nat)
    ensures
        digit_bytes(n).len() >= 1,
        forall|k: int| 0 <= k < digit_bytes(n).len() ==> is_digit(#[trigger] digit_bytes(n)[k]),
        decimal_value(digit_bytes(n)) == n,
    decreases n,
{
    if n < 10 {
        assert(digit_bytes(n).drop_last() =~= Seq::<u8>::empty());
        assert(decimal_value(Seq::<u8>::empty()) == 0);
    } else {
        lemma_digit_bytes(n / 10);
        assert(digit_bytes(n).drop_last() =~= digit_bytes(n / 10));
    }
}

/// ASCII text encodes to the bytes it was read from.
pub proof fn lemma_encode_ascii(b: Seq<u8>)
    requires
        forall|k: int| 0 <= k < b.len() ==> #[trigger] b[k] < 128,
    ensures
        encode_utf8(ascii_text(b)) == b,
{
    let t = ascii_text(b);
    assert(is_ascii_chars(t)) by {
        assert forall|k: int| 0 <= k < t.len() implies '\0' <= #[trigger] t[k] <= '\u{7f}' by {
            assert(b[k] < 128);
        }
    }
    is_ascii_chars_encode_utf8(t);
    assert forall|k: int| 0 <= k < b.len() implies encode_utf8(t)[k] == b[k] by {
        assert(t[k] as u8 == encode_utf8(t)[k]);
        assert(b[k] < 128);
    }
    assert(encode_utf8(t) =~= b);
}

/// The bytes of the decimal text of `i` are its decimal form.
pub proof fn lemma_decimal_text_bytes(i: int)
    ensures
        encode_utf8(decimal_text(i)) == decimal_bytes(i),
{
    let b = decimal_bytes(i);
    let m: nat = if i < 0 {
        (-i) as nat
    } else {
        i as nat
    };
    lemma_digit_bytes(m);
    assert forall|k: int| 0 <= k < b.len() implies #[trigger] b[k] < 128 by {
        if i < 0 {
            if k > 0 {
                assert(b[k] == digit_bytes(m)[k - 1]);
                assert(is_digit(digit_bytes(m)[k - 1]));
            }
        } else {
            assert(is_digit(digit_bytes(m)[k]));
        }
    }
    lemma_encode_ascii(b);
}

/// Printing and then parsing an integer gives the integer back.
pub proof fn lemma_int_round_trip(i: i64)
    ensures
        parse_int(decimal_bytes(i as int)) == i,
        parse_int(encode_utf8(decimal_text(i as int))) == i,
{
    let s = decimal_bytes(i as int);
    let m: nat = if i < 0 {
        (-i) as nat
    } else {
        i as nat
    };
    let d = digit_bytes(m);
    lemma_digit_bytes(m);
    lemma_decimal_text_bytes(i as int);
    assert(is_digit(d[0]));
    assert(s[0] == 45 || is_digit(s[0]));
    lemma_run_unique(s, |b: u8| is_space(b), 0);
    let t = s.skip(0);
    assert(t =~= s);
    if i < 0 {
        assert(has_sign(t));
        assert(t.skip(1) =~= d);
    } else {
        assert(!has_sign(t));
        assert(t =~= d);
    }
    lemma_run_unique(d, |b: u8| is_digit(b), d.len());
    assert(d.take(d.len() as int) =~= d);
}

/// The one-character text of a digit.
fn digit_str(d: u64) -> (s: &'static str)
    requires
        d < 10,
    ensures
        s@ == seq![((48 + d) as u8) as char],
{
    proof {
        reveal_strlit("0");
        reveal_strlit("1");
        reveal_strlit("2");
        reveal_strlit("3");
        reveal_strlit("4");
        reveal_strlit("5");
        reveal_strlit("6");
        reveal_strlit("7");
        reveal_strlit("8");
        reveal_strlit("9");
    }
    let s = if d == 0 {
        "0"
    } else if d == 1 {
        "1"
    } else if d == 2 {
        "2"
    } else if d == 3 {
        "3"
    } else if d == 4 {
        "4"
    } else if d == 5 {
        "5"
    } else if d == 6 {
        "6"
    } else if d == 7 {
        "7"
    } else if d == 8 {
        "8"
    } else {
        "9"
    };
    assert(s@ =~= seq![((48 + d) as u8) as char]);
    s
}

/// Appends the digits of `n` to `out`.
fn push_digits(n: u64, out: &mut String)
    ensures
        final(out)@ == old(out)@ + ascii_text(digit_bytes(n as nat)),
    decreases n,
{
    if n >= 10 {
        push_digits(n / 10, out);
    }
    out.append(digit_str(n % 10));
    proof {
        let last = (48 + n % 10) as u8;
        if n >= 10 {
            let head = digit_bytes((n / 10) as nat);
            assert(ascii_text(head.push(last)) =~= ascii_text(head) + seq![last as char]);
        } else {
            assert(ascii_text(seq![last]) =~= seq![last as char]);
        }
    }
}

/// The decimal text of `i`: minimal digits, no leading zeros, a `-` before a
/// negative number.
pub fn int_to_string(i: i64) -> (res: String)
    ensures
        res@ == decimal_text(i as int),
{
    let mut out = String::new();
    if i < 0 {
        proof {
            reveal_strlit("-");
        }
        out.append("-");
        let magnitude = (0 - (i as i128)) as u64;
        push_digits(magnitude, &mut out);
        proof {
            let d = digit_bytes(magnitude as nat);
            assert("-"@ =~= seq![45u8 as char]);
            assert(ascii_text(seq![45u8] + d) =~= seq![45u8 as char] + ascii_text(d));
        }
    } else {
        push_digits(i as u64, &mut out);
    }
    out
}

/// A conversion from `S` to `T`.
pub trait Convert<S, T> {
    /// What the conversion of `s` may give.
    spec fn converts(s: S, t: T) -> bool;

    fn convert(s: S) -> (t: T)
        ensures
            Self::converts(s, t),
    ;
}

/// The type that carries every conversion.
pub struct _Carrier;

impl<'a> Convert<Int, Str<'a>> for _Carrier {
    /// A flat string that holds the decimal form of the integer.
    open spec fn converts(i: Int, t: Str<'a>) -> bool {
        &&& t.text() == decimal_text(i as int)
        &&& t@ == decimal_bytes(i as int)
        &&& !t.is_lazy()
    }

    fn convert(i: Int) -> (t: Str<'a>) {
        proof {
            lemma_decimal_text_bytes(i as int);
        }
        Str::from(int_to_string(i))
    }
}

impl<'a> Convert<Str<'a>, Int> for _Carrier {
    /// The integer read leniently from the bytes of the string.
    open spec fn converts(s: Str<'a>, i: Int) -> bool {
        i == parse_int(s@)
    }

    fn convert(s: Str<'a>) -> (i: Int) {
        let mut s = s;
        s.with_str(strtoi)
    }
}

impl<'b, 'a> Convert<&'b Str<'a>, Int> for _Carrier {
    /// The integer read leniently from the bytes of the string.
    open spec fn converts(s: &'b Str<'a>, i: Int) -> bool {
        i == parse_int(s@)
    }

    fn convert(s: &'b Str<'a>) -> (i: Int) {
        match s.peek() {
            Some(text) => strtoi(text),
            None => {
                let text = s.flatten();
                strtoi(text.as_str())
            },
        }
    }
}

/// Converts `s` to the type that the caller asks for.
pub fn convert<S, T>(s: S) -> (t: T) where _Carrier: Convert<S, T>
    ensures
        _Carrier::converts(s, t),
{
    _Carrier::convert(s)
}

/// Converting an integer to a string and the string back gives the integer.
pub proof fn lemma_convert_round_trip<'a>(i: Int, s: Str<'a>, j: Int)
    requires
        <_Carrier as Convert<Int, Str<'a>>>::converts(i, s),
        <_Carrier as Convert<Str<'a>, Int>>::converts(s, j),
    ensures
        j == i,
{
    lemma_int_round_trip(i);
}

} // verus!
