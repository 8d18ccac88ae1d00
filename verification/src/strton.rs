//! Lenient, locale-free parsing of numbers from bytes.
//!
//! Parsing never fails: leading whitespace is skipped, one sign is accepted,
//! the longest prefix that reads as a number is taken, and whatever follows
//! is ignored. An integer beyond the 64-bit range is clamped to the nearest
//! bound. Of a floating-point number this module finds the span; its value
//! is for the caller to compute.

use vstd::prelude::*;
use vstd::string::*;

verus! {

/// The whitespace that parsing skips: space, tab, line feed, vertical tab,
/// form feed and carriage return.
pub open spec fn is_space(b: u8) -> bool {
    b == 32 || (9 <= b && b <= 13)
}

/// The decimal digits `0` to `9`.
pub open spec fn is_digit(b: u8) -> bool {
    48 <= b && b <= 57
}

/// The length of the longest prefix of `s` whose bytes all satisfy `p`.
pub open spec fn run(s: Seq<u8>, p: spec_fn(u8) -> bool) -> nat
    decreases s.len(),
{
    if s.len() > 0 && p(s[0]) {
        1 + run(s.drop_first(), p)
    } else {
        0
    }
}

/// The number that a sequence of digits denotes in base ten; zero for the
/// empty sequence.
pub open spec fn decimal_value(d: Seq<u8>) -> nat
    decreases d.len(),
{
    if d.len() == 0 {
        0
    } else {
        decimal_value(d.drop_last()) * 10 + (d.last() - 48) as nat
    }
}

/// The nearest 64-bit signed integer to `v`.
pub open spec fn clamp_i64(v: int) -> i64 {
    if v < i64::MIN {
        i64::MIN
    } else if v > i64::MAX {
        i64::MAX
    } else {
        v as i64
    }
}

/// Whether the text that follows the whitespace starts with a sign.
pub open spec fn has_sign(t: Seq<u8>) -> bool {
    t.len() > 0 && (t[0] == 45 || t[0] == 43)
}

/// The integer that lenient parsing reads from `s`.
pub open spec fn parse_int(s: Seq<u8>) -> i64 {
    let t = s.skip(run(s, |b: u8| is_space(b)) as int);
    let body = if has_sign(t) {
        t.skip(1)
    } else {
        t
    };
    let magnitude = decimal_value(body.take(run(body, |b: u8| is_digit(b)) as int));
    if has_sign(t) && t[0] == 45 {
        clamp_i64(-magnitude)
    } else {
        clamp_i64(magnitude as int)
    }
}

/// A run is pinned down by its defining property: `n` bytes satisfy `p` and
/// the next one, if there is one, does not.
pub proof fn lemma_run_unique(s: Seq<u8>, p: spec_fn(u8) -> bool, n: nat)
    requires
        n <= s.len(),
        forall|k: int| 0 <= k < n ==> p(#[trigger] s[k]),
        n == s.len() || !p(s[n as int]),
    ensures
        run(s, p) == n,
    decreases n,
{
    if n > 0 {
        let t = s.drop_first();
        assert forall|k: int| 0 <= k < n - 1 implies p(#[trigger] t[k]) by {
            assert(t[k] == s[k + 1]);
        }
        lemma_run_unique(t, p, (n - 1) as nat);
    }
}

/// The magnitude bound of the 64-bit range: values at or above it are clamped.
spec fn limit() -> nat {
    0x8000_0000_0000_0000
}

/// A magnitude cut off at the bound.
spec fn capped(v: nat) -> nat {
    if v >= limit() {
        limit()
    } else {
        v
    }
}

/// Whether `b` is whitespace.
fn is_space_byte(b: u8) -> (r: bool)
    ensures
        r == is_space(b),
{
    b == 32 || (9 <= b && b <= 13)
}

/// Whether `b` is a decimal digit.
fn is_digit_byte(b: u8) -> (r: bool)
    ensures
        r == is_digit(b),
{
    48 <= b && b <= 57
}

/// Reads an integer from the bytes of `b`, leniently.
pub fn parse_bytes(b: &[u8]) -> (r: i64)
    ensures
        r == parse_int(b@),
{
    let n = b.len();
    let mut i: usize = 0;
    while i < n && is_space_byte(b[i])
        invariant
            n == b@.len(),
            i <= n,
            forall|k: int| 0 <= k < i ==> is_space(#[trigger] b@[k]),
        decreases n - i,
    {
        i += 1;
    }
    let ghost spaces = i as nat;
    let ghost t = b@.skip(spaces as int);
    proof {
        lemma_run_unique(b@, |x: u8| is_space(x), spaces);
    }
    let mut negative = false;
    if i < n && (b[i] == 45 || b[i] == 43) {
        negative = b[i] == 45;
        i += 1;
    }
    let start = i;
    let ghost body = b@.skip(start as int);
    assert(has_sign(t) == (start == spaces + 1));
    assert(body == if has_sign(t) {
        t.skip(1)
    } else {
        t
    });
    assert(negative == (has_sign(t) && t[0] == 45));
    let mut acc: u64 = 0;
    assert(b@.subrange(start as int, i as int) =~= Seq::<u8>::empty());
    while i < n && is_digit_byte(b[i])
        invariant
            n == b@.len(),
            start <= i <= n,
            forall|k: int| start <= k < i ==> is_digit(#[trigger] b@[k]),
            acc as nat == capped(decimal_value(b@.subrange(start as int, i as int))),
        decreases n - i,
    {
        let ghost before = b@.subrange(start as int, i as int);
        let ghost after = b@.subrange(start as int, i + 1);
        let digit = (b[i] - 48) as u128;
        let next = acc as u128 * 10 + digit;
        proof {
            assert(after.drop_last() =~= before);
            assert(after.last() == b@[i as int]);
            assert(decimal_value(after) == decimal_value(before) * 10 + digit);
        }
        acc = if next >= 0x8000_0000_0000_0000 {
            0x8000_0000_0000_0000
        } else {
            next as u64
        };
        i += 1;
    }
    let ghost digits = (i - start) as nat;
    proof {
        assert forall|k: int| 0 <= k < digits implies is_digit(#[trigger] body[k]) by {
            assert(body[k] == b@[start + k]);
        }
        lemma_run_unique(body, |x: u8| is_digit(x), digits);
        assert(body.take(digits as int) =~= b@.subrange(start as int, i as int));
    }
    if negative {
        if acc >= 0x8000_0000_0000_0000 {
            i64::MIN
        } else {
            -(acc as i64)
        }
    } else {
        if acc >= 0x8000_0000_0000_0000 {
            i64::MAX
        } else {
            acc as i64
        }
    }
}

/// Reads an integer from `s`, leniently: `"  -42xyz"` gives `-42`, and a
/// string without digits gives `0`.
pub fn strtoi(s: &str) -> (r: i64)
    ensures
        r == parse_int(s.spec_bytes()),
{
    parse_bytes(s.as_bytes())
}

/// The number of digits that stand in `s` from position `i` on.
pub open spec fn digits_at(s: Seq<u8>, i: int) -> int {
    run(s.skip(i), |b: u8| is_digit(b)) as int
}

/// `1` if a sign stands in `s` at position `i`, else `0`.
pub open spec fn sign_at(s: Seq<u8>, i: int) -> int {
    if 0 <= i < s.len() && (s[i] == 43 || s[i] == 45) {
        1
    } else {
        0
    }
}

/// Where the floating-point number at the head of `s` starts and ends. The
/// number follows the leading whitespace and is the longest text of the
/// shape sign, digits, point, digits, exponent, in which the sign, the point
/// with its digits and the exponent may each be missing, a digit stands
/// before or after the point, and an exponent is `e` or `E`, a sign that
/// may be missing, and at least one digit. Where no such text stands, the
/// span is empty.
pub open spec fn float_span(s: Seq<u8>) -> (int, int) {
    let start = run(s, |b: u8| is_space(b)) as int;
    let first = start + sign_at(s, start);
    let int_end = first + digits_at(s, first);
    let has_point = int_end < s.len() && s[int_end] == 46;
    let fraction = if has_point {
        digits_at(s, int_end + 1)
    } else {
        0
    };
    if (int_end - first) + fraction == 0 {
        (start, start)
    } else {
        let mantissa_end = if has_point {
            int_end + 1 + fraction
        } else {
            int_end
        };
        let exp_first = mantissa_end + 1 + sign_at(s, mantissa_end + 1);
        let has_exponent = mantissa_end < s.len() && (s[mantissa_end] == 101 || s[mantissa_end]
            == 69) && digits_at(s, exp_first) > 0;
        (
            start,
            if has_exponent {
                exp_first + digits_at(s, exp_first)
            } else {
                mantissa_end
            },
        )
    }
}

/// The end of the digits that stand in `b` from position `from` on.
fn digits_from(b: &[u8], from: usize) -> (end: usize)
    requires
        from <= b@.len(),
    ensures
        end == from + digits_at(b@, from as int),
        from <= end <= b@.len(),
{
    let n = b.len();
    let mut i = from;
    while i < n && is_digit_byte(b[i])
        invariant
            n == b@.len(),
            from <= i <= n,
            forall|k: int| from <= k < i ==> is_digit(#[trigger] b@[k]),
        decreases n - i,
    {
        i += 1;
    }
    proof {
        let rest = b@.skip(from as int);
        assert forall|k: int| 0 <= k < i - from implies is_digit(#[trigger] rest[k]) by {
            assert(rest[k] == b@[from + k]);
        }
        lemma_run_unique(rest, |x: u8| is_digit(x), (i - from) as nat);
    }
    i
}

/// Whether a sign stands in `b` at position `i`.
fn sign_from(b: &[u8], i: usize) -> (r: bool)
    ensures
        r == (sign_at(b@, i as int) == 1),
{
    i < b.len() && (b[i] == 43 || b[i] == 45)
}

/// Finds the floating-point number at the head of `b`: the positions where
/// it starts and ends. `"1e3abc"` gives the span of `1e3`, and a text that
/// starts with no number gives an empty span.
pub fn scan_float(b: &[u8]) -> (r: (usize, usize))
    ensures
        r.0 == float_span(b@).0,
        r.1 == float_span(b@).1,
        r.0 <= r.1 <= b@.len(),
{
    let n = b.len();
    let mut start: usize = 0;
    while start < n && is_space_byte(b[start])
        invariant
            n == b@.len(),
            start <= n,
            forall|k: int| 0 <= k < start ==> is_space(#[trigger] b@[k]),
        decreases n - start,
    {
        start += 1;
    }
    proof {
        lemma_run_unique(b@, |x: u8| is_space(x), start as nat);
    }
    let first = if sign_from(b, start) {
        start + 1
    } else {
        start
    };
    let int_end = digits_from(b, first);
    let has_point = int_end < n && b[int_end] == 46;
    let fraction_end = if has_point {
        digits_from(b, int_end + 1)
    } else {
        int_end
    };
    let fraction = if has_point {
        fraction_end - (int_end + 1)
    } else {
        0
    };
    if (int_end - first) + fraction == 0 {
        return (start, start);
    }
    let mantissa_end = fraction_end;
    if mantissa_end < n && (b[mantissa_end] == 101 || b[mantissa_end] == 69) {
        let exp_first = if sign_from(b, mantissa_end + 1) {
            mantissa_end + 2
        } else {
            mantissa_end + 1
        };
        let exp_end = digits_from(b, exp_first);
        if exp_end > exp_first {
            return (start, exp_end);
        }
    }
    (start, mantissa_end)
}

} // verus!
