//! Lazy strings: immutable byte strings whose concatenation is deferred.
//!
//! A [`Str`] is a borrowed literal, a shared owned buffer, or a concatenation
//! node over two other strings. Building a concatenation is constant-time; the
//! bytes are only brought together when the string is forced.

use smallvec::SmallVec;
use std::rc::Rc;
use vstd::prelude::*;
use vstd::std_specs::cmp::PartialEqSpec;
use vstd::std_specs::convert::FromSpecImpl;
use vstd::string::*;
use vstd::utf8::*;

verus! {

/// The largest length a concatenation node can record.
pub const MAX_NODE_LEN: u32 = 0xffff_ffff;

/// A byte count clamped to what a concatenation node can record.
pub open spec fn clamp_len(n: nat) -> u32 {
    if n > MAX_NODE_LEN as nat {
        MAX_NODE_LEN
    } else {
        n as u32
    }
}

/// Narrows a byte count to 32 bits, saturating at the top of the range.
pub fn conv_len(l: usize) -> (r: u32)
    ensures
        r == clamp_len(l as nat),
{
    if l > 0xffff_ffff {
        MAX_NODE_LEN
    } else {
        l as u32
    }
}

#[derive(Debug)]
enum Inner<'a> {
    Literal(&'a str),
    Boxed(Rc<str>),
    Concat(Rc<Branch<'a>>),
}

#[derive(Debug)]
struct Branch<'a> {
    len: u32,
    left: Str<'a>,
    right: Str<'a>,
}

/// An immutable string that may still be an unevaluated concatenation.
#[derive(Debug)]
pub struct Str<'a> {
    inner: Inner<'a>,
}

impl<'a> View for Str<'a> {
    type V = Seq<u8>;

    /// The bytes of the materialised string.
    open spec fn view(&self) -> Seq<u8> {
        encode_utf8(self.text())
    }
}

impl<'a> Str<'a> {
    /// The characters of the materialised string.
    pub closed spec fn text(&self) -> Seq<char>
        decreases self,
    {
        match self.inner {
            Inner::Literal(s) => s@,
            Inner::Boxed(s) => (*s)@,
            Inner::Concat(b) => b.left.text() + b.right.text(),
        }
    }

    /// Whether the string is still a concatenation node.
    pub closed spec fn is_lazy(&self) -> bool {
        self.inner is Concat
    }

    /// Every concatenation node records the clamped byte count of its subtree.
    #[verifier::type_invariant]
    pub closed spec fn wf(&self) -> bool
        decreases self,
    {
        match self.inner {
            Inner::Concat(b) => {
                &&& b.len == clamp_len(b.left@.len() + b.right@.len())
                &&& b.left.wf()
                &&& b.right.wf()
            },
            _ => true,
        }
    }

    /// What `len` reports: the byte count, clamped while the string is lazy.
    pub open spec fn spec_len(&self) -> nat {
        if self.is_lazy() {
            clamp_len(self@.len()) as nat
        } else {
            self@.len()
        }
    }
}

/// Encoding distributes over concatenation: the bytes of `a + b` are the
/// bytes of `a` followed by the bytes of `b`.
pub proof fn lemma_encode_concat(a: Seq<char>, b: Seq<char>)
    ensures
        encode_utf8(a + b) == encode_utf8(a) + encode_utf8(b),
    decreases a.len(),
{
    if a.len() == 0 {
        assert(a + b == b);
    } else {
        lemma_encode_concat(a.drop_first(), b);
        assert((a + b).drop_first() == a.drop_first() + b);
        assert((a + b)[0] == a[0]);
    }
}

/// The number of bytes in `s`.
fn byte_len(s: &str) -> (n: usize)
    ensures
        n == s.spec_bytes().len(),
{
    s.as_bytes().len()
}

/// Another handle on the value behind `r`.
///
/// Calls `Rc::clone`, which copies the pointer and never the value behind it,
/// so the new handle reads as the same value.
#[verifier::external_body]
fn share<T: ?Sized>(r: &Rc<T>) -> (res: Rc<T>)
    ensures
        res == *r,
{
    Rc::clone(r)
}

/// Moves an owned string into a shared buffer.
///
/// Calls `Rc::<str>::from(String)`, which copies the characters unchanged.
#[verifier::external_body]
fn share_owned(s: String) -> (res: Rc<str>)
    ensures
        (*res)@ == s@,
{
    Rc::from(s)
}

/// Copies a borrowed string into a shared buffer.
///
/// Calls `Rc::<str>::from(&str)`, which copies the characters unchanged.
#[verifier::external_body]
fn share_borrowed(s: &str) -> (res: Rc<str>)
    ensures
        (*res)@ == s@,
{
    Rc::from(s)
}

/// An empty buffer with room for `cap` bytes.
///
/// Calls `String::with_capacity`, which returns an empty string and panics
/// only when `cap` exceeds `isize::MAX`.
#[verifier::external_body]
fn buffer_with_capacity(cap: usize) -> (res: String)
    requires
        cap <= isize::MAX,
    ensures
        res@ == Seq::<char>::empty(),
{
    String::with_capacity(cap)
}

/// The working stack of a flattening walk: the right-hand children that are
/// still to be visited, the next one on top.
#[verifier::external_body]
pub struct Pending<'a> {
    items: SmallVec<[Str<'a>; 16]>,
}

/// The strings on the stack, bottom first.
pub uninterp spec fn pending_items(p: Pending<'_>) -> Seq<Str<'_>>;

/// An empty stack.
///
/// Calls `SmallVec::new`, which holds no items.
#[verifier::external_body]
fn pending_new<'a>() -> (p: Pending<'a>)
    ensures
        pending_items(p) == Seq::<Str<'a>>::empty(),
{
    Pending { items: SmallVec::new() }
}

/// Puts `s` on top of the stack.
///
/// Calls `SmallVec::push`, which appends the item after those already held.
#[verifier::external_body]
fn pending_push<'a>(p: &mut Pending<'a>, s: Str<'a>)
    ensures
        pending_items(*final(p)) == pending_items(*old(p)).push(s),
{
    p.items.push(s)
}

/// Takes the top of the stack, if there is one.
///
/// Calls `SmallVec::pop`, which removes and returns the last item, or returns
/// `None` and leaves an empty vector as it is.
#[verifier::external_body]
fn pending_pop<'a>(p: &mut Pending<'a>) -> (r: Option<Str<'a>>)
    ensures
        pending_items(*old(p)).len() == 0 ==> r is None && pending_items(*final(p))
            == pending_items(*old(p)),
        pending_items(*old(p)).len() > 0 ==> r == Some(pending_items(*old(p)).last())
            && pending_items(*final(p)) == pending_items(*old(p)).drop_last(),
{
    p.items.pop()
}

/// The text that a walk still has to append for the stacked strings: the top
/// of the stack comes first.
spec fn rest_text(items: Seq<Str<'_>>) -> Seq<char>
    decreases items.len(),
{
    if items.len() == 0 {
        Seq::empty()
    } else {
        items.last().text() + rest_text(items.drop_last())
    }
}

/// The number of tree nodes under the stacked strings.
spec fn rest_nodes(items: Seq<Str<'_>>) -> nat
    decreases items.len(),
{
    if items.len() == 0 {
        0
    } else {
        items.last().nodes() + rest_nodes(items.drop_last())
    }
}

/// Lexicographic order on bytes: `a` comes before `b` if it is a proper
/// prefix of `b`, or holds the smaller byte where the two first differ.
pub open spec fn lex_less(a: Seq<u8>, b: Seq<u8>) -> bool
    decreases a.len(),
{
    if b.len() == 0 {
        false
    } else if a.len() == 0 {
        true
    } else if a[0] != b[0] {
        a[0] < b[0]
    } else {
        lex_less(a.drop_first(), b.drop_first())
    }
}

/// The order is strict and total: of two byte strings, either they are
/// equal or exactly one comes before the other.
pub proof fn lemma_lex_trichotomy(a: Seq<u8>, b: Seq<u8>)
    ensures
        a == b || lex_less(a, b) || lex_less(b, a),
        !(a == b && lex_less(a, b)),
        !(lex_less(a, b) && lex_less(b, a)),
    decreases a.len(),
{
    if a.len() == 0 || b.len() == 0 {
        if a.len() == 0 && b.len() == 0 {
            assert(a =~= b);
        }
    } else if a[0] == b[0] {
        lemma_lex_trichotomy(a.drop_first(), b.drop_first());
        if a.drop_first() == b.drop_first() {
            assert(a =~= seq![a[0]] + a.drop_first());
            assert(b =~= seq![b[0]] + b.drop_first());
        }
    }
}

/// Whether the bytes of `a` come before those of `b`.
fn bytes_less(a: &str, b: &str) -> (r: bool)
    ensures
        r == lex_less(a.spec_bytes(), b.spec_bytes()),
{
    let x = a.as_bytes();
    let y = b.as_bytes();
    let mut i: usize = 0;
    assert(x@.skip(0) =~= x@ && y@.skip(0) =~= y@);
    while i < x.len() && i < y.len()
        invariant
            x@ == a.spec_bytes(),
            y@ == b.spec_bytes(),
            i <= x@.len(),
            i <= y@.len(),
            lex_less(x@, y@) == lex_less(x@.skip(i as int), y@.skip(i as int)),
        decreases x@.len() - i,
    {
        if x[i] != y[i] {
            return x[i] < y[i];
        }
        proof {
            assert(x@.skip(i as int).drop_first() =~= x@.skip(i + 1));
            assert(y@.skip(i as int).drop_first() =~= y@.skip(i + 1));
        }
        i += 1;
    }
    i < y.len()
}

/// Whether `a` and `b` hold the same bytes.
fn bytes_eq(a: &str, b: &str) -> (r: bool)
    ensures
        r == (a.spec_bytes() == b.spec_bytes()),
{
    let x = a.as_bytes();
    let y = b.as_bytes();
    if x.len() != y.len() {
        return false;
    }
    let mut i: usize = 0;
    while i < x.len()
        invariant
            x@ == a.spec_bytes(),
            y@ == b.spec_bytes(),
            x@.len() == y@.len(),
            i <= x@.len(),
            forall|j: int| 0 <= j < i ==> x@[j] == y@[j],
        decreases x@.len() - i,
    {
        if x[i] != y[i] {
            assert(x@[i as int] != y@[i as int]);
            return false;
        }
        i += 1;
    }
    assert(x@ =~= y@);
    true
}

impl<'a> Str<'a> {
    /// The string that borrows `s` as it stands.
    pub closed spec fn spec_literal(s: &'a str) -> Str<'a> {
        Str { inner: Inner::Literal(s) }
    }

    /// The clamped byte count, as a concatenation node records it.
    pub fn len_u32(&self) -> (r: u32)
        ensures
            r == clamp_len(self@.len()),
    {
        proof {
            use_type_invariant(self);
        }
        match &self.inner {
            Inner::Literal(s) => conv_len(byte_len(s)),
            Inner::Boxed(s) => conv_len(byte_len(&**s)),
            Inner::Concat(b) => {
                proof {
                    lemma_encode_concat(b.left.text(), b.right.text());
                }
                b.len
            },
        }
    }

    /// The length in bytes. A string that is still lazy reports its clamped
    /// length; a flat one reports its exact length.
    pub fn len(&self) -> (r: usize)
        ensures
            r == self.spec_len(),
    {
        match &self.inner {
            Inner::Literal(s) => byte_len(s),
            Inner::Boxed(s) => byte_len(&**s),
            Inner::Concat(_) => self.len_u32() as usize,
        }
    }

    /// The concatenation of `s1` and `s2`, built in constant time. No bytes
    /// are copied until the result is forced.
    pub fn concat(s1: Str<'a>, s2: Str<'a>) -> (r: Self)
        ensures
            r.concat_of(&s1, &s2),
    {
        let len = s1.len_u32().saturating_add(s2.len_u32());
        proof {
            use_type_invariant(&s1);
            use_type_invariant(&s2);
            lemma_encode_concat(s1.text(), s2.text());
        }
        Str { inner: Inner::Concat(Rc::new(Branch { len, left: s1, right: s2 })) }
    }

    /// What concatenation builds from `left` and `right`: a lazy string whose
    /// bytes are those of `left` followed by those of `right`.
    pub open spec fn concat_of(&self, left: &Self, right: &Self) -> bool {
        &&& self.text() == left.text() + right.text()
        &&& self@ == left@ + right@
        &&& self.is_lazy()
    }

    /// The number of nodes in the tree: one for a flat string.
    spec fn nodes(&self) -> nat
        decreases self,
    {
        match self.inner {
            Inner::Concat(b) => 1 + b.left.nodes() + b.right.nodes(),
            _ => 1,
        }
    }

    /// The whole text in one owned buffer. The tree is walked depth first,
    /// left to right, with an explicit stack in place of recursion.
    pub fn flatten(&self) -> (res: String)
        ensures
            res@ == self.text(),
    {
        let cap = self.len();
        let mut res = if cap <= isize::MAX as usize {
            buffer_with_capacity(cap)
        } else {
            String::new()
        };
        let mut cur = self.clone();
        let mut todos = pending_new();
        loop
            invariant
                res@ + cur.text() + rest_text(pending_items(todos)) == self.text(),
            decreases cur.nodes() + rest_nodes(pending_items(todos)),
        {
            let ghost items = pending_items(todos);
            let next = match &cur.inner {
                Inner::Literal(s) => {
                    res.append(*s);
                    pending_pop(&mut todos)
                },
                Inner::Boxed(s) => {
                    res.append(&**s);
                    pending_pop(&mut todos)
                },
                Inner::Concat(rc) => {
                    let right = rc.right.clone();
                    proof {
                        assert(items.push(right).drop_last() == items);
                        assert(items.push(right).last() == right);
                    }
                    pending_push(&mut todos, right);
                    Some(rc.left.clone())
                },
            };
            match next {
                Some(c) => {
                    cur = c;
                },
                None => {
                    return res;
                },
            }
        }
    }

    /// Flattens the string in place: afterwards it holds its whole text in one
    /// buffer. A string that is already flat is left as it is.
    pub fn force(&mut self)
        ensures
            final(self).forced_from(old(self)),
    {
        if let Inner::Concat(_) = &self.inner {
            let flat = self.flatten();
            self.inner = Inner::Boxed(share_owned(flat));
        }
    }

    /// What forcing does to a string: the text stays, the laziness goes, and a
    /// flat string is not touched.
    pub open spec fn forced_from(&self, before: &Self) -> bool {
        &&& self.text() == before.text()
        &&& self@ == before@
        &&& !self.is_lazy()
        &&& !before.is_lazy() ==> *self == *before
    }

    /// The empty string.
    pub fn empty() -> (r: Str<'a>)
        ensures
            r.text() == Seq::<char>::empty(),
            r@ == Seq::<u8>::empty(),
            !r.is_lazy(),
    {
        proof {
            reveal_strlit("");
            assert(""@ =~= Seq::<char>::empty());
        }
        Str { inner: Inner::Literal("") }
    }

    /// A flat string over a buffer that is already shared.
    pub fn from_shared(s: Rc<str>) -> (r: Str<'a>)
        ensures
            r.text() == (*s)@,
            !r.is_lazy(),
    {
        Str { inner: Inner::Boxed(s) }
    }

    /// The text of the string, borrowed, if it is flat already.
    pub fn peek(&self) -> (r: Option<&str>)
        ensures
            r is Some <==> !self.is_lazy(),
            r matches Some(s) ==> s@ == self.text(),
    {
        match &self.inner {
            Inner::Literal(s) => Some(*s),
            Inner::Boxed(s) => Some(&**s),
            Inner::Concat(_) => None,
        }
    }

    /// The text of a flat string, borrowed.
    pub(crate) fn flat_str(&self) -> (s: &str)
        requires
            !self.is_lazy(),
        ensures
            s@ == self.text(),
    {
        match &self.inner {
            Inner::Literal(s) => *s,
            Inner::Boxed(s) => &**s,
            Inner::Concat(_) => vstd::pervasive::unreached(),
        }
    }

    /// The text in a shared buffer, without changing the string: a flat
    /// string hands out its buffer or a copy of its literal, a lazy one is
    /// flattened into a fresh buffer.
    pub fn to_shared(&self) -> (r: Rc<str>)
        ensures
            (*r)@ == self.text(),
    {
        match &self.inner {
            Inner::Literal(l) => share_borrowed(*l),
            Inner::Boxed(b) => share(b),
            Inner::Concat(_) => share_owned(self.flatten()),
        }
    }

    /// Forces the string and returns its text in a shared buffer.
    pub fn clone_str(&mut self) -> (r: Rc<str>)
        ensures
            (*r)@ == old(self).text(),
            final(self).forced_from(old(self)),
    {
        self.force();
        self.to_shared()
    }

    /// Forces the string and hands its text to `f`.
    pub fn with_str<R>(&mut self, f: impl FnOnce(&str) -> R) -> (r: R)
        requires
            forall|s: &str| s@ == old(self).text() ==> call_requires(f, (s,)),
        ensures
            exists|s: &str| s@ == old(self).text() && call_ensures(f, (s,), r),
            final(self).forced_from(old(self)),
    {
        self.force();
        f(self.flat_str())
    }

    /// Whether `a` and `b` hold the same bytes. Both are forced unless the
    /// answer is plain from their lengths or both are flat already.
    pub fn equals(a: &mut Str<'a>, b: &mut Str<'a>) -> (r: bool)
        ensures
            r == (old(a)@ == old(b)@),
            final(a)@ == old(a)@,
            final(b)@ == old(b)@,
            final(a).text() == old(a).text(),
            final(b).text() == old(b).text(),
    {
        if a.differs_by_len(b) {
            return false;
        }
        a.force();
        b.force();
        bytes_eq(a.flat_str(), b.flat_str())
    }

    /// Whether the bytes of this string come before those of `other` in
    /// lexicographic order. Neither side is changed.
    pub fn less_than(&self, other: &Self) -> (r: bool)
        ensures
            r == lex_less(self@, other@),
    {
        match (self.peek(), other.peek()) {
            (Some(x), Some(y)) => bytes_less(x, y),
            (Some(x), None) => {
                let y = other.flatten();
                bytes_less(x, y.as_str())
            },
            (None, Some(y)) => {
                let x = self.flatten();
                bytes_less(x.as_str(), y)
            },
            (None, None) => {
                let x = self.flatten();
                let y = other.flatten();
                bytes_less(x.as_str(), y.as_str())
            },
        }
    }

    /// Whether the reported lengths alone show that the bytes differ. A length
    /// at the clamping limit may stand for a longer string and decides nothing.
    pub open spec fn spec_differs_by_len(&self, other: &Self) -> bool {
        &&& self.spec_len() != other.spec_len()
        &&& (self.spec_len() < MAX_NODE_LEN || other.spec_len() < MAX_NODE_LEN)
    }

    /// Compares the reported lengths only; `true` means the strings differ.
    pub fn differs_by_len(&self, other: &Self) -> (r: bool)
        ensures
            r == self.spec_differs_by_len(other),
            r ==> self@ != other@,
    {
        let n1 = self.len();
        let n2 = other.len();
        n1 != n2 && (n1 < 0xffff_ffff || n2 < 0xffff_ffff)
    }
}

impl<'a> PartialEq for Str<'a> {
    /// Byte equality of the materialised strings. Neither side is changed: a
    /// lazy side is flattened into a scratch buffer for the comparison.
    fn eq(&self, other: &Str<'a>) -> (r: bool) {
        if self.differs_by_len(other) {
            return false;
        }
        match (&self.inner, &other.inner) {
            (Inner::Literal(s1), Inner::Literal(s2)) => bytes_eq(*s1, *s2),
            (Inner::Boxed(s1), Inner::Boxed(s2)) => bytes_eq(&**s1, &**s2),
            (Inner::Literal(s1), Inner::Boxed(s2)) => bytes_eq(*s1, &**s2),
            (Inner::Boxed(s1), Inner::Literal(s2)) => bytes_eq(&**s1, *s2),
            (_, _) => {
                let x = self.flatten();
                let y = other.flatten();
                bytes_eq(x.as_str(), y.as_str())
            },
        }
    }
}

impl<'a> vstd::std_specs::cmp::PartialEqSpecImpl for Str<'a> {
    open spec fn obeys_eq_spec() -> bool {
        true
    }

    open spec fn eq_spec(&self, other: &Str<'a>) -> bool {
        self@ == other@
    }
}

impl<'a> Eq for Str<'a> {

}

impl<'a> Clone for Str<'a> {
    /// A second handle on the same string; owned buffers and concatenation
    /// nodes are shared, not copied.
    fn clone(&self) -> (r: Self)
        ensures
            r == *self,
    {
        proof {
            use_type_invariant(self);
        }
        match &self.inner {
            Inner::Literal(s) => Str { inner: Inner::Literal(*s) },
            Inner::Boxed(b) => Str { inner: Inner::Boxed(share(b)) },
            Inner::Concat(b) => Str { inner: Inner::Concat(share(b)) },
        }
    }
}

impl<'a> From<&'a str> for Str<'a> {
    /// A zero-copy string over a borrowed literal.
    fn from(s: &'a str) -> (r: Str<'a>)
        ensures
            r.text() == s@,
            !r.is_lazy(),
    {
        Str { inner: Inner::Literal(s) }
    }
}

impl<'a> FromSpecImpl<&'a str> for Str<'a> {
    open spec fn obeys_from_spec() -> bool {
        true
    }

    open spec fn from_spec(v: &'a str) -> Self {
        Str::spec_literal(v)
    }
}

impl<'a> From<String> for Str<'a> {
    /// A flat string over an owned buffer.
    fn from(s: String) -> (r: Str<'a>)
        ensures
            r.text() == s@,
            !r.is_lazy(),
    {
        Str { inner: Inner::Boxed(share_owned(s)) }
    }
}

impl<'a> FromSpecImpl<String> for Str<'a> {
    open spec fn obeys_from_spec() -> bool {
        false
    }

    open spec fn from_spec(v: String) -> Self {
        arbitrary()
    }
}

/// Concatenation is associative: grouping three strings to the left or to the
/// right gives the same bytes, so the two results compare equal.
pub proof fn lemma_concat_associative<'a>(
    a: Str<'a>,
    b: Str<'a>,
    c: Str<'a>,
    ab: Str<'a>,
    bc: Str<'a>,
    left: Str<'a>,
    right: Str<'a>,
)
    requires
        ab.concat_of(&a, &b),
        left.concat_of(&ab, &c),
        bc.concat_of(&b, &c),
        right.concat_of(&a, &bc),
    ensures
        left@ == right@,
        left.text() == right.text(),
        left.eq_spec(&right),
{
    assert((a.text() + b.text()) + c.text() == a.text() + (b.text() + c.text()));
}

/// Forcing is idempotent: a second force changes nothing at all, and no force
/// changes the bytes. The reported length survives the first force whenever
/// the string is no longer than a node can record.
pub proof fn lemma_force_idempotent<'a>(s0: Str<'a>, s1: Str<'a>, s2: Str<'a>)
    requires
        s1.forced_from(&s0),
        s2.forced_from(&s1),
    ensures
        s2 == s1,
        s2@ == s0@,
        s2.spec_len() == s1.spec_len(),
        s0@.len() <= MAX_NODE_LEN ==> s1.spec_len() == s0.spec_len(),
{
}

/// Strings whose reported lengths differ hold different bytes, provided one of
/// the two lengths lies below the clamping limit.
pub proof fn lemma_unequal_by_length<'a>(a: Str<'a>, b: Str<'a>)
    requires
        a.spec_differs_by_len(&b),
    ensures
        a@ != b@,
        !a.eq_spec(&b),
{
}

} // verus!
