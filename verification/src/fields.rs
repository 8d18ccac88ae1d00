//! Splitting a text at a separator and joining the pieces again.

use vstd::prelude::*;
use vstd::string::*;

verus! {

/// Whether `sep` stands in `text` at position `i`.
pub open spec fn occurs_at(text: Seq<char>, sep: Seq<char>, i: int) -> bool {
    0 <= i && i + sep.len() <= text.len() && text.subrange(i, i + sep.len()) == sep
}

/// The first position at or after `from` where `sep` stands in `text`, or
/// `-1` if there is none.
pub open spec fn find(text: Seq<char>, sep: Seq<char>, from: int) -> int
    decreases text.len() - from + 1,
{
    if from < 0 || from + sep.len() > text.len() {
        -1
    } else if occurs_at(text, sep, from) {
        from
    } else {
        find(text, sep, from + 1)
    }
}

/// `find` returns the first occurrence: nothing stands before it, and `-1`
/// means that nothing stands anywhere.
pub proof fn lemma_find(text: Seq<char>, sep: Seq<char>, from: int)
    requires
        0 <= from,
    ensures
        find(text, sep, from) == -1 ==> forall|j: int| from <= j ==> !occurs_at(text, sep, j),
        find(text, sep, from) != -1 ==> from <= find(text, sep, from) && occurs_at(
            text,
            sep,
            find(text, sep, from),
        ) && forall|j: int| from <= j < find(text, sep, from) ==> !occurs_at(text, sep, j),
    decreases text.len() - from + 1,
{
    if from + sep.len() > text.len() {
    } else if occurs_at(text, sep, from) {
    } else {
        lemma_find(text, sep, from + 1);
    }
}

/// Where the first occurrence is: the position is the one that `find` gives.
pub proof fn lemma_find_unique(text: Seq<char>, sep: Seq<char>, i: int)
    requires
        occurs_at(text, sep, i),
        forall|j: int| 0 <= j < i ==> !occurs_at(text, sep, j),
    ensures
        find(text, sep, 0) == i,
{
    lemma_find(text, sep, 0);
}

/// The pieces of `text` between the occurrences of a non-empty `sep`, read
/// from the left; a text without the separator is one piece.
pub open spec fn pieces(text: Seq<char>, sep: Seq<char>) -> Seq<Seq<char>>
    decreases text.len(),
{
    let i = find(text, sep, 0);
    if sep.len() == 0 || i < 0 || i + sep.len() > text.len() {
        seq![text]
    } else {
        seq![text.take(i)] + pieces(text.skip(i + sep.len()), sep)
    }
}

/// The fields of `text`: none for an empty text, the whole text for an empty
/// separator, else the pieces between the separators.
pub open spec fn split_spec(text: Seq<char>, sep: Seq<char>) -> Seq<Seq<char>> {
    if text.len() == 0 {
        Seq::empty()
    } else {
        pieces(text, sep)
    }
}

/// The fields written one after the other with `sep` between them.
pub open spec fn join_spec(fields: Seq<Seq<char>>, sep: Seq<char>) -> Seq<char>
    decreases fields.len(),
{
    if fields.len() == 0 {
        Seq::empty()
    } else if fields.len() == 1 {
        fields[0]
    } else {
        join_spec(fields.drop_last(), sep) + sep + fields.last()
    }
}

/// The texts of borrowed strings.
pub open spec fn texts(v: Seq<&str>) -> Seq<Seq<char>> {
    Seq::new(v.len(), |i: int| v[i]@)
}

/// Cuts `text` at the first occurrence of `sep`.
///
/// Calls `str::split_once`, which returns the text before the first
/// occurrence of the delimiter and the text after it, or `None` if the
/// delimiter does not occur.
#[verifier::external_body]
fn split_first<'s>(text: &'s str, sep: &str) -> (r: Option<(&'s str, &'s str)>)
    requires
        sep@.len() > 0,
    ensures
        r matches Some(cut) ==> text@ == cut.0@ + sep@ + cut.1@ && forall|j: int|
            0 <= j < cut.0@.len() ==> !occurs_at(text@, sep@, j),
        r is None ==> forall|j: int| !occurs_at(text@, sep@, j),
{
    text.split_once(sep)
}

/// The fields of `text`, borrowed from it.
pub fn split<'s>(text: &'s str, sep: &str) -> (out: Vec<&'s str>)
    ensures
        texts(out@) == split_spec(text@, sep@),
{
    let mut out: Vec<&'s str> = Vec::new();
    if text.is_empty() {
        assert(texts(out@) =~= Seq::<Seq<char>>::empty());
        return out;
    }
    if sep.is_empty() {
        out.push(text);
        assert(texts(out@) =~= seq![text@]);
        return out;
    }
    let mut rest = text;
    assert(texts(out@) + pieces(rest@, sep@) =~= pieces(text@, sep@));
    loop
        invariant
            sep@.len() > 0,
            texts(out@) + pieces(rest@, sep@) == pieces(text@, sep@),
            text@.len() > 0,
        decreases rest@.len(),
    {
        let ghost done = texts(out@);
        match split_first(rest, sep) {
            None => {
                proof {
                    lemma_find(rest@, sep@, 0);
                    if find(rest@, sep@, 0) != -1 {
                        assert(occurs_at(rest@, sep@, find(rest@, sep@, 0)));
                    }
                }
                out.push(rest);
                assert(texts(out@) =~= done + seq![rest@]);
                return out;
            },
            Some((head, tail)) => {
                proof {
                    let i = head@.len() as int;
                    assert(rest@.subrange(i, i + sep@.len()) =~= sep@);
                    lemma_find_unique(rest@, sep@, i);
                    assert(rest@.take(i) =~= head@);
                    assert(rest@.skip(i + sep@.len()) =~= tail@);
                }
                out.push(head);
                assert(texts(out@) =~= done + seq![head@]);
                assert((done + seq![head@]) + pieces(tail@, sep@) =~= done + (seq![head@] + pieces(
                    tail@,
                    sep@,
                )));
                rest = tail;
            },
        }
    }
}

} // verus!
