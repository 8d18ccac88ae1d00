//! A cache of compiled regular expressions, keyed by their pattern.

use crate::common::{ErrorKind, Result, VmError};
use crate::lazy_str::Str;
use crate::registry::Registry;
use regex::Regex;
use vstd::prelude::*;
use vstd::string::*;
use vstd::utf8::*;

verus! {

#[verifier::external_type_specification]
#[verifier::external_body]
pub struct ExRegex(Regex);

#[verifier::external_type_specification]
#[verifier::external_body]
pub struct ExRegexError(regex::Error);

/// What compiling `pattern` gives: the compiled expression, or `None` for a
/// pattern that does not compile.
pub uninterp spec fn compile_result(pattern: Seq<char>) -> Option<Regex>;

/// Whether the compiled expression `re` matches anywhere in `subject`.
pub uninterp spec fn regex_accepts(re: Regex, subject: Seq<char>) -> bool;

/// Whether `pattern` compiles to a regular expression.
pub open spec fn pattern_compiles(pattern: Seq<char>) -> bool {
    compile_result(pattern) is Some
}

/// Whether the regular expression written as `pattern` matches anywhere in
/// `subject`.
pub open spec fn pattern_matches(pattern: Seq<char>, subject: Seq<char>) -> bool {
    regex_accepts(compile_result(pattern)->0, subject)
}

/// Compiles `pattern`.
///
/// Calls `Regex::new`, which returns the compiled expression, or an error
/// for a pattern that is invalid or compiles to more than the default size
/// limit. What it returns depends on the pattern alone.
#[verifier::external_body]
fn compile(pattern: &str) -> (r: core::result::Result<Regex, regex::Error>)
    ensures
        r is Ok <==> compile_result(pattern@) is Some,
        r matches Ok(re) ==> compile_result(pattern@) == Some(re),
{
    Regex::new(pattern)
}

/// Whether `re` matches anywhere in `subject`.
///
/// Calls `Regex::is_match`, whose answer depends on the expression and the
/// subject alone.
#[verifier::external_body]
fn is_match(re: &Regex, subject: &str) -> (b: bool)
    ensures
        b == regex_accepts(*re, subject@),
{
    re.is_match(subject)
}

/// The message of a compile error, as the regex library words it.
#[verifier::external_body]
fn error_text(e: &regex::Error) -> String {
    format!("{}", e)
}

/// Compiled regular expressions, each compiled on first use and kept.
pub struct RegexCache(Registry<Regex>);

impl RegexCache {
    /// The cache's invariant: each expression is filed under the bytes of
    /// the pattern it was compiled from.
    pub closed spec fn wf(&self) -> bool {
        &&& self.0.wf()
        &&& forall|k: Seq<u8>| #[trigger]
            self.0@.contains_key(k) ==> compile_result(decode_utf8(k)) == Some(self.0@[k])
    }

    /// The patterns compiled so far, as bytes.
    pub closed spec fn patterns(&self) -> Set<Seq<u8>> {
        self.0@.dom()
    }

    /// The number of compilations that the cache has made.
    pub closed spec fn compiled(&self) -> nat {
        self.0.made()
    }

    /// Whether the pattern `pat` matches anywhere in the text `subject`. The
    /// pattern is compiled if it is new to the cache.
    fn match_text(&mut self, pat: &Str, subject: &str) -> (r: Result<bool>)
        requires
            old(self).wf(),
        ensures
            final(self).wf(),
            final(self).matched_from(old(self), pat),
            pattern_compiles(pat.text()) ==> (r matches Ok(b) && b == pattern_matches(
                pat.text(),
                subject@,
            )),
            !pattern_compiles(pat.text()) ==> (r matches Err(e) && e.kind == ErrorKind::Compile),
    {
        let new = |p: &str| -> (r: Result<Regex>)
            ensures
                r is Ok <==> compile_result(p@) is Some,
                r matches Ok(re) ==> compile_result(p@) == Some(re),
                r matches Err(e) ==> e.kind == ErrorKind::Compile,
            {
                match compile(p) {
                    Ok(re) => Ok(re),
                    Err(e) => Err(VmError::new(ErrorKind::Compile, error_text(&e))),
                }
            };
        let getter = |re: &mut Regex| -> (b: bool)
            ensures
                *final(re) == *old(re),
                b == regex_accepts(*old(re), subject@),
            { is_match(re, subject) };
        proof {
            encode_utf8_decode_utf8(pat.text());
        }
        self.0.get(pat, new, getter)
    }

    /// How one match against the pattern `pat` changes the cache: a pattern
    /// that compiles is in the cache afterwards, and was compiled now only
    /// if it was new; a pattern that does not compile changes nothing.
    pub open spec fn matched_from(&self, before: &Self, pat: &Str) -> bool {
        if pattern_compiles(pat.text()) {
            &&& self.patterns() == before.patterns().insert(pat@)
            &&& self.compiled() == before.compiled() + if before.patterns().contains(pat@) {
                0nat
            } else {
                1nat
            }
        } else {
            &&& self.patterns() == before.patterns()
            &&& self.compiled() == before.compiled()
        }
    }

    /// Whether the pattern `pat` matches anywhere in `s`. A pattern is
    /// compiled on its first use and reused afterwards; one that does not
    /// compile is a compile error.
    pub fn match_regex(&mut self, pat: &Str, s: &Str) -> (r: Result<bool>)
        requires
            old(self).wf(),
        ensures
            final(self).wf(),
            final(self).matched_from(old(self), pat),
            pattern_compiles(pat.text()) ==> (r matches Ok(b) && b == pattern_matches(
                pat.text(),
                s.text(),
            )),
            !pattern_compiles(pat.text()) ==> (r matches Err(e) && e.kind == ErrorKind::Compile),
    {
        match s.peek() {
            Some(subject) => self.match_text(pat, subject),
            None => {
                let subject = s.flatten();
                self.match_text(pat, subject.as_str())
            },
        }
    }
}

impl Default for RegexCache {
    /// A cache without patterns.
    fn default() -> (r: Self)
        ensures
            r.wf(),
            r.patterns() == Set::<Seq<u8>>::empty(),
            r.compiled() == 0,
    {
        let r = RegexCache(Registry::default());
        proof {
            assert(r.patterns() =~= Set::<Seq<u8>>::empty());
        }
        r
    }
}

} // verus!
