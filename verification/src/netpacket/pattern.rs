//! Glob patterns, matched by the `glob` crate.

use glob::Pattern;
use vstd::prelude::*;

verus! {

/// Whether `pat` is a well-formed glob pattern: whether `glob::Pattern::new`
/// accepts it.
pub uninterp spec fn glob_compiles(pat: Seq<char>) -> bool;

/// Whether the glob pattern `pat` matches `text` as a whole: what
/// `glob::Pattern::matches` answers for the pattern compiled from `pat`,
/// on a target whose only path separator is the slash.
pub uninterp spec fn glob_matches(pat: Seq<char>, text: Seq<char>) -> bool;

/// A pattern without an opening bracket and without two stars in a row.
/// Such a pattern holds characters that stand for themselves, question
/// marks and single stars, as `*.example.com` does.
pub open spec fn is_simple(pat: Seq<char>) -> bool {
    &&& forall|i: int| 0 <= i < pat.len() ==> pat[i] != '['
    &&& forall|i: int|
        0 <= i < pat.len() - 1 ==> !(#[trigger] pat[i] == '*' && pat[i + 1] == '*')
}

/// Whether `pat` is a well-formed glob pattern.
///
/// Trusted: the result is that of `glob::Pattern::new`, which reads the
/// pattern and nothing else; `Ok` stands for `true`. It fails only at two
/// or more stars in a row or at an opening bracket, so a simple pattern is
/// well formed.
#[verifier::external_body]
pub(crate) fn compiles(pat: &str) -> (r: bool)
    ensures
        r == glob_compiles(pat@),
        is_simple(pat@) ==> r,
{
    Pattern::new(pat).is_ok()
}

/// Whether the pattern `pat` matches `text`.
///
/// Trusted: the pattern is compiled with `glob::Pattern::new` and asked
/// with `glob::Pattern::matches`, which uses the default options: case
/// counts, and a star may stand for a separator. The answer depends on the
/// two texts alone.
#[verifier::external_body]
pub(crate) fn pattern_matches(pat: &str, text: &str) -> (r: bool)
    requires
        glob_compiles(pat@),
    ensures
        r == glob_matches(pat@, text@),
{
    match Pattern::new(pat) {
        Ok(p) => p.matches(text),
        Err(_) => false,
    }
}

/// Some pattern of `pats` matches `text`.
pub open spec fn any_match(pats: Seq<Seq<char>>, text: Seq<char>) -> bool {
    exists|i: int| 0 <= i < pats.len() && glob_matches(#[trigger] pats[i], text)
}

pub open spec fn all_compile(pats: Seq<Seq<char>>) -> bool {
    forall|i: int| 0 <= i < pats.len() ==> glob_compiles(#[trigger] pats[i])
}

/// Whether some pattern of `pats` matches `text`.
pub(crate) fn any_matches(pats: &Vec<String>, text: &str) -> (r: bool)
    requires
        all_compile(crate::names::names_of(pats@)),
    ensures
        r == any_match(crate::names::names_of(pats@), text@),
{
    let ghost ps = crate::names::names_of(pats@);
    let mut i: usize = 0;
    while i < pats.len()
        invariant
            i <= pats.len(),
            ps == crate::names::names_of(pats@),
            all_compile(ps),
            forall|k: int| 0 <= k < i ==> !glob_matches(#[trigger] ps[k], text@),
        decreases pats.len() - i,
    {
        assert(ps[i as int] == pats@[i as int]@);
        if pattern_matches(pats[i].as_str(), text) {
            return true;
        }
        i += 1;
    }
    false
}

} // verus!
