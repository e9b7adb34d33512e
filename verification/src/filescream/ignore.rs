//! The ignore patterns of the file watcher, compiled into two sets of
//! globs of the `globset` crate: one for any path, one for directories only.

use crate::names::NameSet;
use crate::text::{append, append_str, slice, str_chars, string_from_chars};
use globset::{Glob, GlobSet, GlobSetBuilder};
use vstd::prelude::*;

verus! {

/// `globset::GlobSet`, a set of compiled globs, as a value that the
/// verifier does not look into.
#[verifier::external_type_specification]
#[verifier::external_body]
pub struct ExGlobSet(GlobSet);

/// `globset::GlobSetBuilder`, the globs of a set in the making, as a value
/// that the verifier does not look into.
#[verifier::external_type_specification]
#[verifier::external_body]
pub struct ExGlobSetBuilder(GlobSetBuilder);

/// Whether `pat` is a well-formed glob: whether `globset::Glob::new` accepts it.
pub uninterp spec fn glob_ok(pat: Seq<char>) -> bool;

/// The globs that were added to a builder, as their texts, in order.
pub uninterp spec fn builder_globs(b: GlobSetBuilder) -> Seq<Seq<char>>;

/// The globs of a set, as their texts, in the order in which they were
/// added: what was handed to the builder of this set. The name is for the
/// set that it is asked of; two sets are never held against each other.
pub uninterp spec fn set_globs(s: GlobSet) -> Seq<Seq<char>>;

/// Whether a set can be built of these globs: whether
/// `globset::GlobSetBuilder::build` succeeds on them.
pub uninterp spec fn set_builds(globs: Seq<Seq<char>>) -> bool;

/// Whether some glob of a set of these globs matches `path`: what
/// `globset::GlobSet::is_match` answers, on a target whose only path
/// separator is the slash.
pub uninterp spec fn set_matches(globs: Seq<Seq<char>>, path: Seq<char>) -> bool;

/// A builder without globs.
///
/// Trusted: `GlobSetBuilder::new` creates a builder that holds no glob.
#[verifier::external_body]
fn new_builder() -> (b: GlobSetBuilder)
    ensures
        builder_globs(b) == Seq::<Seq<char>>::empty(),
{
    GlobSetBuilder::new()
}

/// Adds the glob `pat` to the builder if it is well formed; says whether it is.
///
/// Trusted: `Glob::new` reads the pattern and nothing else, and
/// `GlobSetBuilder::add` puts the glob after those that the builder holds.
#[verifier::external_body]
fn add_glob(b: &mut GlobSetBuilder, pat: &str) -> (ok: bool)
    ensures
        ok == glob_ok(pat@),
        builder_globs(*final(b)) == if ok {
            builder_globs(*old(b)).push(pat@)
        } else {
            builder_globs(*old(b))
        },
{
    match Glob::new(pat) {
        Ok(g) => {
            b.add(g);
            true
        },
        Err(_) => false,
    }
}

/// The set of the globs of the builder, if it can be built.
///
/// Trusted: `GlobSetBuilder::build` builds a set of the globs that were
/// added, in their order; whether it succeeds depends on those globs
/// alone, and on none it succeeds.
#[verifier::external_body]
fn build_set(b: &GlobSetBuilder) -> (r: Option<GlobSet>)
    ensures
        r is Some <==> set_builds(builder_globs(*b)),
        r matches Some(s) ==> set_globs(s) == builder_globs(*b),
        builder_globs(*b).len() == 0 ==> r is Some,
{
    b.build().ok()
}

/// Whether some glob of the set matches `path`.
///
/// Trusted: the answer of `GlobSet::is_match` depends on the globs of the
/// set and on the path alone; a set without globs matches nothing.
#[verifier::external_body]
fn set_is_match(s: &GlobSet, path: &str) -> (r: bool)
    ensures
        r == set_matches(set_globs(*s), path@),
        set_globs(*s).len() == 0 ==> !r,
{
    s.is_match(path)
}

/// A pattern that ends in a slash stands for directories only.
pub open spec fn is_dir_only(raw: Seq<char>) -> bool {
    raw.len() > 0 && raw.last() == '/'
}

/// The length of `raw` without the slashes at its end.
pub open spec fn trimmed_len(raw: Seq<char>) -> int
    decreases raw.len(),
{
    if raw.len() > 0 && raw.last() == '/' {
        trimmed_len(raw.drop_last())
    } else {
        raw.len() as int
    }
}

/// The glob that an ignore pattern stands for. The slashes at its end are
/// dropped. A pattern that begins with a slash is anchored at the root of
/// the file system and taken as it is; any other may match anywhere, and
/// is prefixed with `**/`.
pub open spec fn glob_for(raw: Seq<char>) -> Seq<char> {
    let pat = raw.subrange(0, trimmed_len(raw));
    if pat.len() > 0 && pat[0] == '/' {
        pat
    } else {
        "**/"@ + pat
    }
}

/// The globs of the patterns of one kind (for directories only, or for
/// any path) that are well formed, in the order of the patterns.
pub open spec fn globs_for(patterns: Seq<Seq<char>>, dir_only: bool) -> Seq<Seq<char>>
    decreases patterns.len(),
{
    if patterns.len() == 0 {
        Seq::empty()
    } else {
        let head = globs_for(patterns.drop_last(), dir_only);
        let raw = patterns.last();
        if is_dir_only(raw) == dir_only && glob_ok(glob_for(raw)) {
            head.push(glob_for(raw))
        } else {
            head
        }
    }
}

/// The globs of the set that is built of `globs`: none where it cannot be built.
pub open spec fn built(globs: Seq<Seq<char>>) -> Seq<Seq<char>> {
    if set_builds(globs) {
        globs
    } else {
        Seq::empty()
    }
}

/// Whether some glob of `globs` matches `path`. Without globs none does.
pub open spec fn some_glob_matches(globs: Seq<Seq<char>>, path: Seq<char>) -> bool {
    globs.len() > 0 && set_matches(globs, path)
}

/// Whether a path is passed over, by the globs for any path and those for
/// directories only: a directory where a glob for directories matches it,
/// and anything where a glob for any path does.
pub open spec fn ignores(any: Seq<Seq<char>>, dir_only: Seq<Seq<char>>, path: Seq<char>, is_dir: bool)
    -> bool {
    (is_dir && some_glob_matches(dir_only, path)) || some_glob_matches(any, path)
}

/// The compiled ignore patterns.
pub struct IgnoreMatcher {
    any: GlobSet,
    dir_only: GlobSet,
}

fn build_or_empty(b: &GlobSetBuilder) -> (s: GlobSet)
    ensures
        set_globs(s) == built(builder_globs(*b)),
{
    match build_set(b) {
        Some(s) => s,
        None => {
            let e = new_builder();
            match build_set(&e) {
                Some(s) => s,
                None => vstd::pervasive::unreached(),
            }
        },
    }
}

fn glob_text(raw: &str) -> (r: (String, bool))
    ensures
        r.0@ == glob_for(raw@),
        r.1 == is_dir_only(raw@),
{
    let chars = str_chars(raw);
    let n = chars.len();
    let dir_only = n > 0 && chars[n - 1] == '/';
    let mut end: usize = n;
    assert(chars@.take(n as int) =~= chars@);
    while end > 0 && chars[end - 1] == '/'
        invariant
            end <= n,
            n == chars.len(),
            trimmed_len(chars@) == trimmed_len(chars@.take(end as int)),
        decreases end,
    {
        assert(chars@.take(end as int).drop_last() =~= chars@.take(end - 1));
        end -= 1;
    }
    let pat = slice(&chars, 0, end);
    if pat.len() > 0 && pat[0] == '/' {
        (string_from_chars(&pat), dir_only)
    } else {
        let mut out: Vec<char> = Vec::new();
        append_str(&mut out, "**/");
        append(&mut out, &pat);
        (string_from_chars(&out), dir_only)
    }
}

impl Default for IgnoreMatcher {
    /// A matcher that passes over nothing.
    fn default() -> (m: Self)
        ensures
            m.any_globs() == Seq::<Seq<char>>::empty(),
            m.dir_globs() == Seq::<Seq<char>>::empty(),
    {
        let b = new_builder();
        let any = build_or_empty(&b);
        let dir_only = build_or_empty(&b);
        IgnoreMatcher { any, dir_only }
    }
}

impl IgnoreMatcher {
    /// The globs that pass over any path.
    pub closed spec fn any_globs(&self) -> Seq<Seq<char>> {
        set_globs(self.any)
    }

    /// The globs that pass over directories only.
    pub closed spec fn dir_globs(&self) -> Seq<Seq<char>> {
        set_globs(self.dir_only)
    }

    /// Compiles the ignore patterns. A pattern that is no well-formed glob
    /// is dropped. Where a set cannot be built of the globs of one kind,
    /// that kind passes over nothing.
    pub fn compile_ignores(patterns: &NameSet) -> (m: Self)
        ensures
            m.any_globs() == built(globs_for(patterns@, false)),
            m.dir_globs() == built(globs_for(patterns@, true)),
    {
        let mut any_b = new_builder();
        let mut dir_b = new_builder();
        let n = patterns.len();
        let mut i: usize = 0;
        while i < n
            invariant
                i <= n,
                n == patterns@.len(),
                builder_globs(any_b) == globs_for(patterns@.take(i as int), false),
                builder_globs(dir_b) == globs_for(patterns@.take(i as int), true),
            decreases n - i,
        {
            assert(patterns@.take(i + 1).drop_last() =~= patterns@.take(i as int));
            let (glob, dir_only) = glob_text(patterns.get(i).as_str());
            if dir_only {
                add_glob(&mut dir_b, glob.as_str());
            } else {
                add_glob(&mut any_b, glob.as_str());
            }
            i += 1;
        }
        assert(patterns@.take(n as int) =~= patterns@);
        let any = build_or_empty(&any_b);
        let dir_only = build_or_empty(&dir_b);
        IgnoreMatcher { any, dir_only }
    }

    /// Whether `path` is passed over: whether a glob for any path matches
    /// it or, if it is a directory, a glob for directories does.
    pub fn is_ignored(&self, path: &str, is_dir: bool) -> (r: bool)
        ensures
            r == ignores(self.any_globs(), self.dir_globs(), path@, is_dir),
    {
        (is_dir && set_is_match(&self.dir_only, path)) || set_is_match(&self.any, path)
    }
}

} // verus!
