//! The scan of the watched trees, step by step. The scan says which path
//! is to be examined next; the caller asks the file system about it and
//! hands the answer back; the scan decides what to record and whether the
//! directory is to be listed.

use crate::filescream::ignore::{ignores, some_glob_matches, IgnoreMatcher};
use crate::filescream::state::{dir_entries, file_entries, DirMap, FileMap};
use crate::names::names_of;
use blake3::Hasher;
use std::path::Path;
use vstd::prelude::*;

verus! {

/// The BLAKE3 hash of `input`: thirty-two bytes.
pub uninterp spec fn blake3_hash(input: Seq<u8>) -> Seq<u8>;

/// Whether `path` lies under the directory `dir`, or is `dir` itself:
/// whether `std::path::Path::strip_prefix` succeeds, which compares whole
/// components.
pub uninterp spec fn path_under(path: Seq<char>, dir: Seq<char>) -> bool;

/// The hash of `first` followed by `second`.
///
/// Trusted: a `blake3::Hasher` that was fed two inputs one after the
/// other gives the hash of the two joined, a function of the bytes alone.
#[verifier::external_body]
fn hash_two(first: &Vec<u8>, second: &Vec<u8>) -> (h: [u8; 32])
    ensures
        h@ == blake3_hash(first@ + second@),
{
    let mut hasher = Hasher::new();
    hasher.update(first);
    hasher.update(second);
    *hasher.finalize().as_bytes()
}

/// Whether `path` lies under `dir`.
///
/// Trusted: the answer of `Path::strip_prefix` depends on the two paths alone.
#[verifier::external_body]
fn is_under(path: &str, dir: &str) -> (r: bool)
    ensures
        r == path_under(path@, dir@),
{
    Path::new(path).strip_prefix(Path::new(dir)).is_ok()
}

/// The `n` low bytes of `v`, least significant first.
pub open spec fn le_bytes(v: nat, n: nat) -> Seq<u8>
    decreases n,
{
    if n == 0 {
        Seq::empty()
    } else {
        seq![(v % 256) as u8] + le_bytes(v / 256, (n - 1) as nat)
    }
}

/// The fingerprint of a file: the hash of its length in eight bytes
/// followed by its modification time, in nanoseconds since the epoch, in
/// sixteen, both least significant byte first.
pub open spec fn fingerprint_of(len: u64, mtime_ns: u128) -> Seq<u8> {
    blake3_hash(le_bytes(len as nat, 8) + le_bytes(mtime_ns as nat, 16))
}

fn bytes_le(v: u128, n: usize) -> (r: Vec<u8>)
    ensures
        r@ == le_bytes(v as nat, n as nat),
    decreases n,
{
    if n == 0 {
        Vec::new()
    } else {
        let mut out: Vec<u8> = Vec::new();
        out.push((v % 256) as u8);
        let mut rest = bytes_le(v / 256, n - 1);
        out.append(&mut rest);
        out
    }
}

pub fn fingerprint(len: u64, mtime_ns: u128) -> (f: [u8; 32])
    ensures
        f@ == fingerprint_of(len, mtime_ns),
{
    let a = bytes_le(len as u128, 8);
    let b = bytes_le(mtime_ns, 16);
    hash_two(&a, &b)
}

/// What the file system says of a path, links not followed.
#[derive(Clone, Copy, Debug, PartialEq, Eq)]
pub enum Meta {
    /// the path could not be examined
    Missing,
    /// a directory, with its modification time in nanoseconds since the epoch
    Dir { mtime_ns: u128 },
    /// a regular file
    File { len: u64, mtime_ns: u128 },
    /// a link, a device, a socket
    Other,
}

/// What is to be done with a path that was examined.
#[derive(Clone, Copy, Debug, PartialEq, Eq)]
pub enum Visit {
    /// nothing more
    Skip,
    /// the directory is to be listed and its entries handed to the scan
    Descend,
}

/// The entries of `list` as plain values.
pub open spec fn pairs(list: Seq<(String, [u8; 32])>) -> Seq<(Seq<char>, Seq<u8>)> {
    list.map_values(|e: (String, [u8; 32])| (e.0@, e.1@))
}

/// The map `files` with the entries of `list` that lie under `dir` written over it.
pub open spec fn carry(
    files: Map<Seq<char>, Seq<u8>>,
    list: Seq<(Seq<char>, Seq<u8>)>,
    dir: Seq<char>,
) -> Map<Seq<char>, Seq<u8>>
    decreases list.len(),
{
    if list.len() == 0 {
        files
    } else {
        let m = carry(files, list.drop_last(), dir);
        if path_under(list.last().0, dir) {
            m.insert(list.last().0, list.last().1)
        } else {
            m
        }
    }
}

/// The map `files` with the entries of `prev` that lie under `dir` written over it.
pub open spec fn carried(
    files: Map<Seq<char>, Seq<u8>>,
    prev: Map<Seq<char>, Seq<u8>>,
    dir: Seq<char>,
) -> Map<Seq<char>, Seq<u8>> {
    Map::new(
        |p: Seq<char>| (prev.contains_key(p) && path_under(p, dir)) || files.contains_key(p),
        |p: Seq<char>|
            if prev.contains_key(p) && path_under(p, dir) {
                prev[p]
            } else {
                files[p]
            },
    )
}

/// The paths of a list of entries.
pub open spec fn paths_of(list: Seq<(Seq<char>, Seq<u8>)>) -> Seq<Seq<char>> {
    list.map_values(|e: (Seq<char>, Seq<u8>)| e.0)
}

proof fn lemma_carry(
    files: Map<Seq<char>, Seq<u8>>,
    list: Seq<(Seq<char>, Seq<u8>)>,
    prev: Map<Seq<char>, Seq<u8>>,
    dir: Seq<char>,
)
    requires
        forall|i: int|
            0 <= i < list.len() ==> prev.contains_key(#[trigger] list[i].0) && prev[list[i].0]
                == list[i].1,
    ensures
        forall|p: Seq<char>|
            #[trigger] carry(files, list, dir).contains_key(p) <==> files.contains_key(p) || (
            paths_of(list).contains(p) && path_under(p, dir)),
        forall|p: Seq<char>|
            #[trigger] carry(files, list, dir).contains_key(p) ==> carry(files, list, dir)[p]
                == if paths_of(list).contains(p) && path_under(p, dir) {
                prev[p]
            } else {
                files[p]
            },
    decreases list.len(),
{
    if list.len() > 0 {
        let head = list.drop_last();
        let last = list.last();
        let n = list.len() - 1;
        lemma_carry(files, head, prev, dir);
        assert forall|p: Seq<char>| paths_of(list).contains(p) <==> paths_of(head).contains(p)
            || p == last.0 by {
            if paths_of(head).contains(p) {
                let k = choose|k: int| 0 <= k < paths_of(head).len() && paths_of(head)[k] == p;
                assert(paths_of(list)[k] == p);
            }
            if p == last.0 {
                assert(paths_of(list)[n] == p);
            }
            if paths_of(list).contains(p) {
                let k = choose|k: int| 0 <= k < paths_of(list).len() && paths_of(list)[k] == p;
                if k < head.len() {
                    assert(paths_of(head)[k] == p);
                }
            }
        }
        let m = carry(files, head, dir);
        let c = carry(files, list, dir);
        assert forall|p: Seq<char>| c.contains_key(p) implies c[p] == if paths_of(list).contains(
            p,
        ) && path_under(p, dir) {
            prev[p]
        } else {
            files[p]
        } by {
        }
    }
}

/// A scan under way.
pub struct Scan {
    /// the roots that are still to be scanned, the next one last
    pending: Vec<String>,
    root: Option<String>,
    stack: Vec<String>,
    files: FileMap,
    dirs: DirMap,
}

impl Scan {
    /// The roots that are still to be scanned.
    pub closed spec fn roots_left(&self) -> Seq<Seq<char>> {
        names_of(self.pending@).reverse()
    }

    /// The root whose tree is being scanned.
    pub closed spec fn root(&self) -> Option<Seq<char>> {
        match self.root {
            Some(r) => Some(r@),
            None => None,
        }
    }

    /// The paths that wait to be examined; the last one is examined first.
    pub closed spec fn stack(&self) -> Seq<Seq<char>> {
        names_of(self.stack@)
    }

    /// The fingerprints found so far.
    pub closed spec fn files(&self) -> Map<Seq<char>, Seq<u8>> {
        file_entries(self.files)
    }

    /// The stamps of the directories: those of the scan before, with those
    /// of the directories seen so far written over them.
    pub closed spec fn dirs(&self) -> Map<Seq<char>, u128> {
        dir_entries(self.dirs)
    }

    /// Begins a scan of the trees under `roots`, with the stamps that the
    /// scan before left.
    pub fn begin(roots: Vec<String>, dirs: DirMap) -> (s: Self)
        ensures
            s.roots_left() == names_of(roots@),
            s.root() is None,
            s.stack() == Seq::<Seq<char>>::empty(),
            s.files() == Map::<Seq<char>, Seq<u8>>::empty(),
            s.dirs() == dir_entries(dirs),
    {
        let ghost all = names_of(roots@);
        let mut rest = roots;
        let mut pending: Vec<String> = Vec::new();
        loop
            invariant
                names_of(rest@) + names_of(pending@).reverse() == all,
            ensures
                names_of(pending@).reverse() == all,
            decreases rest@.len(),
        {
            match rest.pop() {
                Some(r) => {
                    pending.push(r);
                },
                None => {
                    break ;
                },
            }
        }
        Scan { pending, root: None, stack: Vec::new(), files: FileMap::new(), dirs }
    }

    /// The path to examine next: the one that was put on the stack last,
    /// or the next root where the stack is empty. `None` when the scan is
    /// done.
    pub fn next(&mut self) -> (path: Option<String>)
        ensures
            final(self).files() == old(self).files(),
            final(self).dirs() == old(self).dirs(),
            old(self).stack().len() > 0 ==> {
                &&& path matches Some(p)
                &&& p@ == old(self).stack().last()
                &&& final(self).stack() == old(self).stack().drop_last()
                &&& final(self).root() == old(self).root()
                &&& final(self).roots_left() == old(self).roots_left()
            },
            old(self).stack().len() == 0 && old(self).roots_left().len() > 0 ==> {
                &&& path matches Some(p)
                &&& p@ == old(self).roots_left()[0]
                &&& final(self).stack() == old(self).stack()
                &&& final(self).root() == Some(p@)
                &&& final(self).roots_left() == old(self).roots_left().drop_first()
            },
            old(self).stack().len() == 0 && old(self).roots_left().len() == 0 ==> {
                &&& path is None
                &&& final(self).stack() == old(self).stack()
                &&& final(self).root() == old(self).root()
                &&& final(self).roots_left() == old(self).roots_left()
            },
    {
        match self.stack.pop() {
            Some(p) => {
                Some(p)
            },
            None => {
                match self.pending.pop() {
                    Some(r) => {
                        self.root = Some(r.clone());
                        Some(r)
                    },
                    None => None,
                }
            },
        }
    }

    /// Records what the file system says of `path`, and says whether the
    /// directory is to be listed. A path that could not be examined or that
    /// the ignore patterns pass over leaves no trace. The stamp of a
    /// directory is recorded; if it is the stamp of the scan before, and
    /// the directory is no root, the files that the scan before found
    /// under it are taken over and the directory is not listed. The
    /// fingerprint of a regular file is recorded. Anything else is passed
    /// over.
    pub fn visit(&mut self, path: &str, meta: Meta, ignore: &IgnoreMatcher, prev_files: &FileMap)
        -> (v: Visit)
        ensures
            final(self).stack() == old(self).stack(),
            final(self).root() == old(self).root(),
            final(self).roots_left() == old(self).roots_left(),
            v == visit_of(
                path@,
                meta,
                ignores(ignore.any_globs(), ignore.dir_globs(), path@, meta is Dir),
                old(self).dirs(),
                old(self).root(),
            ),
            final(self).dirs() == dirs_after(
                path@,
                meta,
                ignores(ignore.any_globs(), ignore.dir_globs(), path@, meta is Dir),
                old(self).dirs(),
            ),
            final(self).files() == files_after(
                path@,
                meta,
                ignores(ignore.any_globs(), ignore.dir_globs(), path@, meta is Dir),
                old(self).dirs(),
                old(self).root(),
                old(self).files(),
                file_entries(*prev_files),
            ),
    {
        let is_dir = match meta {
            Meta::Dir { .. } => true,
            _ => false,
        };
        match meta {
            Meta::Missing => {
                return Visit::Skip;
            },
            _ => {},
        }
        if ignore.is_ignored(path, is_dir) {
            return Visit::Skip;
        }
        match meta {
            Meta::Dir { mtime_ns } => {
                let old_stamp = self.dirs.get(path);
                self.dirs.insert(path.to_owned(), mtime_ns);
                let is_root = match &self.root {
                    Some(r) => crate::names::same_text(r.as_str(), path),
                    None => false,
                };
                let unchanged = match old_stamp {
                    Some(s) => s == mtime_ns,
                    None => false,
                };
                if unchanged && !is_root {
                    let list = prev_files.entries();
                    let ghost files0 = file_entries(self.files);
                    let ghost l = pairs(list@);
                    let ghost prev = file_entries(*prev_files);
                    let mut i: usize = 0;
                    while i < list.len()
                        invariant
                            i <= list.len(),
                            l == pairs(list@),
                            file_entries(self.files) == carry(files0, l.take(i as int), path@),
                            self.pending == old(self).pending,
                            self.root == old(self).root,
                            self.stack == old(self).stack,
                            dir_entries(self.dirs) == dir_entries(old(self).dirs).insert(
                                path@,
                                mtime_ns,
                            ),
                        decreases list.len() - i,
                    {
                        assert(l.take(i + 1).drop_last() =~= l.take(i as int));
                        if is_under(list[i].0.as_str(), path) {
                            self.files.insert(list[i].0.clone(), list[i].1);
                        }
                        i += 1;
                    }
                    proof {
                        assert(l.take(list.len() as int) =~= l);
                        lemma_carry(files0, l, prev, path@);
                        assert(paths_of(l) =~= crate::filescream::state::listed_paths(list@));
                    }
                    Visit::Skip
                } else {
                    Visit::Descend
                }
            },
            Meta::File { len, mtime_ns } => {
                let f = fingerprint(len, mtime_ns);
                self.files.insert(path.to_owned(), f);
                Visit::Skip
            },
            _ => Visit::Skip,
        }
    }

    /// Takes the entries of a directory that was listed: they are
    /// examined next, the last one first.
    pub fn children(&mut self, entries: Vec<String>)
        ensures
            final(self).stack() == old(self).stack() + names_of(entries@),
            final(self).root() == old(self).root(),
            final(self).roots_left() == old(self).roots_left(),
            final(self).files() == old(self).files(),
            final(self).dirs() == old(self).dirs(),
    {
        let mut entries = entries;
        self.stack.append(&mut entries);
    }

    /// Ends the scan: the fingerprints that were found and the stamps.
    pub fn finish(self) -> (r: (FileMap, DirMap))
        ensures
            file_entries(r.0) == self.files(),
            dir_entries(r.1) == self.dirs(),
    {
        (self.files, self.dirs)
    }
}

/// Whether the directory `path` has the stamp that the scan before recorded.
pub open spec fn same_stamp(path: Seq<char>, mtime_ns: u128, dirs: Map<Seq<char>, u128>) -> bool {
    dirs.contains_key(path) && dirs[path] == mtime_ns
}

/// Whether the directory at `path` is listed: it is, unless the path
/// could not be examined or is passed over, or the directory is no root
/// and has the stamp of the scan before.
pub open spec fn visit_of(
    path: Seq<char>,
    meta: Meta,
    ignored: bool,
    dirs: Map<Seq<char>, u128>,
    root: Option<Seq<char>>,
) -> Visit {
    match meta {
        Meta::Dir { mtime_ns } => if ignored || (same_stamp(path, mtime_ns, dirs) && root != Some(
            path,
        )) {
            Visit::Skip
        } else {
            Visit::Descend
        },
        _ => Visit::Skip,
    }
}

/// The stamps after a path was examined: that of a directory that is not
/// passed over is recorded.
pub open spec fn dirs_after(
    path: Seq<char>,
    meta: Meta,
    ignored: bool,
    dirs: Map<Seq<char>, u128>,
) -> Map<Seq<char>, u128> {
    match meta {
        Meta::Dir { mtime_ns } => if ignored {
            dirs
        } else {
            dirs.insert(path, mtime_ns)
        },
        _ => dirs,
    }
}

/// The fingerprints after a path was examined.
pub open spec fn files_after(
    path: Seq<char>,
    meta: Meta,
    ignored: bool,
    dirs: Map<Seq<char>, u128>,
    root: Option<Seq<char>>,
    files: Map<Seq<char>, Seq<u8>>,
    prev: Map<Seq<char>, Seq<u8>>,
) -> Map<Seq<char>, Seq<u8>> {
    if ignored {
        files
    } else {
        match meta {
            Meta::Dir { mtime_ns } => if same_stamp(path, mtime_ns, dirs) && root != Some(path) {
                carried(files, prev, path)
            } else {
                files
            },
            Meta::File { len, mtime_ns } => files.insert(path, fingerprint_of(len, mtime_ns)),
            _ => files,
        }
    }
}

/// A path that the ignore patterns pass over leaves no trace and is not
/// listed: a directory that a pattern for directories matches, and
/// anything that a pattern for any path matches.
pub proof fn lemma_ignored_is_pruned(
    any: Seq<Seq<char>>,
    dir_only: Seq<Seq<char>>,
    path: Seq<char>,
    meta: Meta,
    dirs: Map<Seq<char>, u128>,
    root: Option<Seq<char>>,
    files: Map<Seq<char>, Seq<u8>>,
    prev: Map<Seq<char>, Seq<u8>>,
)
    requires
        some_glob_matches(any, path) || (meta is Dir && some_glob_matches(dir_only, path)),
    ensures
        ignores(any, dir_only, path, meta is Dir),
        visit_of(path, meta, true, dirs, root) == Visit::Skip,
        dirs_after(path, meta, true, dirs) == dirs,
        files_after(path, meta, true, dirs, root, files, prev) == files,
{
}

/// A pattern for directories prunes directories only: a regular file that
/// no pattern for any path matches is recorded with its fingerprint,
/// whatever the patterns for directories are. So it is where there are no
/// patterns for any path, and where there are no patterns at all.
pub proof fn lemma_directory_patterns_spare_files(
    any: Seq<Seq<char>>,
    dir_only: Seq<Seq<char>>,
    path: Seq<char>,
    len: u64,
    mtime_ns: u128,
    dirs: Map<Seq<char>, u128>,
    root: Option<Seq<char>>,
    files: Map<Seq<char>, Seq<u8>>,
    prev: Map<Seq<char>, Seq<u8>>,
)
    requires
        any.len() == 0 || !crate::filescream::ignore::set_matches(any, path),
    ensures
        !ignores(any, dir_only, path, false),
        files_after(
            path,
            Meta::File { len, mtime_ns },
            ignores(any, dir_only, path, false),
            dirs,
            root,
            files,
            prev,
        ) == files.insert(path, fingerprint_of(len, mtime_ns)),
{
}

/// A directory below a root whose stamp is that of the scan before is
/// not listed: the files that the scan before found under it are taken
/// over as they are.
pub proof fn lemma_unchanged_directory_is_not_read(
    path: Seq<char>,
    mtime_ns: u128,
    dirs: Map<Seq<char>, u128>,
    root: Option<Seq<char>>,
    files: Map<Seq<char>, Seq<u8>>,
    prev: Map<Seq<char>, Seq<u8>>,
)
    requires
        dirs.contains_key(path),
        dirs[path] == mtime_ns,
        root != Some(path),
    ensures
        visit_of(path, Meta::Dir { mtime_ns }, false, dirs, root) == Visit::Skip,
        files_after(path, Meta::Dir { mtime_ns }, false, dirs, root, files, prev) == carried(
            files,
            prev,
            path,
        ),
        forall|p: Seq<char>|
            prev.contains_key(p) && path_under(p, path) ==> #[trigger] carried(
                files,
                prev,
                path,
            ).contains_key(p) && carried(files, prev, path)[p] == prev[p],
{
}

/// A root is listed whatever its stamp is.
pub proof fn lemma_root_is_always_read(
    path: Seq<char>,
    mtime_ns: u128,
    dirs: Map<Seq<char>, u128>,
)
    ensures
        visit_of(path, Meta::Dir { mtime_ns }, false, dirs, Some(path)) == Visit::Descend,
{
}

} // verus!
