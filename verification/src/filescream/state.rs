//! The two maps of the file watcher: the fingerprint of every file and the
//! stamp of every directory, kept in hash maps of the `hashbrown` crate.

use hashbrown::HashMap;
use vstd::prelude::*;

verus! {

/// The fingerprint of every file, by path.
///
/// Trusted: the map is a `hashbrown::HashMap`, which the verifier does not
/// look into. What it holds is `file_entries`; the methods below say what
/// the methods of the hash map do to it.
#[verifier::external_body]
pub struct FileMap {
    inner: HashMap<String, [u8; 32]>,
}

/// The stamp of every directory, by path: its modification time in
/// nanoseconds since the epoch.
///
/// Trusted: the map is a `hashbrown::HashMap`, which the verifier does not
/// look into. What it holds is `dir_entries`; the methods below say what
/// the methods of the hash map do to it.
#[verifier::external_body]
pub struct DirMap {
    inner: HashMap<String, u128>,
}

/// What a map of fingerprints holds.
pub uninterp spec fn file_entries(m: FileMap) -> Map<Seq<char>, Seq<u8>>;

/// What a map of stamps holds.
pub uninterp spec fn dir_entries(m: DirMap) -> Map<Seq<char>, u128>;

/// The paths of a list of files.
pub open spec fn listed_paths(list: Seq<(String, [u8; 32])>) -> Seq<Seq<char>> {
    list.map_values(|e: (String, [u8; 32])| e.0@)
}

/// `list` holds every entry of `m` once, in some order, and nothing else.
pub open spec fn lists(list: Seq<(String, [u8; 32])>, m: Map<Seq<char>, Seq<u8>>) -> bool {
    &&& listed_paths(list).no_duplicates()
    &&& forall|i: int|
        0 <= i < list.len() ==> m.contains_key(#[trigger] list[i].0@) && m[list[i].0@]
            == list[i].1@
    &&& forall|p: Seq<char>| m.contains_key(p) ==> listed_paths(list).contains(p)
}

impl FileMap {
    /// An empty map.
    ///
    /// Trusted: `HashMap::new` creates an empty map.
    #[verifier::external_body]
    pub(crate) fn new() -> (m: FileMap)
        ensures
            file_entries(m) == (Map::<Seq<char>, Seq<u8>>::empty()),
    {
        FileMap { inner: HashMap::new() }
    }

    /// Records `fingerprint` for `path`.
    ///
    /// Trusted: `HashMap::insert` sets the value of the key, whether the
    /// map held the key or not, and leaves every other key as it was.
    #[verifier::external_body]
    pub(crate) fn insert(&mut self, path: String, fingerprint: [u8; 32])
        ensures
            file_entries(*final(self)) == file_entries(*old(self)).insert(path@, fingerprint@),
    {
        self.inner.insert(path, fingerprint);
    }

    /// The fingerprint recorded for `path`.
    ///
    /// Trusted: `HashMap::get` gives the value of the key if the map holds
    /// the key, and nothing otherwise.
    #[verifier::external_body]
    pub(crate) fn get(&self, path: &str) -> (r: Option<[u8; 32]>)
        ensures
            match r {
                Some(f) => file_entries(*self).contains_key(path@) && file_entries(*self)[path@]
                    == f@,
                None => !file_entries(*self).contains_key(path@),
            },
    {
        self.inner.get(path).copied()
    }

    /// Every entry of the map.
    ///
    /// Trusted: `HashMap::iter` visits every key-value pair of the map
    /// once, in an order that nothing is promised of.
    #[verifier::external_body]
    pub(crate) fn entries(&self) -> (list: Vec<(String, [u8; 32])>)
        ensures
            lists(list@, file_entries(*self)),
    {
        self.inner.iter().map(|(k, v)| (k.clone(), *v)).collect()
    }
}

impl DirMap {
    /// An empty map.
    ///
    /// Trusted: `HashMap::new` creates an empty map.
    #[verifier::external_body]
    pub(crate) fn new() -> (m: DirMap)
        ensures
            dir_entries(m) == (Map::<Seq<char>, u128>::empty()),
    {
        DirMap { inner: HashMap::new() }
    }

    /// Records `stamp` for `path`.
    ///
    /// Trusted: `HashMap::insert` sets the value of the key, whether the
    /// map held the key or not, and leaves every other key as it was.
    #[verifier::external_body]
    pub(crate) fn insert(&mut self, path: String, stamp: u128)
        ensures
            dir_entries(*final(self)) == dir_entries(*old(self)).insert(path@, stamp),
    {
        self.inner.insert(path, stamp);
    }

    /// The stamp recorded for `path`.
    ///
    /// Trusted: `HashMap::get` gives the value of the key if the map holds
    /// the key, and nothing otherwise.
    #[verifier::external_body]
    pub(crate) fn get(&self, path: &str) -> (r: Option<u128>)
        ensures
            match r {
                Some(s) => dir_entries(*self).contains_key(path@) && dir_entries(*self)[path@]
                    == s,
                None => !dir_entries(*self).contains_key(path@),
            },
    {
        self.inner.get(path).copied()
    }
}

} // verus!
