//! FileScream: watches directory trees for files that are created,
//! changed or removed.
//!
//! The sensor scans the watched trees at every tick, step by step (see
//! `scan`), compares the fingerprints that the scan found with those of
//! the scan before, and says which events are due. Asking the file system
//! is left to the caller.

pub mod events;
pub mod ignore;
pub mod scan;
pub mod state;

use crate::callbacks::{matching, positions, CallbackHub};
use crate::filescream::events::{event_bit, EventMask, FileScreamEvent, FsEventView};
use crate::filescream::ignore::{built, globs_for, IgnoreMatcher};
use crate::filescream::scan::{pairs, Scan};
use crate::filescream::state::{dir_entries, file_entries, lists, DirMap, FileMap};
use crate::names::NameSet;
use vstd::prelude::*;

verus! {

/// How often the trees are scanned.
#[derive(Clone, Copy, Debug, PartialEq, Eq)]
pub struct FileScriptConfig {
    /// the time between two scans, in milliseconds
    pub pulse: u64,
}

impl Default for FileScriptConfig {
    /// A scan every three seconds.
    fn default() -> (r: Self)
        ensures
            r.pulse == 3000,
    {
        FileScriptConfig { pulse: 3000 }
    }
}

impl FileScriptConfig {
    pub fn pulse(self, pulse_ms: u64) -> (r: Self)
        ensures
            r.pulse == pulse_ms,
    {
        FileScriptConfig { pulse: pulse_ms }
    }

    pub fn get_pulse(&self) -> (ms: u64)
        ensures
            ms == self.pulse,
    {
        self.pulse
    }
}

/// The views of a sequence of events.
pub open spec fn event_views(v: Seq<FileScreamEvent>) -> Seq<FsEventView> {
    v.map_values(|e: FileScreamEvent| e@)
}

/// Keeps the entries of `list` whose path `old` does not hold: the files
/// that were created.
pub open spec fn created(list: Seq<(Seq<char>, Seq<u8>)>, old: Map<Seq<char>, Seq<u8>>) -> Seq<
    FsEventView,
>
    decreases list.len(),
{
    if list.len() == 0 {
        Seq::empty()
    } else {
        let e = list.last();
        created(list.drop_last(), old) + if old.contains_key(e.0) {
            Seq::empty()
        } else {
            seq![FsEventView::Created { path: e.0 }]
        }
    }
}

/// Keeps the entries of `list` for which `old` holds another fingerprint:
/// the files that were changed.
pub open spec fn changed(list: Seq<(Seq<char>, Seq<u8>)>, old: Map<Seq<char>, Seq<u8>>) -> Seq<
    FsEventView,
>
    decreases list.len(),
{
    if list.len() == 0 {
        Seq::empty()
    } else {
        let e = list.last();
        changed(list.drop_last(), old) + if old.contains_key(e.0) && old[e.0] != e.1 {
            seq![FsEventView::Changed { path: e.0 }]
        } else {
            Seq::empty()
        }
    }
}

/// Keeps the entries of `list` whose path `new` does not hold: the files
/// that were removed.
pub open spec fn removed(list: Seq<(Seq<char>, Seq<u8>)>, new: Map<Seq<char>, Seq<u8>>) -> Seq<
    FsEventView,
>
    decreases list.len(),
{
    if list.len() == 0 {
        Seq::empty()
    } else {
        let e = list.last();
        removed(list.drop_last(), new) + if new.contains_key(e.0) {
            Seq::empty()
        } else {
            seq![FsEventView::Removed { path: e.0 }]
        }
    }
}

/// The events of a tick: what was created, then what was changed, then
/// what was removed. `new_list` lists the files of the new scan and
/// `old_list` those of the scan before; `old` and `new` are the two scans
/// as maps.
pub open spec fn diff_events(
    new_list: Seq<(Seq<char>, Seq<u8>)>,
    old: Map<Seq<char>, Seq<u8>>,
    old_list: Seq<(Seq<char>, Seq<u8>)>,
    new: Map<Seq<char>, Seq<u8>>,
) -> Seq<FsEventView> {
    created(new_list, old) + changed(new_list, old) + removed(old_list, new)
}

fn same_bytes(a: &[u8; 32], b: &[u8; 32]) -> (r: bool)
    ensures
        r == (a@ == b@),
{
    let mut i: usize = 0;
    while i < 32
        invariant
            i <= 32,
            forall|k: int| 0 <= k < i ==> a@[k] == b@[k],
        decreases 32 - i,
    {
        if a[i] != b[i] {
            return false;
        }
        i += 1;
    }
    assert(a@ =~= b@);
    true
}

/// The events that are due when the files of `new_list` were found and
/// those of `old_list` had been found before. `old` and `new` are the two
/// scans as maps.
pub fn diff(
    new_list: &Vec<(String, [u8; 32])>,
    old: &FileMap,
    old_list: &Vec<(String, [u8; 32])>,
    new: &FileMap,
) -> (events: Vec<FileScreamEvent>)
    ensures
        event_views(events@) == diff_events(
            pairs(new_list@),
            file_entries(*old),
            pairs(old_list@),
            file_entries(*new),
        ),
{
    let mut events: Vec<FileScreamEvent> = Vec::new();
    let ghost nl = pairs(new_list@);
    let ghost ol = pairs(old_list@);
    let ghost om = file_entries(*old);
    let ghost nm = file_entries(*new);
    let mut i: usize = 0;
    while i < new_list.len()
        invariant
            i <= new_list.len(),
            nl == pairs(new_list@),
            om == file_entries(*old),
            event_views(events@) == created(nl.take(i as int), om),
        decreases new_list.len() - i,
    {
        assert(nl.take(i + 1).drop_last() =~= nl.take(i as int));
        let path = &new_list[i].0;
        if old.get(path.as_str()).is_none() {
            events.push(FileScreamEvent::Created { path: path.clone() });
        }
        i += 1;
    }
    let ghost first = event_views(events@);
    let mut i: usize = 0;
    while i < new_list.len()
        invariant
            i <= new_list.len(),
            nl == pairs(new_list@),
            om == file_entries(*old),
            event_views(events@) == first + changed(nl.take(i as int), om),
        decreases new_list.len() - i,
    {
        let ghost sofar = changed(nl.take(i as int), om);
        assert(nl.take(i + 1).drop_last() =~= nl.take(i as int));
        let path = &new_list[i].0;
        let differs = match old.get(path.as_str()) {
            Some(old_hash) => !same_bytes(&old_hash, &new_list[i].1),
            None => false,
        };
        if differs {
            let ev = FileScreamEvent::Changed { path: path.clone() };
            let ghost v = ev@;
            events.push(ev);
            assert((first + sofar) + seq![v] =~= first + (sofar + seq![v]));
        }
        i += 1;
    }
    assert(nl.take(new_list.len() as int) =~= nl);
    let ghost second = event_views(events@);
    let mut j: usize = 0;
    while j < old_list.len()
        invariant
            j <= old_list.len(),
            ol == pairs(old_list@),
            nm == file_entries(*new),
            event_views(events@) == second + removed(ol.take(j as int), nm),
        decreases old_list.len() - j,
    {
        let ghost sofar = removed(ol.take(j as int), nm);
        assert(ol.take(j + 1).drop_last() =~= ol.take(j as int));
        let path = &old_list[j].0;
        if new.get(path.as_str()).is_none() {
            let ev = FileScreamEvent::Removed { path: path.clone() };
            let ghost v = ev@;
            events.push(ev);
            assert((second + sofar) + seq![v] =~= second + (sofar + seq![v]));
        }
        j += 1;
    }
    assert(ol.take(old_list.len() as int) =~= ol);
    events
}

/// Where no file changed between two scans, no event is due: if the two
/// scans agree as maps, then in whatever order their files are listed the
/// events of the tick are none.
pub proof fn lemma_steady_state_is_silent(
    new_list: Seq<(Seq<char>, Seq<u8>)>,
    old_list: Seq<(Seq<char>, Seq<u8>)>,
    m: Map<Seq<char>, Seq<u8>>,
)
    requires
        forall|i: int|
            0 <= i < new_list.len() ==> m.contains_key(#[trigger] new_list[i].0)
                && m[new_list[i].0] == new_list[i].1,
        forall|i: int| 0 <= i < old_list.len() ==> m.contains_key(#[trigger] old_list[i].0),
    ensures
        diff_events(new_list, m, old_list, m) == Seq::<FsEventView>::empty(),
{
    lemma_silent(new_list, m);
    lemma_none_removed(old_list, m);
}

proof fn lemma_silent(list: Seq<(Seq<char>, Seq<u8>)>, m: Map<Seq<char>, Seq<u8>>)
    requires
        forall|i: int|
            0 <= i < list.len() ==> m.contains_key(#[trigger] list[i].0) && m[list[i].0]
                == list[i].1,
    ensures
        created(list, m) == Seq::<FsEventView>::empty(),
        changed(list, m) == Seq::<FsEventView>::empty(),
    decreases list.len(),
{
    if list.len() > 0 {
        lemma_silent(list.drop_last(), m);
    }
}

proof fn lemma_none_removed(list: Seq<(Seq<char>, Seq<u8>)>, m: Map<Seq<char>, Seq<u8>>)
    requires
        forall|i: int| 0 <= i < list.len() ==> m.contains_key(#[trigger] list[i].0),
    ensures
        removed(list, m) == Seq::<FsEventView>::empty(),
    decreases list.len(),
{
    if list.len() > 0 {
        lemma_none_removed(list.drop_last(), m);
    }
}

/// Every change of a file is reported, in whatever order the files are
/// listed: a file that only the new scan found is `Created`, one whose
/// fingerprint differs is `Changed`, one that only the scan before found
/// is `Removed`.
pub proof fn lemma_changes_are_reported(
    new_list: Seq<(Seq<char>, Seq<u8>)>,
    old: Map<Seq<char>, Seq<u8>>,
    old_list: Seq<(Seq<char>, Seq<u8>)>,
    new: Map<Seq<char>, Seq<u8>>,
    i: int,
    j: int,
)
    ensures
        0 <= i < new_list.len() && !old.contains_key(new_list[i].0) ==> diff_events(
            new_list,
            old,
            old_list,
            new,
        ).contains(FsEventView::Created { path: new_list[i].0 }),
        0 <= i < new_list.len() && old.contains_key(new_list[i].0) && old[new_list[i].0]
            != new_list[i].1 ==> diff_events(new_list, old, old_list, new).contains(
            FsEventView::Changed { path: new_list[i].0 },
        ),
        0 <= j < old_list.len() && !new.contains_key(old_list[j].0) ==> diff_events(
            new_list,
            old,
            old_list,
            new,
        ).contains(FsEventView::Removed { path: old_list[j].0 }),
{
    let c = created(new_list, old);
    let h = changed(new_list, old);
    let r = removed(old_list, new);
    let all = diff_events(new_list, old, old_list, new);
    if 0 <= i < new_list.len() {
        lemma_kept(new_list, old, new, i);
        if !old.contains_key(new_list[i].0) {
            let e = FsEventView::Created { path: new_list[i].0 };
            let k = choose|k: int| 0 <= k < c.len() && c[k] == e;
            assert(all[k] == e);
        }
        if old.contains_key(new_list[i].0) && old[new_list[i].0] != new_list[i].1 {
            let e = FsEventView::Changed { path: new_list[i].0 };
            let k = choose|k: int| 0 <= k < h.len() && h[k] == e;
            assert(all[c.len() + k] == e);
        }
    }
    if 0 <= j < old_list.len() {
        lemma_kept(old_list, old, new, j);
        if !new.contains_key(old_list[j].0) {
            let e = FsEventView::Removed { path: old_list[j].0 };
            let k = choose|k: int| 0 <= k < r.len() && r[k] == e;
            assert(all[c.len() + h.len() + k] == e);
        }
    }
}

proof fn lemma_kept(
    list: Seq<(Seq<char>, Seq<u8>)>,
    old: Map<Seq<char>, Seq<u8>>,
    new: Map<Seq<char>, Seq<u8>>,
    i: int,
)
    requires
        0 <= i < list.len(),
    ensures
        !old.contains_key(list[i].0) ==> created(list, old).contains(
            FsEventView::Created { path: list[i].0 },
        ),
        old.contains_key(list[i].0) && old[list[i].0] != list[i].1 ==> changed(
            list,
            old,
        ).contains(FsEventView::Changed { path: list[i].0 }),
        !new.contains_key(list[i].0) ==> removed(list, new).contains(
            FsEventView::Removed { path: list[i].0 },
        ),
    decreases list.len(),
{
    let head = list.drop_last();
    let c = created(list, old);
    let h = changed(list, old);
    let r = removed(list, new);
    if i < list.len() - 1 {
        lemma_kept(head, old, new, i);
        if !old.contains_key(list[i].0) {
            let e = FsEventView::Created { path: list[i].0 };
            let k = choose|k: int| 0 <= k < created(head, old).len() && created(head, old)[k] == e;
            assert(c[k] == e);
        }
        if old.contains_key(list[i].0) && old[list[i].0] != list[i].1 {
            let e = FsEventView::Changed { path: list[i].0 };
            let k = choose|k: int| 0 <= k < changed(head, old).len() && changed(head, old)[k] == e;
            assert(h[k] == e);
        }
        if !new.contains_key(list[i].0) {
            let e = FsEventView::Removed { path: list[i].0 };
            let k = choose|k: int| 0 <= k < removed(head, new).len() && removed(head, new)[k] == e;
            assert(r[k] == e);
        }
    } else {
        if !old.contains_key(list[i].0) {
            assert(c[c.len() - 1] == FsEventView::Created { path: list[i].0 });
        }
        if old.contains_key(list[i].0) && old[list[i].0] != list[i].1 {
            assert(h[h.len() - 1] == FsEventView::Changed { path: list[i].0 });
        }
        if !new.contains_key(list[i].0) {
            assert(r[r.len() - 1] == FsEventView::Removed { path: list[i].0 });
        }
    }
}

/// The file watcher.
pub struct FileScream {
    watched: NameSet,
    ignored: NameSet,
    fstate: FileMap,
    dstate: DirMap,
    config: FileScriptConfig,
    hub: CallbackHub,
    is_primed: bool,
    im: IgnoreMatcher,
}

impl Default for FileScream {
    /// A sensor with the default configuration that watches nothing.
    fn default() -> (r: Self)
        ensures
            r.watched() == Seq::<Seq<char>>::empty(),
            r.ignored() == Seq::<Seq<char>>::empty(),
            r.files() == Map::<Seq<char>, Seq<u8>>::empty(),
            r.dirs() == Map::<Seq<char>, u128>::empty(),
            !r.primed(),
            r.masks() == Seq::<u64>::empty(),
            r.compiled(),
            r.config() == (FileScriptConfig { pulse: 3000 }),
    {
        FileScream::new(None)
    }
}

impl FileScream {
    /// The watched roots.
    pub closed spec fn watched(&self) -> Seq<Seq<char>> {
        self.watched@
    }

    /// The ignore patterns.
    pub closed spec fn ignored(&self) -> Seq<Seq<char>> {
        self.ignored@
    }

    /// The fingerprints of the last scan.
    pub closed spec fn files(&self) -> Map<Seq<char>, Seq<u8>> {
        file_entries(self.fstate)
    }

    /// The stamps of the directories of the last scan.
    pub closed spec fn dirs(&self) -> Map<Seq<char>, u128> {
        dir_entries(self.dstate)
    }

    pub closed spec fn config(&self) -> FileScriptConfig {
        self.config
    }

    pub closed spec fn primed(&self) -> bool {
        self.is_primed
    }

    /// The masks of the callbacks, in the order of registration.
    pub closed spec fn masks(&self) -> Seq<u64> {
        self.hub.masks()
    }

    /// Whether a channel for the results of the callbacks is set.
    pub closed spec fn passes_results(&self) -> bool {
        self.hub.has_results()
    }

    /// The compiled ignore patterns.
    pub closed spec fn matcher(&self) -> IgnoreMatcher {
        self.im
    }

    /// The compiled patterns are those of the ignore patterns.
    pub open spec fn compiled(&self) -> bool {
        &&& self.matcher().any_globs() == built(globs_for(self.ignored(), false))
        &&& self.matcher().dir_globs() == built(globs_for(self.ignored(), true))
    }

    pub fn new(config: Option<FileScriptConfig>) -> (r: Self)
        ensures
            r.watched() == Seq::<Seq<char>>::empty(),
            r.ignored() == Seq::<Seq<char>>::empty(),
            r.files() == Map::<Seq<char>, Seq<u8>>::empty(),
            r.dirs() == Map::<Seq<char>, u128>::empty(),
            !r.primed(),
            r.masks() == Seq::<u64>::empty(),
            !r.passes_results(),
            r.matcher().any_globs() == Seq::<Seq<char>>::empty(),
            r.matcher().dir_globs() == Seq::<Seq<char>>::empty(),
            r.compiled(),
            r.config() == match config {
                Some(c) => c,
                None => FileScriptConfig { pulse: 3000 },
            },
    {
        let config = match config {
            Some(c) => c,
            None => FileScriptConfig::default(),
        };
        FileScream {
            watched: NameSet::new(),
            ignored: NameSet::new(),
            fstate: FileMap::new(),
            dstate: DirMap::new(),
            config,
            hub: CallbackHub::new(),
            is_primed: false,
            im: IgnoreMatcher::default(),
        }
    }

    pub fn get_config(&self) -> (c: FileScriptConfig)
        ensures
            c == self.config(),
    {
        self.config
    }

    /// Puts a directory under watch, with everything below it. The caller
    /// resolves the path first where it can.
    pub fn watch(&mut self, path: &str)
        ensures
            final(self).watched() == if old(self).watched().contains(path@) {
                old(self).watched()
            } else {
                old(self).watched().push(path@)
            },
            final(self).ignored() == old(self).ignored(),
            final(self).files() == old(self).files(),
            final(self).dirs() == old(self).dirs(),
            final(self).primed() == old(self).primed(),
            final(self).masks() == old(self).masks(),
            final(self).matcher() == old(self).matcher(),
            final(self).passes_results() == old(self).passes_results(),
            final(self).config() == old(self).config(),
    {
        self.watched.insert(path.to_owned());
    }

    /// Takes a directory out of the watch.
    pub fn unwatch(&mut self, path: &str)
        ensures
            !final(self).watched().contains(path@),
            forall|n: Seq<char>|
                n != path@ ==> (final(self).watched().contains(n) <==> old(
                    self,
                ).watched().contains(n)),
            final(self).ignored() == old(self).ignored(),
            final(self).files() == old(self).files(),
            final(self).dirs() == old(self).dirs(),
            final(self).primed() == old(self).primed(),
            final(self).masks() == old(self).masks(),
            final(self).matcher() == old(self).matcher(),
            final(self).passes_results() == old(self).passes_results(),
            final(self).config() == old(self).config(),
    {
        self.watched.remove(path);
    }

    /// Adds an ignore pattern: paths that match it are neither scanned
    /// nor reported.
    pub fn ignore(&mut self, pattern: &str)
        ensures
            final(self).ignored() == if old(self).ignored().contains(pattern@) {
                old(self).ignored()
            } else {
                old(self).ignored().push(pattern@)
            },
            final(self).compiled(),
            final(self).watched() == old(self).watched(),
            final(self).files() == old(self).files(),
            final(self).dirs() == old(self).dirs(),
            final(self).primed() == old(self).primed(),
            final(self).masks() == old(self).masks(),
            final(self).passes_results() == old(self).passes_results(),
            final(self).config() == old(self).config(),
    {
        self.ignored.insert(pattern.to_owned());
        self.im = IgnoreMatcher::compile_ignores(&self.ignored);
    }

    /// Takes an ignore pattern back.
    pub fn unignore(&mut self, pattern: &str)
        ensures
            !final(self).ignored().contains(pattern@),
            forall|n: Seq<char>|
                n != pattern@ ==> (final(self).ignored().contains(n) <==> old(
                    self,
                ).ignored().contains(n)),
            final(self).compiled(),
            final(self).watched() == old(self).watched(),
            final(self).files() == old(self).files(),
            final(self).dirs() == old(self).dirs(),
            final(self).primed() == old(self).primed(),
            final(self).masks() == old(self).masks(),
            final(self).passes_results() == old(self).passes_results(),
            final(self).config() == old(self).config(),
    {
        self.ignored.remove(pattern);
        self.im = IgnoreMatcher::compile_ignores(&self.ignored);
    }

    /// Registers a callback for the event kinds of `mask`; gives the
    /// position under which the sensor knows it.
    pub fn add_callback(&mut self, mask: EventMask) -> (slot: usize)
        ensures
            slot == old(self).masks().len(),
            final(self).masks() == old(self).masks().push(mask.bits as u64),
            final(self).watched() == old(self).watched(),
            final(self).ignored() == old(self).ignored(),
            final(self).files() == old(self).files(),
            final(self).dirs() == old(self).dirs(),
            final(self).primed() == old(self).primed(),
            final(self).matcher() == old(self).matcher(),
            final(self).passes_results() == old(self).passes_results(),
            final(self).config() == old(self).config(),
    {
        self.hub.add(mask.bits as u64)
    }

    /// Has what the callbacks give back passed on.
    pub fn set_callback_channel(&mut self)
        ensures
            final(self).passes_results(),
            final(self).masks() == old(self).masks(),
            final(self).watched() == old(self).watched(),
            final(self).ignored() == old(self).ignored(),
            final(self).files() == old(self).files(),
            final(self).dirs() == old(self).dirs(),
            final(self).primed() == old(self).primed(),
            final(self).matcher() == old(self).matcher(),
            final(self).config() == old(self).config(),
    {
        self.hub.set_result_channel();
    }

    /// Whether what a callback gave back is passed on: there must be a
    /// result, and a channel for it.
    pub fn forwards(&self, has_result: bool) -> (r: bool)
        ensures
            r == (has_result && self.passes_results()),
    {
        self.hub.forwards(has_result)
    }

    /// The callbacks to call for `ev`, in the order in which they are to
    /// be called: those whose mask holds the kind of the event, in the
    /// order of registration.
    pub fn fire(&self, ev: &FileScreamEvent) -> (slots: Vec<usize>)
        ensures
            positions(slots@) == matching(self.masks(), event_bit(*ev) as u64),
    {
        self.hub.fire(ev.mask().bits as u64)
    }

    pub fn is_primed(&self) -> (r: bool)
        ensures
            r == self.primed(),
    {
        self.is_primed
    }

    pub fn ignore_matcher(&self) -> (m: &IgnoreMatcher)
        ensures
            *m == self.matcher(),
    {
        &self.im
    }

    /// The fingerprints of the last scan.
    pub fn last_files(&self) -> (m: &FileMap)
        ensures
            file_entries(*m) == self.files(),
    {
        &self.fstate
    }

    /// Begins a scan of the watched trees. The stamps of the directories
    /// go with the scan and come back when it ends.
    pub fn begin_scan(&mut self) -> (scan: Scan)
        ensures
            scan.roots_left() == old(self).watched(),
            scan.root() is None,
            scan.stack() == Seq::<Seq<char>>::empty(),
            scan.files() == Map::<Seq<char>, Seq<u8>>::empty(),
            scan.dirs() == old(self).dirs(),
            final(self).dirs() == Map::<Seq<char>, u128>::empty(),
            final(self).watched() == old(self).watched(),
            final(self).ignored() == old(self).ignored(),
            final(self).files() == old(self).files(),
            final(self).primed() == old(self).primed(),
            final(self).masks() == old(self).masks(),
            final(self).matcher() == old(self).matcher(),
            final(self).passes_results() == old(self).passes_results(),
            final(self).config() == old(self).config(),
    {
        let mut roots: Vec<String> = Vec::new();
        let n = self.watched.len();
        let mut i: usize = 0;
        while i < n
            invariant
                i <= n,
                n == self.watched@.len(),
                crate::names::names_of(roots@) == self.watched@.take(i as int),
            decreases n - i,
        {
            roots.push(self.watched.get(i).clone());
            assert(self.watched@.take(i + 1) =~= self.watched@.take(i as int).push(
                self.watched@[i as int],
            ));
            i += 1;
        }
        let mut dirs = DirMap::new();
        core::mem::swap(&mut self.dstate, &mut dirs);
        Scan::begin(roots, dirs)
    }

    /// Ends a scan and says which events are due. The first scan is the
    /// baseline: nothing is due for it. Every later one is compared with
    /// the scan before it: there are lists of the files of the two scans,
    /// in some order, for which the events are those of `diff_events`:
    /// what was created, then what was changed, then what was removed.
    pub fn finish_scan(&mut self, scan: Scan) -> (events: Vec<FileScreamEvent>)
        ensures
            final(self).files() == scan.files(),
            final(self).dirs() == scan.dirs(),
            final(self).primed(),
            final(self).watched() == old(self).watched(),
            final(self).ignored() == old(self).ignored(),
            final(self).masks() == old(self).masks(),
            final(self).matcher() == old(self).matcher(),
            final(self).passes_results() == old(self).passes_results(),
            final(self).config() == old(self).config(),
            !old(self).primed() ==> events@.len() == 0,
            old(self).primed() ==> exists|
                new_list: Seq<(String, [u8; 32])>,
                old_list: Seq<(String, [u8; 32])>,
            |
                #![trigger lists(new_list, scan.files()), lists(old_list, old(self).files())]
                lists(new_list, scan.files()) && lists(old_list, old(self).files())
                    && event_views(events@) == diff_events(
                    pairs(new_list),
                    old(self).files(),
                    pairs(old_list),
                    scan.files(),
                ),
    {
        let ghost before = self.files();
        let (files, dirs) = scan.finish();
        self.dstate = dirs;
        if !self.is_primed {
            self.fstate = files;
            self.is_primed = true;
            return Vec::new();
        }
        let new_list = files.entries();
        let old_list = self.fstate.entries();
        let events = diff(&new_list, &self.fstate, &old_list, &files);
        self.fstate = files;
        events
    }
}

} // verus!
