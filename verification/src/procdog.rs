//! ProcDog: watches named processes.
//!
//! The sensor is handed the list of running processes at every tick; it
//! compares the process ids of each watched name with those it saw last
//! and says which events are due. Listing the processes is left to the
//! caller.

pub mod events;

use crate::names::{same_text, NameSet};
use crate::procdog::events::{ProcDogEvent, ProcEventView};
use crate::text::{
    decimal_number, fields, lines, lines_of, parse_decimal, split_whitespace, str_chars,
    string_from_chars, texts,
};
use vstd::prelude::*;

verus! {

/// A listing of processes as plain values.
pub open spec fn listing(procs: Seq<(i32, String)>) -> Seq<(i32, Seq<char>)> {
    procs.map_values(|p: (i32, String)| (p.0, p.1@))
}

/// The views of a sequence of events.
pub open spec fn event_views(v: Seq<ProcDogEvent>) -> Seq<ProcEventView> {
    v.map_values(|e: ProcDogEvent| e@)
}

/// The process ids that run under `name`, each once, in the order of the listing.
pub open spec fn pids_of(procs: Seq<(i32, Seq<char>)>, name: Seq<char>) -> Seq<i32>
    decreases procs.len(),
{
    if procs.len() == 0 {
        Seq::empty()
    } else {
        let head = pids_of(procs.drop_last(), name);
        let p = procs.last();
        if p.1 == name && !head.contains(p.0) {
            head.push(p.0)
        } else {
            head
        }
    }
}

/// The elements of `a` that `b` does not hold, in the order of `a`.
pub open spec fn minus(a: Seq<i32>, b: Seq<i32>) -> Seq<i32>
    decreases a.len(),
{
    if a.len() == 0 {
        Seq::empty()
    } else {
        let head = minus(a.drop_last(), b);
        if b.contains(a.last()) {
            head
        } else {
            head.push(a.last())
        }
    }
}

/// The names of the rows of a state.
pub open spec fn row_names(state: Seq<(Seq<char>, Seq<i32>)>) -> Seq<Seq<char>> {
    state.map_values(|r: (Seq<char>, Seq<i32>)| r.0)
}

/// The process ids that the state holds for `name`; none if it has no row for it.
pub open spec fn pids_in(state: Seq<(Seq<char>, Seq<i32>)>, name: Seq<char>) -> Seq<i32> {
    match row_names(state).index_of_first(name) {
        Some(k) => state[k].1,
        None => Seq::empty(),
    }
}

/// The state with `pids` as the row of `name`.
pub open spec fn with_row(state: Seq<(Seq<char>, Seq<i32>)>, name: Seq<char>, pids: Seq<i32>)
    -> Seq<(Seq<char>, Seq<i32>)> {
    match row_names(state).index_of_first(name) {
        Some(k) => state.update(k, (name, pids)),
        None => state.push((name, pids)),
    }
}

pub open spec fn appeared(name: Seq<char>, pids: Seq<i32>) -> Seq<ProcEventView> {
    pids.map_values(|pid: i32| ProcEventView::Appeared { name, pid })
}

pub open spec fn disappeared(name: Seq<char>, pids: Seq<i32>) -> Seq<ProcEventView> {
    pids.map_values(|pid: i32| ProcEventView::Disappeared { name, pid })
}

/// The events of one name at a tick: an `Appeared` for each process id
/// that is new, then a `Disappeared` for each that is gone.
pub open spec fn name_events(name: Seq<char>, current: Seq<i32>, previous: Seq<i32>) -> Seq<
    ProcEventView,
> {
    appeared(name, minus(current, previous)) + disappeared(name, minus(previous, current))
}

/// The events of a tick: those of each watched name that is not ignored,
/// in the order of the watch list.
pub open spec fn tick_events(
    watched: Seq<Seq<char>>,
    ignored: Seq<Seq<char>>,
    procs: Seq<(i32, Seq<char>)>,
    state: Seq<(Seq<char>, Seq<i32>)>,
) -> Seq<ProcEventView>
    decreases watched.len(),
{
    if watched.len() == 0 {
        Seq::empty()
    } else {
        let name = watched.last();
        tick_events(watched.drop_last(), ignored, procs, state) + if ignored.contains(name) {
            Seq::empty()
        } else {
            name_events(name, pids_of(procs, name), pids_in(state, name))
        }
    }
}

/// The events of priming: a `Missing` for each watched name that is not
/// ignored and has no process, if `emit_missing` is set; none otherwise.
pub open spec fn prime_events(
    watched: Seq<Seq<char>>,
    ignored: Seq<Seq<char>>,
    procs: Seq<(i32, Seq<char>)>,
    emit_missing: bool,
) -> Seq<ProcEventView>
    decreases watched.len(),
{
    if watched.len() == 0 {
        Seq::empty()
    } else {
        let name = watched.last();
        prime_events(watched.drop_last(), ignored, procs, emit_missing) + if emit_missing
            && !ignored.contains(name) && pids_of(procs, name).len() == 0 {
            seq![ProcEventView::Missing { name }]
        } else {
            Seq::empty()
        }
    }
}

/// The state after the process ids of every watched name that is not
/// ignored have been recorded.
pub open spec fn recorded(
    watched: Seq<Seq<char>>,
    ignored: Seq<Seq<char>>,
    procs: Seq<(i32, Seq<char>)>,
    state: Seq<(Seq<char>, Seq<i32>)>,
) -> Seq<(Seq<char>, Seq<i32>)>
    decreases watched.len(),
{
    if watched.len() == 0 {
        state
    } else {
        let name = watched.last();
        let head = recorded(watched.drop_last(), ignored, procs, state);
        if ignored.contains(name) {
            head
        } else {
            with_row(head, name, pids_of(procs, name))
        }
    }
}

/// The process that a line of a process list names: the line is split at
/// white space; its first word is the process id, a decimal number of at
/// most thirty-one bits, and its second word is the name. A line of fewer
/// than two words, or whose first word is no such number, names none.
pub open spec fn listed_process(line: Seq<char>) -> Option<(i32, Seq<char>)> {
    let f = fields(line);
    if f.len() < 2 {
        None
    } else {
        match decimal_number(f[0], 0x7FFF_FFFF) {
            Some(pid) => Some((pid as i32, f[1])),
            None => None,
        }
    }
}

/// The processes that the lines of a process list name, in order.
pub open spec fn listed_processes(lines: Seq<Seq<char>>) -> Seq<(i32, Seq<char>)>
    decreases lines.len(),
{
    if lines.len() == 0 {
        Seq::empty()
    } else {
        let head = listed_processes(lines.drop_last());
        match listed_process(lines.last()) {
            Some(p) => head.push(p),
            None => head,
        }
    }
}

/// Reads a process list of one process a line, each with its id and its
/// name, as `ps -A -o pid=,comm=` prints it.
pub fn parse_listing(text: &str) -> (r: Vec<(i32, String)>)
    ensures
        listing(r@) == listed_processes(lines_of(text@)),
{
    let chars = str_chars(text);
    let ls = lines(&chars);
    let ghost lv = lines_of(text@);
    let mut out: Vec<(i32, String)> = Vec::new();
    let mut i: usize = 0;
    while i < ls.len()
        invariant
            i <= ls.len(),
            lv == texts(ls@),
            listing(out@) == listed_processes(lv.take(i as int)),
        decreases ls.len() - i,
    {
        assert(lv.take(i + 1).drop_last() =~= lv.take(i as int));
        let f = split_whitespace(&ls[i]);
        if f.len() >= 2 {
            match parse_decimal(&f[0], 0x7FFF_FFFF) {
                Some(pid) => {
                    let name = string_from_chars(&f[1]);
                    out.push((pid as i32, name));
                },
                None => {},
            }
        }
        i += 1;
    }
    assert(lv.take(ls.len() as int) =~= lv);
    out
}

/// How often the processes are listed, and whether priming reports the
/// watched names that have no process.
pub struct ProcDogConfig {
    interval: u64,
    emit_missing_on_start: bool,
}

impl Default for ProcDogConfig {
    /// One listing a second; missing names are not reported.
    fn default() -> (r: Self)
        ensures
            r.interval_ms() == 1000,
            !r.emits_missing(),
    {
        ProcDogConfig { interval: 1000, emit_missing_on_start: false }
    }
}

impl ProcDogConfig {
    /// The time between two listings, in milliseconds.
    pub closed spec fn interval_ms(&self) -> u64 {
        self.interval
    }

    pub closed spec fn emits_missing(&self) -> bool {
        self.emit_missing_on_start
    }

    pub fn interval(self, interval_ms: u64) -> (r: Self)
        ensures
            r.interval_ms() == interval_ms,
            r.emits_missing() == self.emits_missing(),
    {
        let mut r = self;
        r.interval = interval_ms;
        r
    }

    pub fn get_interval(&self) -> (ms: u64)
        ensures
            ms == self.interval_ms(),
    {
        self.interval
    }

    pub fn get_emit_on_start(&self) -> (on: bool)
        ensures
            on == self.emits_missing(),
    {
        self.emit_missing_on_start
    }

    pub fn emit_on_start(self, on: bool) -> (r: Self)
        ensures
            r.emits_missing() == on,
            r.interval_ms() == self.interval_ms(),
    {
        let mut r = self;
        r.emit_missing_on_start = on;
        r
    }
}

/// The process ids of `name` in a listing.
pub fn collect_pids(procs: &Vec<(i32, String)>, name: &str) -> (r: Vec<i32>)
    ensures
        r@ == pids_of(listing(procs@), name@),
{
    let mut out: Vec<i32> = Vec::new();
    let mut i: usize = 0;
    while i < procs.len()
        invariant
            i <= procs.len(),
            out@ == pids_of(listing(procs@).take(i as int), name@),
        decreases procs.len() - i,
    {
        assert(listing(procs@).take(i + 1).drop_last() =~= listing(procs@).take(i as int));
        if same_text(procs[i].1.as_str(), name) && !holds(&out, procs[i].0) {
            out.push(procs[i].0);
        }
        i += 1;
    }
    assert(listing(procs@).take(procs.len() as int) =~= listing(procs@));
    out
}

fn holds(v: &Vec<i32>, x: i32) -> (r: bool)
    ensures
        r == v@.contains(x),
{
    let mut i: usize = 0;
    while i < v.len()
        invariant
            i <= v.len(),
            forall|k: int| 0 <= k < i ==> v@[k] != x,
        decreases v.len() - i,
    {
        if v[i] == x {
            return true;
        }
        i += 1;
    }
    false
}

/// The elements of `a` that `b` does not hold.
pub fn difference(a: &Vec<i32>, b: &Vec<i32>) -> (r: Vec<i32>)
    ensures
        r@ == minus(a@, b@),
{
    let mut out: Vec<i32> = Vec::new();
    let mut i: usize = 0;
    while i < a.len()
        invariant
            i <= a.len(),
            out@ == minus(a@.take(i as int), b@),
        decreases a.len() - i,
    {
        assert(a@.take(i + 1).drop_last() =~= a@.take(i as int));
        if !holds(b, a[i]) {
            out.push(a[i]);
        }
        i += 1;
    }
    assert(a@.take(a.len() as int) =~= a@);
    out
}

/// The process ids seen at the last tick, one row for each name.
pub struct PidTable {
    rows: Vec<(String, Vec<i32>)>,
}

/// The rows of a table as plain values.
pub open spec fn rows_of(rows: Seq<(String, Vec<i32>)>) -> Seq<(Seq<char>, Seq<i32>)> {
    rows.map_values(|r: (String, Vec<i32>)| (r.0@, r.1@))
}

impl PidTable {
    #[verifier::type_invariant]
    spec fn distinct(&self) -> bool {
        row_names(rows_of(self.rows@)).no_duplicates()
    }

    /// The rows, in the order in which their names were first recorded.
    pub closed spec fn view(&self) -> Seq<(Seq<char>, Seq<i32>)> {
        rows_of(self.rows@)
    }

    fn take_rows(&mut self) -> (rows: Vec<(String, Vec<i32>)>)
        ensures
            rows == old(self).rows,
            final(self).rows@ == Seq::<(String, Vec<i32>)>::empty(),
    {
        let mut rows: Vec<(String, Vec<i32>)> = Vec::new();
        core::mem::swap(&mut self.rows, &mut rows);
        rows
    }

    pub fn new() -> (r: Self)
        ensures
            r@ == Seq::<(Seq<char>, Seq<i32>)>::empty(),
    {
        PidTable { rows: Vec::new() }
    }

    pub fn len(&self) -> (n: usize)
        ensures
            n == self@.len(),
            row_names(self@).no_duplicates(),
    {
        proof {
            use_type_invariant(self);
        }
        self.rows.len()
    }

    fn position(&self, name: &str) -> (r: Option<usize>)
        ensures
            match r {
                Some(k) => k < self.rows.len() && row_names(self@).index_of_first(name@) == Some(
                    k as int,
                ) && self@[k as int].0 == name@,
                None => row_names(self@).index_of_first(name@) is None && !row_names(
                    self@,
                ).contains(name@),
            },
    {
        let ghost names = row_names(rows_of(self.rows@));
        let mut i: usize = 0;
        while i < self.rows.len()
            invariant
                i <= self.rows.len(),
                names == row_names(rows_of(self.rows@)),
                forall|k: int| 0 <= k < i ==> names[k] != name@,
            decreases self.rows.len() - i,
        {
            if same_text(self.rows[i].0.as_str(), name) {
                proof {
                    assert(names[i as int] == name@);
                    names.index_of_first_ensures(name@);
                }
                return Some(i);
            }
            i += 1;
        }
        proof {
            names.index_of_first_ensures(name@);
        }
        None
    }

    /// The process ids recorded for `name`; none if it has no row.
    pub fn get(&self, name: &str) -> (r: Vec<i32>)
        ensures
            r@ == pids_in(self@, name@),
    {
        match self.position(name) {
            Some(k) => {
                let row = &self.rows[k].1;
                let mut out: Vec<i32> = Vec::new();
                let mut i: usize = 0;
                while i < row.len()
                    invariant
                        i <= row.len(),
                        out@ == row@.take(i as int),
                    decreases row.len() - i,
                {
                    out.push(row[i]);
                    i += 1;
                }
                out
            },
            None => Vec::new(),
        }
    }

    /// Records `pids` as the row of `name`.
    pub fn put(&mut self, name: String, pids: Vec<i32>)
        ensures
            final(self)@ == with_row(old(self)@, name@, pids@),
    {
        proof {
            use_type_invariant(&*self);
        }
        let ghost before = rows_of(self.rows@);
        let ghost row = (name@, pids@);
        let found = self.position(name.as_str());
        let mut rows = self.take_rows();
        match found {
            Some(k) => {
                rows[k] = (name, pids);
                assert(row_names(rows_of(rows@)) =~= row_names(before));
            },
            None => {
                rows.push((name, pids));
                assert(row_names(rows_of(rows@)) =~= row_names(before).push(row.0));
            },
        }
        self.rows = rows;
    }
}

/// A source of the list of running processes.
///
/// Taken on trust of every backend: `list` gives only answers that
/// `answers` allows. Of a backend that leaves `answers` as it stands here
/// that says nothing.
pub trait ProcBackend: Send + Sync {
    /// Whether `answer` is among the answers that this backend gives when
    /// it is asked for the list. A backend says here what it promises of
    /// its listings; one that says nothing promises nothing: every answer
    /// is possible.
    open spec fn answers(&self, answer: Option<Seq<(i32, Seq<char>)>>) -> bool {
        true
    }

    /// The processes that run, each with its id and its name; `None`
    /// where they could not be listed.
    fn list(&self) -> (procs: Option<Vec<(i32, String)>>)
        ensures
            self.answers(answer_of(procs)),
    ;
}

/// An answer of a backend as plain values.
pub open spec fn answer_of(procs: Option<Vec<(i32, String)>>) -> Option<Seq<(i32, Seq<char>)>> {
    match procs {
        Some(p) => Some(listing(p@)),
        None => None,
    }
}

/// Whether `answer` is what a sensor with the backend `backend` gets when
/// it asks for the list: an answer of the backend, and a failure where
/// there is no backend.
pub open spec fn answered(
    backend: Option<Box<dyn ProcBackend>>,
    answer: Option<Seq<(i32, Seq<char>)>>,
) -> bool {
    match backend {
        Some(b) => b.answers(answer),
        None => answer is None,
    }
}

/// The process watcher.
pub struct ProcDog {
    watched: NameSet,
    ignored: NameSet,
    state: PidTable,
    config: ProcDogConfig,
    backend: Option<Box<dyn ProcBackend>>,
}

impl ProcDog {
    pub closed spec fn watched(&self) -> Seq<Seq<char>> {
        self.watched@
    }

    pub closed spec fn ignored(&self) -> Seq<Seq<char>> {
        self.ignored@
    }

    /// The process ids seen at the last tick.
    pub closed spec fn state(&self) -> Seq<(Seq<char>, Seq<i32>)> {
        self.state@
    }

    pub closed spec fn config(&self) -> ProcDogConfig {
        self.config
    }

    /// The source of the list of processes, if one is set.
    pub closed spec fn backend(&self) -> Option<Box<dyn ProcBackend>> {
        self.backend
    }

    /// What priming with the answer `answer` makes of the sensor `before`:
    /// with a listing the events and the records of `prime_with`, with a
    /// failure no event and no change.
    pub open spec fn primed(
        before: ProcDog,
        answer: Option<Seq<(i32, Seq<char>)>>,
        events: Seq<ProcEventView>,
        after: ProcDog,
    ) -> bool {
        match answer {
            Some(l) => {
                &&& events == prime_events(
                    before.watched(),
                    before.ignored(),
                    l,
                    before.config().emits_missing(),
                )
                &&& after.state() == recorded(
                    before.watched(),
                    before.ignored(),
                    l,
                    before.state(),
                )
            },
            None => events.len() == 0 && after.state() == before.state(),
        }
    }

    /// What a tick with the answer `answer` makes of the sensor `before`:
    /// with a listing the events and the records of `tick_with`, with a
    /// failure no event and no change.
    pub open spec fn ticked(
        before: ProcDog,
        answer: Option<Seq<(i32, Seq<char>)>>,
        events: Seq<ProcEventView>,
        after: ProcDog,
    ) -> bool {
        match answer {
            Some(l) => {
                &&& events == tick_events(before.watched(), before.ignored(), l, before.state())
                &&& after.state() == recorded(
                    before.watched(),
                    before.ignored(),
                    l,
                    before.state(),
                )
            },
            None => events.len() == 0 && after.state() == before.state(),
        }
    }

    pub fn new(cfg: Option<ProcDogConfig>) -> (r: Self)
        ensures
            r.watched() == Seq::<Seq<char>>::empty(),
            r.ignored() == Seq::<Seq<char>>::empty(),
            r.state() == Seq::<(Seq<char>, Seq<i32>)>::empty(),
            r.backend() is None,
            match cfg {
                Some(c) => r.config() == c,
                None => r.config().interval_ms() == 1000 && !r.config().emits_missing(),
            },
    {
        let config = match cfg {
            Some(c) => c,
            None => ProcDogConfig::default(),
        };
        ProcDog {
            watched: NameSet::new(),
            ignored: NameSet::new(),
            state: PidTable::new(),
            config,
            backend: None,
        }
    }

    /// Sets the source of the list of processes, in the place of the one
    /// that was set before. Until one is set, every listing fails.
    pub fn set_backend<B>(&mut self, backend: B) where B: ProcBackend + 'static
        ensures
            final(self).backend() == Some::<Box<dyn ProcBackend>>(Box::new(backend)),
            final(self).watched() == old(self).watched(),
            final(self).ignored() == old(self).ignored(),
            final(self).state() == old(self).state(),
            final(self).config() == old(self).config(),
    {
        self.backend = Some(Box::new(backend));
    }

    /// Asks the backend for the list of processes. Without a backend the
    /// listing fails.
    fn list(&self) -> (procs: Option<Vec<(i32, String)>>)
        ensures
            answered(self.backend(), answer_of(procs)),
    {
        match &self.backend {
            Some(b) => b.list(),
            None => None,
        }
    }

    /// Asks the backend for the list of processes and takes its answer as
    /// the baseline: the outcome is that of `prime_with` on an answer of
    /// the backend. Without a backend nothing is recorded and nothing is
    /// due.
    pub fn prime(&mut self) -> (events: Vec<ProcDogEvent>)
        ensures
            final(self).watched() == old(self).watched(),
            final(self).ignored() == old(self).ignored(),
            final(self).config() == old(self).config(),
            final(self).backend() == old(self).backend(),
            exists|answer: Option<Seq<(i32, Seq<char>)>>|
                #![trigger answered(old(self).backend(), answer)]
                answered(old(self).backend(), answer) && Self::primed(
                    *old(self),
                    answer,
                    event_views(events@),
                    *final(self),
                ),
    {
        let procs = self.list();
        match &procs {
            Some(p) => self.prime_with(Some(p)),
            None => self.prime_with(None),
        }
    }

    /// Asks the backend for the list of processes and compares its answer
    /// with what was seen last: the outcome is that of `tick_with` on an
    /// answer of the backend. Without a backend the tick is passed over.
    pub fn tick_once(&mut self) -> (events: Vec<ProcDogEvent>)
        ensures
            final(self).watched() == old(self).watched(),
            final(self).ignored() == old(self).ignored(),
            final(self).config() == old(self).config(),
            final(self).backend() == old(self).backend(),
            exists|answer: Option<Seq<(i32, Seq<char>)>>|
                #![trigger answered(old(self).backend(), answer)]
                answered(old(self).backend(), answer) && Self::ticked(
                    *old(self),
                    answer,
                    event_views(events@),
                    *final(self),
                ),
    {
        let procs = self.list();
        match &procs {
            Some(p) => self.tick_with(Some(p)),
            None => self.tick_with(None),
        }
    }

    pub fn get_config(&self) -> (c: &ProcDogConfig)
        ensures
            *c == self.config(),
    {
        &self.config
    }

    /// Puts a process name under watch.
    pub fn watch(&mut self, name: &str)
        ensures
            final(self).watched() == if old(self).watched().contains(name@) {
                old(self).watched()
            } else {
                old(self).watched().push(name@)
            },
            final(self).ignored() == old(self).ignored(),
            final(self).state() == old(self).state(),
            final(self).config() == old(self).config(),
            final(self).backend() == old(self).backend(),
    {
        self.watched.insert(name.to_owned());
    }

    /// Has the sensor pass over a process name even where it is watched.
    pub fn ignore(&mut self, pattern: &str)
        ensures
            final(self).ignored() == if old(self).ignored().contains(pattern@) {
                old(self).ignored()
            } else {
                old(self).ignored().push(pattern@)
            },
            final(self).watched() == old(self).watched(),
            final(self).state() == old(self).state(),
            final(self).config() == old(self).config(),
            final(self).backend() == old(self).backend(),
    {
        self.ignored.insert(pattern.to_owned());
    }

    /// Takes the first listing as the baseline. Where the listing failed
    /// (`None`), nothing is recorded and nothing is due.
    pub fn prime_with(&mut self, procs: Option<&Vec<(i32, String)>>) -> (events: Vec<
        ProcDogEvent,
    >)
        ensures
            final(self).watched() == old(self).watched(),
            final(self).ignored() == old(self).ignored(),
            final(self).config() == old(self).config(),
            final(self).backend() == old(self).backend(),
            match procs {
                Some(p) => {
                    &&& event_views(events@) == prime_events(
                        old(self).watched(),
                        old(self).ignored(),
                        listing(p@),
                        old(self).config().emits_missing(),
                    )
                    &&& final(self).state() == recorded(
                        old(self).watched(),
                        old(self).ignored(),
                        listing(p@),
                        old(self).state(),
                    )
                },
                None => events@.len() == 0 && final(self).state() == old(self).state(),
            },
    {
        let mut events: Vec<ProcDogEvent> = Vec::new();
        let procs = match procs {
            Some(p) => p,
            None => {
                return events;
            },
        };
        let emit = self.config.emit_missing_on_start;
        let ghost w = self.watched@;
        let ghost ig = self.ignored@;
        let ghost l = listing(procs@);
        let ghost state0 = self.state@;
        let n = self.watched.len();
        let mut i: usize = 0;
        while i < n
            invariant
                i <= n,
                n == w.len(),
                w == self.watched@,
                ig == self.ignored@,
                l == listing(procs@),
                emit == self.config.emit_missing_on_start,
                self.config == old(self).config,
                self.backend == old(self).backend,
                event_views(events@) == prime_events(w.take(i as int), ig, l, emit),
                self.state@ == recorded(w.take(i as int), ig, l, state0),
            decreases n - i,
        {
            assert(w.take(i + 1).drop_last() =~= w.take(i as int));
            let name = self.watched.get(i);
            if !self.ignored.contains(name.as_str()) {
                let pids = collect_pids(procs, name.as_str());
                if emit && pids.len() == 0 {
                    events.push(ProcDogEvent::Missing { name: name.clone() });
                }
                self.state.put(name.clone(), pids);
            }
            i += 1;
        }
        assert(w.take(n as int) =~= w);
        events
    }

    /// Compares a listing with what was seen last, says which events are
    /// due, and records the listing. Where the listing failed (`None`), the
    /// tick is passed over.
    pub fn tick_with(&mut self, procs: Option<&Vec<(i32, String)>>) -> (events: Vec<
        ProcDogEvent,
    >)
        ensures
            final(self).watched() == old(self).watched(),
            final(self).ignored() == old(self).ignored(),
            final(self).config() == old(self).config(),
            final(self).backend() == old(self).backend(),
            match procs {
                Some(p) => {
                    &&& event_views(events@) == tick_events(
                        old(self).watched(),
                        old(self).ignored(),
                        listing(p@),
                        old(self).state(),
                    )
                    &&& final(self).state() == recorded(
                        old(self).watched(),
                        old(self).ignored(),
                        listing(p@),
                        old(self).state(),
                    )
                },
                None => events@.len() == 0 && final(self).state() == old(self).state(),
            },
    {
        let mut events: Vec<ProcDogEvent> = Vec::new();
        let procs = match procs {
            Some(p) => p,
            None => {
                return events;
            },
        };
        let ghost w = self.watched@;
        let ghost ig = self.ignored@;
        let ghost l = listing(procs@);
        let ghost state0 = self.state@;
        let n = self.watched.len();
        let mut i: usize = 0;
        while i < n
            invariant
                i <= n,
                n == w.len(),
                w == self.watched@,
                w.no_duplicates(),
                ig == self.ignored@,
                l == listing(procs@),
                self.config == old(self).config,
                self.backend == old(self).backend,
                event_views(events@) == tick_events(w.take(i as int), ig, l, state0),
                self.state@ == recorded(w.take(i as int), ig, l, state0),
            decreases n - i,
        {
            let ghost before = event_views(events@);
            assert(w.take(i + 1).drop_last() =~= w.take(i as int));
            let name = self.watched.get(i);
            if !self.ignored.contains(name.as_str()) {
                let current = collect_pids(procs, name.as_str());
                let previous = self.state.get(name.as_str());
                proof {
                    lemma_untouched(w.take(i as int), ig, l, state0, name@);
                }
                let come = difference(&current, &previous);
                let gone = difference(&previous, &current);
                let mut k: usize = 0;
                while k < come.len()
                    invariant
                        k <= come.len(),
                        event_views(events@) == before + appeared(name@, come@.take(k as int)),
                    decreases come.len() - k,
                {
                    let ghost so_far = event_views(events@);
                    let ev = ProcDogEvent::Appeared { name: name.clone(), pid: come[k] };
                    let ghost v = ev@;
                    events.push(ev);
                    assert(event_views(events@) =~= so_far + seq![v]);
                    k += 1;
                }
                let ghost mid = event_views(events@);
                let mut k: usize = 0;
                while k < gone.len()
                    invariant
                        k <= gone.len(),
                        event_views(events@) == mid + disappeared(name@, gone@.take(k as int)),
                    decreases gone.len() - k,
                {
                    let ghost so_far = event_views(events@);
                    let ev = ProcDogEvent::Disappeared { name: name.clone(), pid: gone[k] };
                    let ghost v = ev@;
                    events.push(ev);
                    assert(event_views(events@) =~= so_far + seq![v]);
                    k += 1;
                }
                self.state.put(name.clone(), current);
            }
            i += 1;
        }
        assert(w.take(n as int) =~= w);
        events
    }
}

/// The name that an event is about.
pub open spec fn event_name(e: ProcEventView) -> Seq<char> {
    match e {
        ProcEventView::Appeared { name, .. } => name,
        ProcEventView::Disappeared { name, .. } => name,
        ProcEventView::Missing { name } => name,
    }
}

/// A `Missing` for each name of `watched` that is not ignored, in order.
pub open spec fn missing_all(watched: Seq<Seq<char>>, ignored: Seq<Seq<char>>) -> Seq<
    ProcEventView,
>
    decreases watched.len(),
{
    if watched.len() == 0 {
        Seq::empty()
    } else {
        missing_all(watched.drop_last(), ignored) + if ignored.contains(watched.last()) {
            Seq::empty()
        } else {
            seq![ProcEventView::Missing { name: watched.last() }]
        }
    }
}

/// Priming reports nothing but missing names, and nothing at all where
/// missing names are not asked for.
pub proof fn lemma_prime_reports_only_missing(
    watched: Seq<Seq<char>>,
    ignored: Seq<Seq<char>>,
    procs: Seq<(i32, Seq<char>)>,
    emit_missing: bool,
)
    ensures
        !emit_missing ==> prime_events(watched, ignored, procs, emit_missing) == Seq::<
            ProcEventView,
        >::empty(),
        forall|i: int|
            0 <= i < prime_events(watched, ignored, procs, emit_missing).len()
                ==> #[trigger] prime_events(watched, ignored, procs, emit_missing)[i] is Missing,
    decreases watched.len(),
{
    if watched.len() > 0 {
        lemma_prime_reports_only_missing(watched.drop_last(), ignored, procs, emit_missing);
        let head = prime_events(watched.drop_last(), ignored, procs, emit_missing);
        let all = prime_events(watched, ignored, procs, emit_missing);
    }
}

/// Where missing names are asked for and none of the watched names has a
/// process, priming reports each watched name that is not ignored once.
pub proof fn lemma_each_missing_name_once(
    watched: Seq<Seq<char>>,
    ignored: Seq<Seq<char>>,
    procs: Seq<(i32, Seq<char>)>,
)
    requires
        forall|i: int| 0 <= i < watched.len() ==> pids_of(procs, #[trigger] watched[i]).len() == 0,
    ensures
        prime_events(watched, ignored, procs, true) == missing_all(watched, ignored),
    decreases watched.len(),
{
    if watched.len() > 0 {
        lemma_each_missing_name_once(watched.drop_last(), ignored, procs);
    }
}

/// A name that is ignored is never observed, watched or not: no event of
/// priming or of a tick is about it, and what is recorded for it does not
/// change.
pub proof fn lemma_ignored_is_never_observed(
    watched: Seq<Seq<char>>,
    ignored: Seq<Seq<char>>,
    procs: Seq<(i32, Seq<char>)>,
    state: Seq<(Seq<char>, Seq<i32>)>,
    emit_missing: bool,
    name: Seq<char>,
)
    requires
        ignored.contains(name),
    ensures
        forall|i: int|
            0 <= i < tick_events(watched, ignored, procs, state).len() ==> event_name(
                #[trigger] tick_events(watched, ignored, procs, state)[i],
            ) != name,
        forall|i: int|
            0 <= i < prime_events(watched, ignored, procs, emit_missing).len() ==> event_name(
                #[trigger] prime_events(watched, ignored, procs, emit_missing)[i],
            ) != name,
        pids_in(recorded(watched, ignored, procs, state), name) == pids_in(state, name),
    decreases watched.len(),
{
    if watched.len() > 0 {
        let last = watched.last();
        lemma_ignored_is_never_observed(
            watched.drop_last(),
            ignored,
            procs,
            state,
            emit_missing,
            name,
        );
        let th = tick_events(watched.drop_last(), ignored, procs, state);
        let ta = tick_events(watched, ignored, procs, state);
        let ph = prime_events(watched.drop_last(), ignored, procs, emit_missing);
        let pa = prime_events(watched, ignored, procs, emit_missing);
        if !ignored.contains(last) {
            lemma_other_row(
                recorded(watched.drop_last(), ignored, procs, state),
                last,
                pids_of(procs, last),
                name,
            );
        }
    }
}

/// Recording the names of `done` leaves the row of every other name as it was.
proof fn lemma_untouched(
    done: Seq<Seq<char>>,
    ignored: Seq<Seq<char>>,
    procs: Seq<(i32, Seq<char>)>,
    state: Seq<(Seq<char>, Seq<i32>)>,
    name: Seq<char>,
)
    requires
        !done.contains(name),
    ensures
        pids_in(recorded(done, ignored, procs, state), name) == pids_in(state, name),
    decreases done.len(),
{
    if done.len() > 0 {
        let last = done.last();
        lemma_untouched(done.drop_last(), ignored, procs, state, name);
        let head = recorded(done.drop_last(), ignored, procs, state);
        if !ignored.contains(last) {
            lemma_other_row(head, last, pids_of(procs, last), name);
        }
    }
}

/// Writing the row of one name leaves the row of every other name as it was.
proof fn lemma_other_row(
    state: Seq<(Seq<char>, Seq<i32>)>,
    written: Seq<char>,
    pids: Seq<i32>,
    name: Seq<char>,
)
    requires
        written != name,
    ensures
        pids_in(with_row(state, written, pids), name) == pids_in(state, name),
{
    let names = row_names(state);
    let after = with_row(state, written, pids);
    names.index_of_first_ensures(written);
    names.index_of_first_ensures(name);
    row_names(after).index_of_first_ensures(name);
    match names.index_of_first(written) {
        Some(k) => {
            assert(row_names(after) =~= names.update(k, written));
            assert(names.update(k, written) =~= names);
        },
        None => {
            if names.contains(name) {
                let j = names.index_of_first(name)->0;
                assert(row_names(after)[j] == name);
                let j2 = row_names(after).index_of_first(name)->0;
                if j2 < j {
                    assert(names[j2] == name);
                } else if j < j2 {
                }
            } else {
                if row_names(after).contains(name) {
                    let j2 = row_names(after).index_of_first(name)->0;
                    assert(j2 < names.len() ==> names[j2] == name);
                }
            }
        },
    }
}

} // verus!
