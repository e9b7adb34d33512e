//! NetNotify: watches the table of open TCP and UDP connections.
//!
//! The sensor is handed the connection table at every tick; it says which
//! connections were opened and closed since the last one, keeps the cache
//! of host names, and decides which connections pass the patterns. Reading
//! the tables and asking the resolver are left to the caller.

pub mod dns;
pub mod events;
pub mod netutil;
pub mod pattern;
pub mod rules;
pub mod table;

use crate::netpacket::dns::{
    answer_of, expiry, with_entry, DnsAnswer, DnsCache, DnsEntryView, IpAddr,
};
use crate::netpacket::events::{opt_text, ConnKey, ConnKeyView, NetEventView, NetNotifyEvent};
use crate::netpacket::netutil::is_hostish_spec;
use crate::netpacket::pattern::{glob_compiles, is_simple};
use crate::netpacket::rules::{accepts, facts_of, RuleSet, RulesView};
use crate::netpacket::table::{keys_minus, keys_of, ConnSet};
use crate::text::{last_index, rfind, slice, str_chars, string_from_chars};
use vstd::prelude::*;

verus! {

/// How often the tables are read, and whether and for how long host names
/// are looked up.
#[derive(Clone, Copy, Debug, PartialEq, Eq)]
pub struct NetNotifyConfig {
    /// the time between two readings, in milliseconds
    pub pulse: u64,
    /// whether the remote address is resolved to a host name
    pub dns: bool,
    /// how long a resolved name is kept, in milliseconds
    pub dns_ttl: u64,
}

impl Default for NetNotifyConfig {
    /// One reading a second, no host names, names kept for a minute.
    fn default() -> (r: Self)
        ensures
            r == (NetNotifyConfig { pulse: 1000, dns: false, dns_ttl: 60000 }),
    {
        NetNotifyConfig { pulse: 1000, dns: false, dns_ttl: 60000 }
    }
}

impl NetNotifyConfig {
    pub fn pulse(self, pulse_ms: u64) -> (r: Self)
        ensures
            r == (NetNotifyConfig { pulse: pulse_ms, ..self }),
    {
        NetNotifyConfig { pulse: pulse_ms, dns: self.dns, dns_ttl: self.dns_ttl }
    }
}

/// The connections that appeared and those that went away between two ticks.
pub struct ConnDiff {
    pub opened: Vec<ConnKey>,
    pub closed: Vec<ConnKey>,
}

/// The remote address of a connection without its port: the decoded
/// remote address up to its last colon, where there is one.
pub open spec fn dns_subject(c: ConnKeyView) -> Option<Seq<char>> {
    match c.remote_dec {
        Some(dec) => match last_index(dec, ':') {
            Some(i) => Some(dec.subrange(0, i)),
            None => None,
        },
        None => None,
    }
}

/// The views of a sequence of events.
pub open spec fn event_views(v: Seq<NetNotifyEvent>) -> Seq<NetEventView> {
    v.map_values(|e: NetNotifyEvent| e@)
}

pub open spec fn opened_events(conns: Seq<ConnKeyView>) -> Seq<NetEventView> {
    conns.map_values(|c: ConnKeyView| NetEventView::Opened { conn: c })
}

pub open spec fn closed_events(conns: Seq<ConnKeyView>) -> Seq<NetEventView> {
    conns.map_values(|c: ConnKeyView| NetEventView::Closed { conn: c })
}

/// The events of a tick: an `Opened` for each opened connection that
/// passes the patterns, then a `Closed` for each closed one that does.
pub open spec fn due(rules: RulesView, opened: Seq<ConnKeyView>, closed: Seq<ConnKeyView>) -> Seq<
    NetEventView,
> {
    opened_events(passing(rules, opened)) + closed_events(passing(rules, closed))
}

/// Where nothing was opened or closed, as at the first tick, no event is due.
pub proof fn lemma_no_difference_no_event(rules: RulesView)
    ensures
        due(rules, Seq::empty(), Seq::empty()) == Seq::<NetEventView>::empty(),
{
}

/// The connections of `conns` that pass the patterns, in order.
pub open spec fn passing(rules: RulesView, conns: Seq<ConnKeyView>) -> Seq<ConnKeyView>
    decreases conns.len(),
{
    if conns.len() == 0 {
        Seq::empty()
    } else {
        let head = passing(rules, conns.drop_last());
        if accepts(facts_of(rules, conns.last())) {
            head.push(conns.last())
        } else {
            head
        }
    }
}

/// The connection watcher.
pub struct NetNotify {
    cfg: NetNotifyConfig,
    last: ConnSet,
    is_primed: bool,
    rules: RuleSet,
    dns_cache: DnsCache,
}

impl Default for NetNotify {
    /// A sensor with the default configuration that has seen nothing.
    fn default() -> (r: Self)
        ensures
            r.config() == (NetNotifyConfig { pulse: 1000, dns: false, dns_ttl: 60000 }),
            r.last() == Seq::<ConnKeyView>::empty(),
            !r.primed(),
            r.rules() == RulesView::empty(),
            r.cache() == Seq::<DnsEntryView>::empty(),
    {
        NetNotify::new(None)
    }
}

impl NetNotify {
    pub closed spec fn config(&self) -> NetNotifyConfig {
        self.cfg
    }

    /// The connections of the last tick.
    pub closed spec fn last(&self) -> Seq<ConnKeyView> {
        self.last@
    }

    pub closed spec fn primed(&self) -> bool {
        self.is_primed
    }

    pub closed spec fn rules(&self) -> RulesView {
        self.rules@
    }

    pub closed spec fn cache(&self) -> Seq<DnsEntryView> {
        self.dns_cache@
    }

    pub fn new(cfg: Option<NetNotifyConfig>) -> (r: Self)
        ensures
            r.config() == match cfg {
                Some(c) => c,
                None => NetNotifyConfig { pulse: 1000, dns: false, dns_ttl: 60000 },
            },
            r.last() == Seq::<ConnKeyView>::empty(),
            !r.primed(),
            r.rules() == RulesView::empty(),
            r.cache() == Seq::<DnsEntryView>::empty(),
    {
        let cfg = match cfg {
            Some(c) => c,
            None => NetNotifyConfig::default(),
        };
        NetNotify {
            cfg,
            last: ConnSet::new(),
            is_primed: false,
            rules: RuleSet::new(),
            dns_cache: DnsCache::new(),
        }
    }

    pub fn get_config(&self) -> (c: NetNotifyConfig)
        ensures
            c == self.config(),
    {
        self.cfg
    }

    pub fn is_primed(&self) -> (r: bool)
        ensures
            r == self.primed(),
    {
        self.is_primed
    }

    /// Watches for connections that match `pat`. A pattern that is no
    /// well-formed glob is dropped. A host-like pattern switches the
    /// look-up of host names on.
    pub fn add(&mut self, pat: &str)
        ensures
            is_simple(pat@) ==> glob_compiles(pat@),
            final(self).rules() == if glob_compiles(pat@) {
                old(self).rules().watching(pat@)
            } else {
                old(self).rules()
            },
            final(self).config() == if glob_compiles(pat@) && is_hostish_spec(pat@) {
                NetNotifyConfig { dns: true, ..old(self).config() }
            } else {
                old(self).config()
            },
            final(self).last() == old(self).last(),
            final(self).primed() == old(self).primed(),
            final(self).cache() == old(self).cache(),
    {
        if self.rules.watch(pat) {
            if crate::netpacket::netutil::is_hostish(pat) {
                self.cfg.dns = true;
            }
        }
    }

    /// Passes over connections that match `pat`. A pattern that is no
    /// well-formed glob is dropped. A host-like pattern switches the
    /// look-up of host names on.
    pub fn ignore(&mut self, pat: &str)
        ensures
            is_simple(pat@) ==> glob_compiles(pat@),
            final(self).rules() == if glob_compiles(pat@) {
                old(self).rules().ignoring(pat@)
            } else {
                old(self).rules()
            },
            final(self).config() == if glob_compiles(pat@) && is_hostish_spec(pat@) {
                NetNotifyConfig { dns: true, ..old(self).config() }
            } else {
                old(self).config()
            },
            final(self).last() == old(self).last(),
            final(self).primed() == old(self).primed(),
            final(self).cache() == old(self).cache(),
    {
        if self.rules.ignore(pat) {
            if crate::netpacket::netutil::is_hostish(pat) {
                self.cfg.dns = true;
            }
        }
    }

    /// Switches the look-up of host names on or off.
    pub fn dns(self, on: bool) -> (r: Self)
        ensures
            r.config() == (NetNotifyConfig { dns: on, ..self.config() }),
            r.last() == self.last(),
            r.primed() == self.primed(),
            r.rules() == self.rules(),
            r.cache() == self.cache(),
    {
        let mut r = self;
        r.cfg.dns = on;
        r
    }

    /// Sets how long a resolved name is kept, in milliseconds.
    pub fn dns_ttl(self, ttl_ms: u64) -> (r: Self)
        ensures
            r.config() == (NetNotifyConfig { dns_ttl: ttl_ms, ..self.config() }),
            r.last() == self.last(),
            r.primed() == self.primed(),
            r.rules() == self.rules(),
            r.cache() == self.cache(),
    {
        let mut r = self;
        r.cfg.dns_ttl = ttl_ms;
        r
    }

    /// Takes a reading of the connection table. The first reading is the
    /// baseline: nothing was opened or closed. Every later one is compared
    /// with the reading before it.
    pub fn tick(&mut self, now: ConnSet) -> (diff: ConnDiff)
        ensures
            final(self).last() == now@,
            final(self).primed(),
            final(self).config() == old(self).config(),
            final(self).rules() == old(self).rules(),
            final(self).cache() == old(self).cache(),
            keys_of(diff.opened@) == if old(self).primed() {
                keys_minus(now@, old(self).last())
            } else {
                Seq::empty()
            },
            keys_of(diff.closed@) == if old(self).primed() {
                keys_minus(old(self).last(), now@)
            } else {
                Seq::empty()
            },
    {
        if !self.is_primed {
            self.last = now;
            self.is_primed = true;
            let diff = ConnDiff { opened: Vec::new(), closed: Vec::new() };
            return diff;
        }
        let opened = now.minus(&self.last);
        let closed = self.last.minus(&now);
        self.last = now;
        ConnDiff { opened, closed }
    }

    /// The address whose host name is wanted for `c`: none where the
    /// look-up is switched off or the remote address was not decoded.
    pub fn dns_target(&self, c: &ConnKey) -> (r: Option<String>)
        ensures
            opt_text(r) == if self.config().dns {
                dns_subject(c@)
            } else {
                None
            },
    {
        if !self.cfg.dns {
            return None;
        }
        match &c.remote_dec {
            Some(dec) => {
                let chars = str_chars(dec.as_str());
                match rfind(&chars, ':') {
                    Some(i) => {
                        let ip = slice(&chars, 0, i);
                        Some(string_from_chars(&ip))
                    },
                    None => None,
                }
            },
            None => None,
        }
    }

    /// What the cache says of `ip` at the clock reading `now_ms`.
    pub fn dns_cached(&self, ip: &IpAddr, now_ms: u64) -> (r: DnsAnswer)
        ensures
            r@ == answer_of(self.cache(), ip.octets(), now_ms),
    {
        self.dns_cache.lookup(ip, now_ms)
    }

    /// Takes what the resolver said of `ip` when it was asked at the clock
    /// reading `now_ms`. A name is kept for the life time that the
    /// configuration sets; a failure is not kept.
    pub fn dns_resolved(&mut self, ip: IpAddr, name: Option<String>, now_ms: u64) -> (r: Option<
        String,
    >)
        ensures
            r == name,
            final(self).cache() == match name {
                Some(n) => with_entry(
                    old(self).cache(),
                    DnsEntryView {
                        ip: ip.octets(),
                        name: n@,
                        expires: expiry(now_ms, old(self).config().dns_ttl),
                    },
                ),
                None => old(self).cache(),
            },
            final(self).config() == old(self).config(),
            final(self).rules() == old(self).rules(),
            final(self).last() == old(self).last(),
            final(self).primed() == old(self).primed(),
    {
        match name {
            Some(n) => {
                let expires = now_ms.saturating_add(self.cfg.dns_ttl);
                self.dns_cache.store(ip, n.clone(), expires);
                Some(n)
            },
            None => None,
        }
    }

    /// The connection `c` with `host` as the name of its remote side.
    pub fn with_remote_host(c: ConnKey, host: Option<String>) -> (r: ConnKey)
        ensures
            r == (ConnKey { remote_host: host, ..c }),
    {
        let mut r = c;
        r.remote_host = host;
        r
    }

    /// Whether the connection `c` passes the patterns.
    pub fn matches(&self, c: &ConnKey) -> (r: bool)
        ensures
            r == accepts(facts_of(self.rules(), c@)),
    {
        self.rules.matches(c)
    }

    /// The events that are due for the connections that were opened and
    /// closed: one for each that passes the patterns, the opened ones first.
    pub fn events(&self, opened: &Vec<ConnKey>, closed: &Vec<ConnKey>) -> (r: Vec<NetNotifyEvent>)
        ensures
            event_views(r@) == due(self.rules(), keys_of(opened@), keys_of(closed@)),
    {
        let mut out: Vec<NetNotifyEvent> = Vec::new();
        let ghost rules = self.rules@;
        let ghost ov = keys_of(opened@);
        let ghost cv = keys_of(closed@);
        let mut i: usize = 0;
        while i < opened.len()
            invariant
                i <= opened.len(),
                rules == self.rules@,
                ov == keys_of(opened@),
                event_views(out@) == opened_events(passing(rules, ov.take(i as int))),
            decreases opened.len() - i,
        {
            let ghost sofar = passing(rules, ov.take(i as int));
            assert(ov.take(i + 1).drop_last() =~= ov.take(i as int));
            if self.rules.matches(&opened[i]) {
                let ev = NetNotifyEvent::Opened { conn: opened[i].copy() };
                let ghost v = ev@;
                out.push(ev);
                assert(opened_events(sofar.push(opened@[i as int]@)) =~= opened_events(sofar).push(
                    v,
                ));
            }
            i += 1;
        }
        assert(ov.take(opened.len() as int) =~= ov);
        let ghost first = event_views(out@);
        let mut j: usize = 0;
        while j < closed.len()
            invariant
                j <= closed.len(),
                rules == self.rules@,
                cv == keys_of(closed@),
                event_views(out@) == first + closed_events(passing(rules, cv.take(j as int))),
            decreases closed.len() - j,
        {
            let ghost sofar = passing(rules, cv.take(j as int));
            assert(cv.take(j + 1).drop_last() =~= cv.take(j as int));
            if self.rules.matches(&closed[j]) {
                let ev = NetNotifyEvent::Closed { conn: closed[j].copy() };
                let ghost v = ev@;
                out.push(ev);
                assert(first + closed_events(sofar.push(closed@[j as int]@)) =~= (first
                    + closed_events(sofar)).push(v));
            }
            j += 1;
        }
        assert(cv.take(closed.len() as int) =~= cv);
        out
    }
}

} // verus!
