//! The cache of host names for remote addresses.

use crate::netpacket::netutil::{Ipv4Addr, Ipv6Addr};
use vstd::prelude::*;

verus! {

/// An IP address of either family.
#[derive(Clone, Copy, Debug, PartialEq, Eq)]
pub enum IpAddr {
    V4(Ipv4Addr),
    V6(Ipv6Addr),
}

impl IpAddr {
    /// The octets of the address: four or sixteen.
    pub open spec fn octets(self) -> Seq<u8> {
        match self {
            IpAddr::V4(a) => a.octets@,
            IpAddr::V6(a) => a.octets@,
        }
    }

    /// Whether every octet of the address is zero.
    pub fn is_unspecified(&self) -> (r: bool)
        ensures
            r == all_zero(self.octets()),
    {
        match self {
            IpAddr::V4(a) => {
                a.octets[0] == 0 && a.octets[1] == 0 && a.octets[2] == 0 && a.octets[3]
                    == 0
            },
            IpAddr::V6(a) => {
                let mut i: usize = 0;
                while i < 16
                    invariant
                        i <= 16,
                        self.octets() == a.octets@,
                        forall|k: int| 0 <= k < i ==> a.octets@[k] == 0,
                    decreases 16 - i,
                {
                    if a.octets[i] != 0 {
                        return false;
                    }
                    i += 1;
                }
                true
            },
        }
    }

    /// Whether two addresses are of one family and agree in every octet.
    pub fn same(&self, other: &IpAddr) -> (r: bool)
        ensures
            r == (self.octets() == other.octets()),
    {
        match (self, other) {
            (IpAddr::V4(a), IpAddr::V4(b)) => {
                let r = a.octets[0] == b.octets[0] && a.octets[1] == b.octets[1] && a.octets[2]
                    == b.octets[2] && a.octets[3] == b.octets[3];
                assert(r == (a.octets@ =~= b.octets@));
                r
            },
            (IpAddr::V6(a), IpAddr::V6(b)) => {
                let mut i: usize = 0;
                while i < 16
                    invariant
                        i <= 16,
                        self.octets() == a.octets@,
                        other.octets() == b.octets@,
                        forall|k: int| 0 <= k < i ==> a.octets@[k] == b.octets@[k],
                    decreases 16 - i,
                {
                    if a.octets[i] != b.octets[i] {
                        return false;
                    }
                    i += 1;
                }
                assert(a.octets@ =~= b.octets@);
                true
            },
            (IpAddr::V4(a), IpAddr::V6(b)) => {
                assert(a.octets@.len() != b.octets@.len());
                false
            },
            (IpAddr::V6(a), IpAddr::V4(b)) => {
                assert(a.octets@.len() != b.octets@.len());
                false
            },
        }
    }
}

pub open spec fn all_zero(o: Seq<u8>) -> bool {
    forall|k: int| 0 <= k < o.len() ==> o[k] == 0
}

/// One entry of the cache as plain values.
pub struct DnsEntryView {
    pub ip: Seq<u8>,
    pub name: Seq<char>,
    /// the clock reading, in milliseconds, from which the entry is stale
    pub expires: u64,
}

/// One entry of the cache.
pub struct DnsEntry {
    pub ip: IpAddr,
    pub name: String,
    pub expires: u64,
}

impl View for DnsEntry {
    type V = DnsEntryView;

    open spec fn view(&self) -> DnsEntryView {
        DnsEntryView { ip: self.ip.octets(), name: self.name@, expires: self.expires }
    }
}

pub open spec fn entries_of(v: Seq<DnsEntry>) -> Seq<DnsEntryView> {
    v.map_values(|e: DnsEntry| e@)
}

/// The addresses of the entries of a cache.
pub open spec fn cached_ips(cache: Seq<DnsEntryView>) -> Seq<Seq<u8>> {
    cache.map_values(|e: DnsEntryView| e.ip)
}

/// What the cache says of an address.
pub enum DnsAnswerView {
    /// the address is the unspecified one: it has no name
    Skip,
    /// the cache holds a fresh name
    Cached(Seq<char>),
    /// the resolver has to be asked
    Lookup,
}

/// What the cache says of an address.
#[derive(Clone, Debug, PartialEq, Eq)]
pub enum DnsAnswer {
    /// the address is the unspecified one: it has no name
    Skip,
    /// the cache holds a fresh name
    Cached(String),
    /// the resolver has to be asked
    Lookup,
}

impl View for DnsAnswer {
    type V = DnsAnswerView;

    open spec fn view(&self) -> DnsAnswerView {
        match *self {
            DnsAnswer::Skip => DnsAnswerView::Skip,
            DnsAnswer::Cached(name) => DnsAnswerView::Cached(name@),
            DnsAnswer::Lookup => DnsAnswerView::Lookup,
        }
    }
}

/// The answer of a cache at the clock reading `now`: the unspecified
/// address is passed over; an entry that expires after `now` gives its
/// name; otherwise the resolver has to be asked.
pub open spec fn answer_of(cache: Seq<DnsEntryView>, ip: Seq<u8>, now: u64) -> DnsAnswerView {
    if all_zero(ip) {
        DnsAnswerView::Skip
    } else {
        match cached_ips(cache).index_of_first(ip) {
            Some(k) => if cache[k].expires > now {
                DnsAnswerView::Cached(cache[k].name)
            } else {
                DnsAnswerView::Lookup
            },
            None => DnsAnswerView::Lookup,
        }
    }
}

/// The cache with `e` in the place of the entry for its address, or at the
/// end if there was none.
pub open spec fn with_entry(cache: Seq<DnsEntryView>, e: DnsEntryView) -> Seq<DnsEntryView> {
    match cached_ips(cache).index_of_first(e.ip) {
        Some(k) => cache.update(k, e),
        None => cache.push(e),
    }
}

/// The clock reading at which a name learnt at `now` gets stale.
pub open spec fn expiry(now: u64, ttl: u64) -> u64 {
    if now + ttl > u64::MAX {
        u64::MAX
    } else {
        (now + ttl) as u64
    }
}

/// Host names of remote addresses, each with the time at which it gets stale.
pub struct DnsCache {
    entries: Vec<DnsEntry>,
}

impl DnsCache {
    #[verifier::type_invariant]
    spec fn distinct(&self) -> bool {
        cached_ips(entries_of(self.entries@)).no_duplicates()
    }

    pub closed spec fn view(&self) -> Seq<DnsEntryView> {
        entries_of(self.entries@)
    }

    pub fn new() -> (r: Self)
        ensures
            r@ == Seq::<DnsEntryView>::empty(),
    {
        DnsCache { entries: Vec::new() }
    }

    fn position(&self, ip: &IpAddr) -> (r: Option<usize>)
        ensures
            match r {
                Some(k) => k < self.entries.len() && cached_ips(self@).index_of_first(ip.octets())
                    == Some(k as int) && self@[k as int].ip == ip.octets(),
                None => cached_ips(self@).index_of_first(ip.octets()) is None && !cached_ips(
                    self@,
                ).contains(ip.octets()),
            },
    {
        let ghost ips = cached_ips(entries_of(self.entries@));
        let mut i: usize = 0;
        while i < self.entries.len()
            invariant
                i <= self.entries.len(),
                ips == cached_ips(entries_of(self.entries@)),
                forall|k: int| 0 <= k < i ==> ips[k] != ip.octets(),
            decreases self.entries.len() - i,
        {
            if self.entries[i].ip.same(ip) {
                proof {
                    assert(ips[i as int] == ip.octets());
                    ips.index_of_first_ensures(ip.octets());
                }
                return Some(i);
            }
            i += 1;
        }
        proof {
            ips.index_of_first_ensures(ip.octets());
        }
        None
    }

    /// What the cache says of `ip` at the clock reading `now`.
    pub fn lookup(&self, ip: &IpAddr, now: u64) -> (r: DnsAnswer)
        ensures
            r@ == answer_of(self@, ip.octets(), now),
    {
        if ip.is_unspecified() {
            return DnsAnswer::Skip;
        }
        match self.position(ip) {
            Some(k) => {
                if self.entries[k].expires > now {
                    DnsAnswer::Cached(self.entries[k].name.clone())
                } else {
                    DnsAnswer::Lookup
                }
            },
            None => DnsAnswer::Lookup,
        }
    }

    /// Keeps `name` as the name of `ip` until the clock reads `expires`.
    pub fn store(&mut self, ip: IpAddr, name: String, expires: u64)
        ensures
            final(self)@ == with_entry(
                old(self)@,
                DnsEntryView { ip: ip.octets(), name: name@, expires },
            ),
    {
        proof {
            use_type_invariant(&*self);
        }
        let ghost before = entries_of(self.entries@);
        let found = self.position(&ip);
        let entry = DnsEntry { ip, name, expires };
        let ghost e = entry@;
        let mut entries: Vec<DnsEntry> = Vec::new();
        core::mem::swap(&mut self.entries, &mut entries);
        match found {
            Some(k) => {
                entries[k] = entry;
                assert(cached_ips(entries_of(entries@)) =~= cached_ips(before));
            },
            None => {
                entries.push(entry);
                assert(cached_ips(entries_of(entries@)) =~= cached_ips(before).push(e.ip));
            },
        }
        self.entries = entries;
    }
}

/// Within the life time of a name the resolver is asked once. For an
/// address that the cache does not hold the first `lookup`, at the clock
/// reading `t0`, asks for the resolver; once the name is stored with the
/// life time `ttl`, every `lookup` of the same address at a reading before
/// `t0 + ttl` gives that name and does not ask for the resolver.
pub proof fn lemma_fresh_name_is_cached(
    cache: Seq<DnsEntryView>,
    ip: Seq<u8>,
    name: Seq<char>,
    t0: u64,
    ttl: u64,
    t1: u64,
)
    requires
        !all_zero(ip),
        t1 < t0 + ttl,
        t1 < u64::MAX,
    ensures
        !cached_ips(cache).contains(ip) ==> answer_of(cache, ip, t0) == DnsAnswerView::Lookup,
        answer_of(
            with_entry(cache, DnsEntryView { ip, name, expires: expiry(t0, ttl) }),
            ip,
            t1,
        ) == DnsAnswerView::Cached(name),
{
    let e = DnsEntryView { ip, name, expires: expiry(t0, ttl) };
    let after = with_entry(cache, e);
    cached_ips(cache).index_of_first_ensures(ip);
    cached_ips(after).index_of_first_ensures(ip);
    match cached_ips(cache).index_of_first(ip) {
        Some(k) => {
            assert(cached_ips(after)[k] == ip);
            let j = cached_ips(after).index_of_first(ip)->0;
            if j != k {
                assert(cached_ips(after)[j] == cached_ips(cache)[j]);
            }
        },
        None => {
            let n = cache.len() as int;
            assert(cached_ips(after)[n] == ip);
            let j = cached_ips(after).index_of_first(ip)->0;
            if j != n {
                assert(cached_ips(after)[j] == cached_ips(cache)[j]);
            }
        },
    }
}

} // verus!
