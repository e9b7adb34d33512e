//! The watch and ignore patterns of the connection watcher, and the
//! decision whether a connection passes them.

use crate::names::names_of;
use crate::netpacket::events::{ConnKey, ConnKeyView};
use crate::netpacket::netutil::{is_hostish, is_hostish_spec, is_ipish, is_ipish_spec};
use crate::netpacket::pattern::{
    all_compile, any_match, any_matches, compiles, glob_compiles, is_simple,
};
use crate::text::{append_str, last_index, rfind, slice, str_chars, string_from_chars};
use vstd::prelude::*;

verus! {

/// The kind of a pattern, which decides what it is matched against.
#[derive(Clone, Copy, Debug, PartialEq, Eq)]
pub enum PatternClass {
    /// matched against the host name of the remote side
    Host,
    /// matched against the IP address of the remote side
    Ip,
    /// matched against the description of the whole connection
    Generic,
}

/// A pattern with an ASCII letter, or with both a star and a dot, is
/// host-like; of the others, one made of digits, dots, colons and stars is
/// ip-like; the rest are generic.
pub open spec fn class_of(pat: Seq<char>) -> PatternClass {
    if is_hostish_spec(pat) {
        PatternClass::Host
    } else if is_ipish_spec(pat) {
        PatternClass::Ip
    } else {
        PatternClass::Generic
    }
}

pub fn classify(pat: &str) -> (r: PatternClass)
    ensures
        r == class_of(pat@),
{
    if is_hostish(pat) {
        PatternClass::Host
    } else if is_ipish(pat) {
        PatternClass::Ip
    } else {
        PatternClass::Generic
    }
}

/// The six lists of patterns, as texts.
pub struct RulesView {
    pub watch: Seq<Seq<char>>,
    pub ignore: Seq<Seq<char>>,
    pub watch_ip: Seq<Seq<char>>,
    pub watch_host: Seq<Seq<char>>,
    pub ignore_ip: Seq<Seq<char>>,
    pub ignore_host: Seq<Seq<char>>,
}

impl RulesView {
    pub open spec fn empty() -> RulesView {
        RulesView {
            watch: Seq::empty(),
            ignore: Seq::empty(),
            watch_ip: Seq::empty(),
            watch_host: Seq::empty(),
            ignore_ip: Seq::empty(),
            ignore_host: Seq::empty(),
        }
    }

    /// The rules with `pat` added to the watch list of its class.
    pub open spec fn watching(self, pat: Seq<char>) -> RulesView {
        match class_of(pat) {
            PatternClass::Host => RulesView { watch_host: self.watch_host.push(pat), ..self },
            PatternClass::Ip => RulesView { watch_ip: self.watch_ip.push(pat), ..self },
            PatternClass::Generic => RulesView { watch: self.watch.push(pat), ..self },
        }
    }

    /// The rules with `pat` added to the ignore list of its class.
    pub open spec fn ignoring(self, pat: Seq<char>) -> RulesView {
        match class_of(pat) {
            PatternClass::Host => RulesView { ignore_host: self.ignore_host.push(pat), ..self },
            PatternClass::Ip => RulesView { ignore_ip: self.ignore_ip.push(pat), ..self },
            PatternClass::Generic => RulesView { ignore: self.ignore.push(pat), ..self },
        }
    }
}

/// The text of a string that may be absent, or `other` in its place.
pub open spec fn text_or(o: Option<Seq<char>>, other: Seq<char>) -> Seq<char> {
    match o {
        Some(t) => t,
        None => other,
    }
}

/// The protocol without a `6` at its end.
pub open spec fn plain_proto(proto: Seq<char>) -> Seq<char> {
    if proto.len() > 0 && proto.last() == '6' {
        proto.drop_last()
    } else {
        proto
    }
}

/// The short description of a connection: protocol, local and remote
/// address with a blank between them, each address decoded where it could
/// be decoded.
pub open spec fn simple_target(c: ConnKeyView) -> Seq<char> {
    plain_proto(c.proto) + " "@ + text_or(c.local_dec, c.local) + " "@ + text_or(
        c.remote_dec,
        c.remote,
    )
}

/// The IP address of the remote side: the decoded remote address up to
/// its last colon; a dash where it could not be decoded.
pub open spec fn remote_ip(c: ConnKeyView) -> Seq<char> {
    let dec = text_or(c.remote_dec, "-"@);
    match last_index(dec, ':') {
        Some(i) => dec.subrange(0, i),
        None => dec,
    }
}

/// The long description of a connection, with every field named.
pub open spec fn full_target(c: ConnKeyView) -> Seq<char> {
    plain_proto(c.proto) + " raw:"@ + c.local + "->"@ + c.remote + " dec:"@ + text_or(
        c.local_dec,
        "-"@,
    ) + "->"@ + text_or(c.remote_dec, "-"@) + " state:"@ + text_or(c.state, "-"@) + ":"@
        + text_or(c.state_dec, "-"@)
}

/// What the patterns say of one connection.
#[derive(Clone, Copy, Debug, PartialEq, Eq)]
pub struct MatchFacts {
    /// a generic ignore pattern matches the short description
    pub ignore_simple: bool,
    /// the remote host name is known and not empty
    pub host_known: bool,
    /// a host ignore pattern matches the remote host name
    pub ignore_host: bool,
    /// an IP ignore pattern matches the remote IP address
    pub ignore_ip: bool,
    /// there are generic watch patterns
    pub has_watch: bool,
    /// a generic watch pattern matches the short description
    pub watch_simple: bool,
    /// there are host watch patterns
    pub has_watch_host: bool,
    /// a host watch pattern matches the remote host name
    pub watch_host: bool,
    /// there are IP watch patterns
    pub has_watch_ip: bool,
    /// an IP watch pattern matches the remote IP address
    pub watch_ip: bool,
    /// there are generic ignore patterns
    pub has_ignore: bool,
    /// a generic watch pattern matches the long description
    pub watch_full: bool,
    /// a generic ignore pattern matches the long description
    pub ignore_full: bool,
}

/// Whether a connection passes. Any ignore pattern that matches rejects
/// it. Each kind of watch pattern that is in use must match: a generic one
/// the short description, a host one the known host name, an IP one the
/// remote address. Where generic patterns are in use, they are asked again
/// on the long description: a watch pattern must match it if there are
/// any, and no ignore pattern may.
pub open spec fn accepts(f: MatchFacts) -> bool {
    &&& !f.ignore_simple
    &&& !(f.host_known && f.ignore_host)
    &&& !f.ignore_ip
    &&& (f.has_watch ==> f.watch_simple)
    &&& (f.has_watch_host ==> f.host_known && f.watch_host)
    &&& (f.has_watch_ip ==> f.watch_ip)
    &&& (f.has_watch ==> f.watch_full)
    &&& ((f.has_watch || f.has_ignore) ==> !f.ignore_full)
}

/// The decision on what the patterns say of a connection.
pub fn decide(f: &MatchFacts) -> (r: bool)
    ensures
        r == accepts(*f),
{
    if f.ignore_simple {
        return false;
    }
    if f.host_known && f.ignore_host {
        return false;
    }
    if f.ignore_ip {
        return false;
    }
    if f.has_watch && !f.watch_simple {
        return false;
    }
    if f.has_watch_host {
        if !f.host_known {
            return false;
        }
        if !f.watch_host {
            return false;
        }
    }
    if f.has_watch_ip && !f.watch_ip {
        return false;
    }
    if f.has_watch || f.has_ignore {
        if f.has_watch && !f.watch_full {
            return false;
        }
        if f.ignore_full {
            return false;
        }
    }
    true
}

/// What the patterns of `r` say of the connection `c`.
pub open spec fn facts_of(r: RulesView, c: ConnKeyView) -> MatchFacts {
    let host = text_or(c.remote_host, Seq::empty());
    MatchFacts {
        ignore_simple: any_match(r.ignore, simple_target(c)),
        host_known: host.len() > 0,
        ignore_host: any_match(r.ignore_host, host),
        ignore_ip: any_match(r.ignore_ip, remote_ip(c)),
        has_watch: r.watch.len() > 0,
        watch_simple: any_match(r.watch, simple_target(c)),
        has_watch_host: r.watch_host.len() > 0,
        watch_host: any_match(r.watch_host, host),
        has_watch_ip: r.watch_ip.len() > 0,
        watch_ip: any_match(r.watch_ip, remote_ip(c)),
        has_ignore: r.ignore.len() > 0,
        watch_full: any_match(r.watch, full_target(c)),
        ignore_full: any_match(r.ignore, full_target(c)),
    }
}

fn push_or(out: &mut Vec<char>, o: &Option<String>, other: &str)
    ensures
        final(out)@ == old(out)@ + text_or(crate::netpacket::events::opt_text(*o), other@),
{
    match o {
        Some(s) => append_str(out, s.as_str()),
        None => append_str(out, other),
    }
}

fn push_plain_proto(out: &mut Vec<char>, proto: &str)
    ensures
        final(out)@ == old(out)@ + plain_proto(proto@),
{
    let p = str_chars(proto);
    let n = p.len();
    let end = if n > 0 && p[n - 1] == '6' {
        n - 1
    } else {
        n
    };
    let cut = slice(&p, 0, end);
    crate::text::append(out, &cut);
}

/// The short description of `c`.
pub fn simple_target_of(c: &ConnKey) -> (r: String)
    ensures
        r@ == simple_target(c@),
{
    let mut out: Vec<char> = Vec::new();
    push_plain_proto(&mut out, c.proto.as_str());
    append_str(&mut out, " ");
    push_or(&mut out, &c.local_dec, c.local.as_str());
    append_str(&mut out, " ");
    push_or(&mut out, &c.remote_dec, c.remote.as_str());
    string_from_chars(&out)
}

/// The IP address of the remote side of `c`.
pub fn remote_ip_of(c: &ConnKey) -> (r: String)
    ensures
        r@ == remote_ip(c@),
{
    let mut dec: Vec<char> = Vec::new();
    push_or(&mut dec, &c.remote_dec, "-");
    match rfind(&dec, ':') {
        Some(i) => {
            let ip = slice(&dec, 0, i);
            string_from_chars(&ip)
        },
        None => string_from_chars(&dec),
    }
}

/// The long description of `c`.
pub fn full_target_of(c: &ConnKey) -> (r: String)
    ensures
        r@ == full_target(c@),
{
    let mut out: Vec<char> = Vec::new();
    push_plain_proto(&mut out, c.proto.as_str());
    append_str(&mut out, " raw:");
    append_str(&mut out, c.local.as_str());
    append_str(&mut out, "->");
    append_str(&mut out, c.remote.as_str());
    append_str(&mut out, " dec:");
    push_or(&mut out, &c.local_dec, "-");
    append_str(&mut out, "->");
    push_or(&mut out, &c.remote_dec, "-");
    append_str(&mut out, " state:");
    push_or(&mut out, &c.state, "-");
    append_str(&mut out, ":");
    push_or(&mut out, &c.state_dec, "-");
    string_from_chars(&out)
}

/// The patterns of the connection watcher. Every pattern is well formed.
pub struct RuleSet {
    watch: Vec<String>,
    ignore: Vec<String>,
    watch_ip: Vec<String>,
    watch_host: Vec<String>,
    ignore_ip: Vec<String>,
    ignore_host: Vec<String>,
}

impl RuleSet {
    #[verifier::type_invariant]
    spec fn well_formed(&self) -> bool {
        &&& all_compile(names_of(self.watch@))
        &&& all_compile(names_of(self.ignore@))
        &&& all_compile(names_of(self.watch_ip@))
        &&& all_compile(names_of(self.watch_host@))
        &&& all_compile(names_of(self.ignore_ip@))
        &&& all_compile(names_of(self.ignore_host@))
    }

    pub closed spec fn view(&self) -> RulesView {
        RulesView {
            watch: names_of(self.watch@),
            ignore: names_of(self.ignore@),
            watch_ip: names_of(self.watch_ip@),
            watch_host: names_of(self.watch_host@),
            ignore_ip: names_of(self.ignore_ip@),
            ignore_host: names_of(self.ignore_host@),
        }
    }

    pub fn new() -> (r: Self)
        ensures
            r@ == RulesView::empty(),
    {
        let r = RuleSet {
            watch: Vec::new(),
            ignore: Vec::new(),
            watch_ip: Vec::new(),
            watch_host: Vec::new(),
            ignore_ip: Vec::new(),
            ignore_host: Vec::new(),
        };
        assert(names_of(r.ignore_host@) =~= Seq::<Seq<char>>::empty());
        r
    }

    fn with_pattern(list: Vec<String>, pat: &str) -> (r: Vec<String>)
        requires
            all_compile(names_of(list@)),
            glob_compiles(pat@),
        ensures
            names_of(r@) == names_of(list@).push(pat@),
            all_compile(names_of(r@)),
    {
        let ghost before = names_of(list@);
        let mut r = list;
        r.push(pat.to_owned());
        assert(names_of(r@) =~= before.push(pat@));
        r
    }

    /// Adds `pat` to the watch list of its class, if it is well formed;
    /// says whether it is.
    pub fn watch(&mut self, pat: &str) -> (ok: bool)
        ensures
            ok == glob_compiles(pat@),
            is_simple(pat@) ==> ok,
            final(self)@ == if ok {
                old(self)@.watching(pat@)
            } else {
                old(self)@
            },
    {
        proof {
            use_type_invariant(&*self);
        }
        if !compiles(pat) {
            return false;
        }
        match classify(pat) {
            PatternClass::Host => {
                let mut list: Vec<String> = Vec::new();
                core::mem::swap(&mut self.watch_host, &mut list);
                self.watch_host = Self::with_pattern(list, pat);
            },
            PatternClass::Ip => {
                let mut list: Vec<String> = Vec::new();
                core::mem::swap(&mut self.watch_ip, &mut list);
                self.watch_ip = Self::with_pattern(list, pat);
            },
            PatternClass::Generic => {
                let mut list: Vec<String> = Vec::new();
                core::mem::swap(&mut self.watch, &mut list);
                self.watch = Self::with_pattern(list, pat);
            },
        }
        true
    }

    /// Adds `pat` to the ignore list of its class, if it is well formed;
    /// says whether it is.
    pub fn ignore(&mut self, pat: &str) -> (ok: bool)
        ensures
            ok == glob_compiles(pat@),
            is_simple(pat@) ==> ok,
            final(self)@ == if ok {
                old(self)@.ignoring(pat@)
            } else {
                old(self)@
            },
    {
        proof {
            use_type_invariant(&*self);
        }
        if !compiles(pat) {
            return false;
        }
        match classify(pat) {
            PatternClass::Host => {
                let mut list: Vec<String> = Vec::new();
                core::mem::swap(&mut self.ignore_host, &mut list);
                self.ignore_host = Self::with_pattern(list, pat);
            },
            PatternClass::Ip => {
                let mut list: Vec<String> = Vec::new();
                core::mem::swap(&mut self.ignore_ip, &mut list);
                self.ignore_ip = Self::with_pattern(list, pat);
            },
            PatternClass::Generic => {
                let mut list: Vec<String> = Vec::new();
                core::mem::swap(&mut self.ignore, &mut list);
                self.ignore = Self::with_pattern(list, pat);
            },
        }
        true
    }

    /// What the patterns say of `c`.
    pub fn facts(&self, c: &ConnKey) -> (f: MatchFacts)
        ensures
            f == facts_of(self@, c@),
    {
        proof {
            use_type_invariant(self);
        }
        let simple = simple_target_of(c);
        let ip = remote_ip_of(c);
        let full = full_target_of(c);
        let empty = String::new();
        let host: &String = match &c.remote_host {
            Some(h) => h,
            None => &empty,
        };
        MatchFacts {
            ignore_simple: any_matches(&self.ignore, simple.as_str()),
            host_known: str_chars(host.as_str()).len() > 0,
            ignore_host: any_matches(&self.ignore_host, host.as_str()),
            ignore_ip: any_matches(&self.ignore_ip, ip.as_str()),
            has_watch: self.watch.len() > 0,
            watch_simple: any_matches(&self.watch, simple.as_str()),
            has_watch_host: self.watch_host.len() > 0,
            watch_host: any_matches(&self.watch_host, host.as_str()),
            has_watch_ip: self.watch_ip.len() > 0,
            watch_ip: any_matches(&self.watch_ip, ip.as_str()),
            has_ignore: self.ignore.len() > 0,
            watch_full: any_matches(&self.watch, full.as_str()),
            ignore_full: any_matches(&self.ignore, full.as_str()),
        }
    }

    /// Whether the connection `c` passes the patterns.
    pub fn matches(&self, c: &ConnKey) -> (r: bool)
        ensures
            r == accepts(facts_of(self@, c@)),
    {
        let f = self.facts(c);
        decide(&f)
    }
}

} // verus!
