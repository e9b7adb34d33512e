//! Connection keys, the events of the connection watcher, and their mask.

use vstd::prelude::*;

verus! {

/// One row of a connection table.
#[derive(Clone, Debug, Hash, PartialEq, Eq)]
pub struct ConnKey {
    /// `tcp`, `udp`, `tcp6` or `udp6`
    pub proto: String,
    /// the local address as the table gives it, `hex_ip:hex_port`
    pub local: String,
    /// the remote address as the table gives it
    pub remote: String,
    /// the state code of a TCP row
    pub state: Option<String>,
    /// the local address decoded, `ip:port`
    pub local_dec: Option<String>,
    /// the remote address decoded
    pub remote_dec: Option<String>,
    /// the name of the state of a TCP row
    pub state_dec: Option<String>,
    pub local_host: Option<String>,
    /// the host name that belongs to the remote address
    pub remote_host: Option<String>,
}

/// What a connection key holds, as texts.
pub struct ConnKeyView {
    pub proto: Seq<char>,
    pub local: Seq<char>,
    pub remote: Seq<char>,
    pub state: Option<Seq<char>>,
    pub local_dec: Option<Seq<char>>,
    pub remote_dec: Option<Seq<char>>,
    pub state_dec: Option<Seq<char>>,
    pub local_host: Option<Seq<char>>,
    pub remote_host: Option<Seq<char>>,
}

/// The text of a string that may be absent.
pub open spec fn opt_text(o: Option<String>) -> Option<Seq<char>> {
    match o {
        Some(s) => Some(s@),
        None => None,
    }
}

pub fn clone_opt(o: &Option<String>) -> (r: Option<String>)
    ensures
        r == *o,
{
    match o {
        Some(s) => Some(s.clone()),
        None => None,
    }
}

pub fn same_opt(a: &Option<String>, b: &Option<String>) -> (r: bool)
    ensures
        r == (opt_text(*a) == opt_text(*b)),
{
    match (a, b) {
        (Some(x), Some(y)) => *x == *y,
        (None, None) => true,
        _ => false,
    }
}

impl View for ConnKey {
    type V = ConnKeyView;

    open spec fn view(&self) -> ConnKeyView {
        ConnKeyView {
            proto: self.proto@,
            local: self.local@,
            remote: self.remote@,
            state: opt_text(self.state),
            local_dec: opt_text(self.local_dec),
            remote_dec: opt_text(self.remote_dec),
            state_dec: opt_text(self.state_dec),
            local_host: opt_text(self.local_host),
            remote_host: opt_text(self.remote_host),
        }
    }
}

impl ConnKey {
    /// Whether two keys agree in every field.
    pub fn same(&self, other: &ConnKey) -> (r: bool)
        ensures
            r == (self@ == other@),
    {
        self.proto == other.proto && self.local == other.local && self.remote == other.remote
            && same_opt(&self.state, &other.state) && same_opt(&self.local_dec, &other.local_dec)
            && same_opt(&self.remote_dec, &other.remote_dec) && same_opt(
            &self.state_dec,
            &other.state_dec,
        ) && same_opt(&self.local_host, &other.local_host) && same_opt(
            &self.remote_host,
            &other.remote_host,
        )
    }

    /// A copy of the key.
    pub fn copy(&self) -> (r: ConnKey)
        ensures
            r == *self,
    {
        ConnKey {
            proto: self.proto.clone(),
            local: self.local.clone(),
            remote: self.remote.clone(),
            state: clone_opt(&self.state),
            local_dec: clone_opt(&self.local_dec),
            remote_dec: clone_opt(&self.remote_dec),
            state_dec: clone_opt(&self.state_dec),
            local_host: clone_opt(&self.local_host),
            remote_host: clone_opt(&self.remote_host),
        }
    }
}

#[derive(Clone, Debug, PartialEq, Eq)]
pub enum NetNotifyEvent {
    Opened { conn: ConnKey },
    Closed { conn: ConnKey },
}

/// An event as plain values.
pub enum NetEventView {
    Opened { conn: ConnKeyView },
    Closed { conn: ConnKeyView },
}

impl View for NetNotifyEvent {
    type V = NetEventView;

    open spec fn view(&self) -> NetEventView {
        match *self {
            NetNotifyEvent::Opened { conn } => NetEventView::Opened { conn: conn@ },
            NetNotifyEvent::Closed { conn } => NetEventView::Closed { conn: conn@ },
        }
    }
}

pub const OPENED: u64 = 0b0001;

pub const CLOSED: u64 = 0b0010;

/// A set of event kinds, one bit for each.
#[derive(Clone, Copy, Debug, PartialEq, Eq)]
pub struct NetNotifyMask {
    pub bits: u64,
}

impl NetNotifyMask {
    pub fn opened() -> (m: Self)
        ensures
            m.bits == OPENED,
    {
        NetNotifyMask { bits: OPENED }
    }

    pub fn closed() -> (m: Self)
        ensures
            m.bits == CLOSED,
    {
        NetNotifyMask { bits: CLOSED }
    }

    /// The kinds of either mask.
    pub fn union(self, other: NetNotifyMask) -> (m: Self)
        ensures
            m.bits == self.bits | other.bits,
    {
        NetNotifyMask { bits: self.bits | other.bits }
    }

    pub fn bits(&self) -> (b: u64)
        ensures
            b == self.bits,
    {
        self.bits
    }
}

/// The bit of the mask that stands for the kind of `ev`.
pub open spec fn event_bit(ev: NetNotifyEvent) -> u64 {
    match ev {
        NetNotifyEvent::Opened { .. } => OPENED,
        NetNotifyEvent::Closed { .. } => CLOSED,
    }
}

impl NetNotifyEvent {
    /// The connection that the event is about.
    pub open spec fn conn(self) -> ConnKey {
        match self {
            NetNotifyEvent::Opened { conn } => conn,
            NetNotifyEvent::Closed { conn } => conn,
        }
    }

    /// The mask with the one bit of this event's kind.
    pub fn mask(&self) -> (m: NetNotifyMask)
        ensures
            m.bits == event_bit(*self),
    {
        match self {
            NetNotifyEvent::Opened { .. } => NetNotifyMask { bits: OPENED },
            NetNotifyEvent::Closed { .. } => NetNotifyMask { bits: CLOSED },
        }
    }
}

} // verus!
