//! The connection table: its rows as connection keys, kept as a set.

use crate::netpacket::events::{ConnKey, ConnKeyView};
use crate::netpacket::netutil::{
    decode_addr_chars, decode_addr_spec, tcp_state_name, tcp_state_of,
};
use crate::text::{fields, lines, lines_of, split_whitespace, str_chars, string_from_chars, texts};
use vstd::prelude::*;

verus! {

/// The views of a sequence of connection keys.
pub open spec fn keys_of(items: Seq<ConnKey>) -> Seq<ConnKeyView> {
    items.map_values(|k: ConnKey| k@)
}

/// Whether the protocol is one of the IPv6 ones: whether its name ends in `6`.
pub open spec fn is_v6(proto: Seq<char>) -> bool {
    proto.len() > 0 && proto.last() == '6'
}

/// The connection that a line of a `/proc/net` table describes for the
/// protocol `proto`. The line is split at white space; the second and the
/// third column are the local and the remote address, and for TCP the
/// fourth is the state. A line of fewer than three columns describes none.
pub open spec fn parse_row(proto: Seq<char>, line: Seq<char>, is_tcp: bool) -> Option<
    ConnKeyView,
> {
    let cols = fields(line);
    if cols.len() < 3 {
        None
    } else {
        let state = if is_tcp && cols.len() > 3 {
            Some(cols[3])
        } else {
            None
        };
        Some(
            ConnKeyView {
                proto,
                local: cols[1],
                remote: cols[2],
                state,
                local_dec: decode_addr_spec(cols[1], is_v6(proto)),
                remote_dec: decode_addr_spec(cols[2], is_v6(proto)),
                state_dec: match state {
                    Some(code) => Some(tcp_state_name(code)),
                    None => None,
                },
                local_host: None,
                remote_host: None,
            },
        )
    }
}

/// The set with `k` added at the end, unless it holds `k` already.
pub open spec fn with_key(set: Seq<ConnKeyView>, k: ConnKeyView) -> Seq<ConnKeyView> {
    if set.contains(k) {
        set
    } else {
        set.push(k)
    }
}

/// The set with the connections of the lines before `upto` added. The
/// first line is the header and describes none.
pub open spec fn with_rows(
    set: Seq<ConnKeyView>,
    proto: Seq<char>,
    lines: Seq<Seq<char>>,
    is_tcp: bool,
    upto: int,
) -> Seq<ConnKeyView>
    decreases upto,
{
    if upto <= 1 || upto > lines.len() {
        set
    } else {
        let head = with_rows(set, proto, lines, is_tcp, upto - 1);
        match parse_row(proto, lines[upto - 1], is_tcp) {
            Some(k) => with_key(head, k),
            None => head,
        }
    }
}

/// The set with the connections of a whole table added; as it was where
/// the table could not be read.
pub open spec fn with_table(
    set: Seq<ConnKeyView>,
    proto: Seq<char>,
    text: Option<Seq<char>>,
    is_tcp: bool,
) -> Seq<ConnKeyView> {
    match text {
        Some(t) => with_rows(set, proto, lines_of(t), is_tcp, lines_of(t).len() as int),
        None => set,
    }
}

/// The elements of `a` that `b` does not hold, in the order of `a`.
pub open spec fn keys_minus(a: Seq<ConnKeyView>, b: Seq<ConnKeyView>) -> Seq<ConnKeyView>
    decreases a.len(),
{
    if a.len() == 0 {
        Seq::empty()
    } else {
        let head = keys_minus(a.drop_last(), b);
        if b.contains(a.last()) {
            head
        } else {
            head.push(a.last())
        }
    }
}

/// A set of connection keys, in the order in which they were added.
pub struct ConnSet {
    items: Vec<ConnKey>,
}

impl ConnSet {
    #[verifier::type_invariant]
    spec fn distinct(&self) -> bool {
        keys_of(self.items@).no_duplicates()
    }

    pub closed spec fn view(&self) -> Seq<ConnKeyView> {
        keys_of(self.items@)
    }

    pub fn new() -> (r: Self)
        ensures
            r@ == Seq::<ConnKeyView>::empty(),
    {
        ConnSet { items: Vec::new() }
    }

    pub fn len(&self) -> (n: usize)
        ensures
            n == self@.len(),
            self@.no_duplicates(),
    {
        proof {
            use_type_invariant(self);
        }
        self.items.len()
    }

    pub fn get(&self, i: usize) -> (k: &ConnKey)
        requires
            i < self@.len(),
        ensures
            k@ == self@[i as int],
    {
        &self.items[i]
    }

    pub fn contains(&self, k: &ConnKey) -> (r: bool)
        ensures
            r == self@.contains(k@),
    {
        let ghost ks = keys_of(self.items@);
        let mut i: usize = 0;
        while i < self.items.len()
            invariant
                i <= self.items.len(),
                ks == keys_of(self.items@),
                forall|j: int| 0 <= j < i ==> ks[j] != k@,
            decreases self.items.len() - i,
        {
            if self.items[i].same(k) {
                assert(ks[i as int] == k@);
                return true;
            }
            i += 1;
        }
        false
    }

    /// Adds `k` unless the set holds it already.
    pub fn insert(&mut self, k: ConnKey)
        ensures
            final(self)@ == with_key(old(self)@, k@),
    {
        proof {
            use_type_invariant(&*self);
        }
        if self.contains(&k) {
            return ;
        }
        let ghost before = keys_of(self.items@);
        let ghost v = k@;
        let mut items: Vec<ConnKey> = Vec::new();
        core::mem::swap(&mut self.items, &mut items);
        items.push(k);
        assert(keys_of(items@) =~= before.push(v));
        self.items = items;
    }

    /// The keys of this set that `other` does not hold.
    pub fn minus(&self, other: &ConnSet) -> (r: Vec<ConnKey>)
        ensures
            keys_of(r@) == keys_minus(self@, other@),
    {
        let mut out: Vec<ConnKey> = Vec::new();
        let ghost a = keys_of(self.items@);
        let mut i: usize = 0;
        while i < self.items.len()
            invariant
                i <= self.items.len(),
                a == keys_of(self.items@),
                keys_of(out@) == keys_minus(a.take(i as int), other@),
            decreases self.items.len() - i,
        {
            assert(a.take(i + 1).drop_last() =~= a.take(i as int));
            if !other.contains(&self.items[i]) {
                out.push(self.items[i].copy());
            }
            i += 1;
        }
        assert(a.take(self.items.len() as int) =~= a);
        out
    }
}

/// The connection that a line describes for `proto`.
pub fn parse_line(proto: &str, line: &Vec<char>, is_tcp: bool) -> (r: Option<ConnKey>)
    ensures
        match r {
            Some(k) => parse_row(proto@, line@, is_tcp) == Some(k@),
            None => parse_row(proto@, line@, is_tcp) is None,
        },
{
    let cols = split_whitespace(line);
    if cols.len() < 3 {
        return None;
    }
    let p = str_chars(proto);
    let v6 = p.len() > 0 && p[p.len() - 1] == '6';
    let state = if is_tcp && cols.len() > 3 {
        Some(string_from_chars(&cols[3]))
    } else {
        None
    };
    let state_dec = if is_tcp && cols.len() > 3 {
        Some(tcp_state_of(&cols[3]))
    } else {
        None
    };
    Some(
        ConnKey {
            proto: proto.to_owned(),
            local: string_from_chars(&cols[1]),
            remote: string_from_chars(&cols[2]),
            state,
            local_dec: decode_addr_chars(&cols[1], v6),
            remote_dec: decode_addr_chars(&cols[2], v6),
            state_dec,
            local_host: None,
            remote_host: None,
        },
    )
}

/// Adds the connections of one table to `out`. `text` is what the table
/// holds, or `None` where it could not be read.
pub fn parse_table(proto: &str, text: Option<&str>, is_tcp: bool, out: &mut ConnSet)
    ensures
        final(out)@ == with_table(
            old(out)@,
            proto@,
            match text {
                Some(t) => Some(t@),
                None => None,
            },
            is_tcp,
        ),
{
    let text = match text {
        Some(t) => t,
        None => {
            return ;
        },
    };
    let chars = str_chars(text);
    let ls = lines(&chars);
    let ghost lv = lines_of(text@);
    let mut i: usize = 1;
    if ls.len() <= 1 {
        return ;
    }
    while i < ls.len()
        invariant
            1 <= i <= ls.len(),
            lv == texts(ls@),
            out@ == with_rows(old(out)@, proto@, lv, is_tcp, i as int),
        decreases ls.len() - i,
    {
        match parse_line(proto, &ls[i], is_tcp) {
            Some(k) => {
                out.insert(k);
            },
            None => {},
        }
        i += 1;
    }
}

/// The set of connections that the four tables of `/proc/net` describe.
/// Each argument is what one table holds, or `None` where it could not be
/// read.
pub fn read_table(tcp: Option<&str>, tcp6: Option<&str>, udp: Option<&str>, udp6: Option<&str>)
    -> (r: ConnSet)
    ensures
        r@ == with_table(
            with_table(
                with_table(
                    with_table(
                        Seq::empty(),
                        "tcp"@,
                        match tcp {
                            Some(t) => Some(t@),
                            None => None,
                        },
                        true,
                    ),
                    "tcp6"@,
                    match tcp6 {
                        Some(t) => Some(t@),
                        None => None,
                    },
                    true,
                ),
                "udp"@,
                match udp {
                    Some(t) => Some(t@),
                    None => None,
                },
                false,
            ),
            "udp6"@,
            match udp6 {
                Some(t) => Some(t@),
                None => None,
            },
            false,
        ),
{
    let mut out = ConnSet::new();
    parse_table("tcp", tcp, true, &mut out);
    parse_table("tcp6", tcp6, true, &mut out);
    parse_table("udp", udp, false, &mut out);
    parse_table("udp6", udp6, false, &mut out);
    out
}

} // verus!
