//! Decoders for the connection tables of `/proc/net` and the classes of
//! watch patterns.

use crate::text::{
    all_digits, append, append_str, contains_str, decimal, eq_ignore_ascii_case, eq_str, find,
    first_index, has_char, has_sub, hex_digit, hex_number, is_alpha,
    is_ascii_alphabetic, is_ascii_digit, is_digit, is_hex, lower_hex,
    parse_hex, push_decimal, push_lower_hex, same_ignoring_case, slice, str_chars,
    string_from_chars, trim, trimmed, value_of,
};
use vstd::prelude::*;

verus! {

/// An IPv4 address as its four octets, first octet first.
#[derive(Clone, Copy, Debug, PartialEq, Eq)]
pub struct Ipv4Addr {
    pub octets: [u8; 4],
}

/// An IPv6 address as its sixteen octets, in network order.
#[derive(Clone, Copy, Debug, PartialEq, Eq)]
pub struct Ipv6Addr {
    pub octets: [u8; 16],
}

/// The port that a hexadecimal field spells, if it fits sixteen bits.
pub open spec fn hex_port_spec(s: Seq<char>) -> Option<u16> {
    match hex_number(s, 0xFFFF) {
        Some(v) => Some(v as u16),
        None => None,
    }
}

pub fn hex_port(s: &str) -> (r: Option<u16>)
    ensures
        r == hex_port_spec(s@),
{
    let chars = str_chars(s);
    match parse_hex(&chars, 0xFFFF) {
        Some(v) => Some(v as u16),
        None => None,
    }
}

/// The four bytes of `v`, least significant first.
pub open spec fn le_octets(v: nat) -> Seq<u8> {
    seq![
        (v % 256) as u8,
        ((v / 256) % 256) as u8,
        ((v / 65536) % 256) as u8,
        ((v / 16777216) % 256) as u8,
    ]
}

/// The address that a hexadecimal field of `/proc/net/tcp` spells: the
/// field is one number of at most thirty-two bits, and the octets of the
/// address are its bytes from the least significant up.
pub open spec fn dec_ipv4_spec(s: Seq<char>) -> Option<Seq<u8>> {
    match hex_number(s, 0xFFFF_FFFF) {
        Some(v) => Some(le_octets(v)),
        None => None,
    }
}

pub fn dec_ipv4(hex_le: &str) -> (r: Option<Ipv4Addr>)
    ensures
        match r {
            Some(a) => dec_ipv4_spec(hex_le@) == Some(a.octets@),
            None => dec_ipv4_spec(hex_le@) is None,
        },
{
    let chars = str_chars(hex_le);
    dec_ipv4_chars(&chars)
}

fn dec_ipv4_chars(chars: &Vec<char>) -> (r: Option<Ipv4Addr>)
    ensures
        match r {
            Some(a) => dec_ipv4_spec(chars@) == Some(a.octets@),
            None => dec_ipv4_spec(chars@) is None,
        },
{
    match parse_hex(chars, 0xFFFF_FFFF) {
        Some(v) => {
            let octets: [u8; 4] = [
                (v % 256) as u8,
                ((v / 256) % 256) as u8,
                ((v / 65536) % 256) as u8,
                ((v / 16777216) % 256) as u8,
            ];
            Some(Ipv4Addr { octets })
        },
        None => None,
    }
}

/// The byte that the two hexadecimal digits at `2 * i` spell.
pub open spec fn hex_pair(s: Seq<char>, i: int) -> u8 {
    value_of(s.subrange(2 * i, 2 * i + 2), 16) as u8
}

/// The address that a hexadecimal field of `/proc/net/tcp6` spells:
/// exactly thirty-two hexadecimal digits, two for each octet, in network
/// order.
pub open spec fn dec_ipv6_spec(s: Seq<char>) -> Option<Seq<u8>> {
    if s.len() == 32 && all_digits(s, 16) {
        Some(Seq::new(16, |i: int| hex_pair(s, i)))
    } else {
        None
    }
}

pub fn dec_ipv6(hex_be: &str) -> (r: Option<Ipv6Addr>)
    ensures
        match r {
            Some(a) => dec_ipv6_spec(hex_be@) == Some(a.octets@),
            None => dec_ipv6_spec(hex_be@) is None,
        },
{
    let chars = str_chars(hex_be);
    dec_ipv6_chars(&chars)
}

fn dec_ipv6_chars(chars: &Vec<char>) -> (r: Option<Ipv6Addr>)
    ensures
        match r {
            Some(a) => dec_ipv6_spec(chars@) == Some(a.octets@),
            None => dec_ipv6_spec(chars@) is None,
        },
{
    if chars.len() != 32 {
        return None;
    }
    let mut octets: [u8; 16] = [0u8; 16];
    let mut i: usize = 0;
    while i < 16
        invariant
            i <= 16,
            chars.len() == 32,
            all_digits(chars@.take(2 * i), 16),
            forall|k: int| 0 <= k < i ==> octets@[k] == hex_pair(chars@, k),
        decreases 16 - i,
    {
        let hi = hex_digit(chars[2 * i]);
        let lo = hex_digit(chars[2 * i + 1]);
        match (hi, lo) {
            (Some(h), Some(l)) => {
                let ghost s = chars@;
                let ghost pair = s.subrange(2 * i, 2 * i + 2);
                assert(value_of(pair, 16) == 16 * h + l) by {
                    reveal_with_fuel(value_of, 3);
                }
                octets[i] = h * 16 + l;
            },
            _ => {
                return None;
            },
        }
        i += 1;
    }
    assert(chars@.take(32) == chars@);
    Some(Ipv6Addr { octets })
}

/// Dotted-quad text of four octets.
pub open spec fn ipv4_text(o: Seq<u8>) -> Seq<char> {
    decimal(o[0] as nat) + seq!['.'] + decimal(o[1] as nat) + seq!['.'] + decimal(o[2] as nat)
        + seq!['.'] + decimal(o[3] as nat)
}

fn push_ipv4(out: &mut Vec<char>, a: u8, b: u8, c: u8, d: u8)
    ensures
        final(out)@ == old(out)@ + ipv4_text(seq![a, b, c, d]),
{
    push_decimal(out, a as u32);
    out.push('.');
    push_decimal(out, b as u32);
    out.push('.');
    push_decimal(out, c as u32);
    out.push('.');
    push_decimal(out, d as u32);
}

impl Ipv4Addr {
    pub fn new(a: u8, b: u8, c: u8, d: u8) -> (r: Self)
        ensures
            r.octets@ == seq![a, b, c, d],
    {
        Ipv4Addr { octets: [a, b, c, d] }
    }

    /// The address in dotted-quad notation.
    pub fn to_string(&self) -> (r: String)
        ensures
            r@ == ipv4_text(self.octets@),
    {
        let mut out: Vec<char> = Vec::new();
        push_ipv4(&mut out, self.octets[0], self.octets[1], self.octets[2], self.octets[3]);
        string_from_chars(&out)
    }
}

/// The eight sixteen-bit segments of sixteen octets in network order.
pub open spec fn segments(o: Seq<u8>) -> Seq<u16> {
    Seq::new(8, |i: int| (o[2 * i] as int * 256 + o[2 * i + 1] as int) as u16)
}

/// How many zero segments follow one another from position `i` on.
pub open spec fn zeros_at(s: Seq<u16>, i: int) -> nat
    decreases s.len() - i,
{
    if 0 <= i < s.len() && s[i] == 0 {
        1 + zeros_at(s, i + 1)
    } else {
        0
    }
}

/// The leftmost position at or after `i` from which the most zero
/// segments follow one another; the length of `s` where `i` is past the end.
pub open spec fn best_start(s: Seq<u16>, i: int) -> int
    decreases s.len() - i,
{
    if i < 0 || i >= s.len() {
        s.len() as int
    } else {
        let rest = best_start(s, i + 1);
        if zeros_at(s, i) >= zeros_at(s, rest) {
            i
        } else {
            rest
        }
    }
}

/// The segments in lower-case hexadecimal without leading zeros, with a
/// colon between neighbours.
pub open spec fn join_hex(s: Seq<u16>) -> Seq<char>
    decreases s.len(),
{
    if s.len() == 0 {
        Seq::empty()
    } else if s.len() == 1 {
        lower_hex(s[0] as nat)
    } else {
        join_hex(s.drop_last()) + seq![':'] + lower_hex(s.last() as nat)
    }
}

/// An IPv4 address mapped into IPv6: ten zero octets, then two of `0xff`.
pub open spec fn is_ipv4_mapped(o: Seq<u8>) -> bool {
    (forall|k: int| 0 <= k < 10 ==> o[k] == 0) && o[10] == 0xff && o[11] == 0xff
}

/// The text of an IPv6 address. A mapped IPv4 address is `::ffff:`
/// followed by the dotted quad. Otherwise the segments are written in
/// hexadecimal, and the leftmost longest run of two or more zero segments
/// is written as `::`.
pub open spec fn ipv6_text(o: Seq<u8>) -> Seq<char> {
    if is_ipv4_mapped(o) {
        "::ffff:"@ + ipv4_text(o.subrange(12, 16))
    } else {
        let s = segments(o);
        let a = best_start(s, 0);
        let n = zeros_at(s, a);
        if n >= 2 {
            join_hex(s.take(a)) + "::"@ + join_hex(s.skip(a + n))
        } else {
            join_hex(s)
        }
    }
}

fn push_join_hex(out: &mut Vec<char>, segs: &Vec<u16>, from: usize, to: usize)
    requires
        from <= to <= segs.len(),
    ensures
        final(out)@ == old(out)@ + join_hex(segs@.subrange(from as int, to as int)),
{
    let mut i: usize = from;
    while i < to
        invariant
            from <= i <= to <= segs.len(),
            out@ == old(out)@ + join_hex(segs@.subrange(from as int, i as int)),
        decreases to - i,
    {
        let ghost next = segs@.subrange(from as int, i + 1);
        assert(next.drop_last() =~= segs@.subrange(from as int, i as int));
        if i > from {
            out.push(':');
        }
        push_lower_hex(out, segs[i] as u32);
        i += 1;
    }
}

fn push_ipv6(out: &mut Vec<char>, a: &Ipv6Addr)
    ensures
        final(out)@ == old(out)@ + ipv6_text(a.octets@),
{
    let o = &a.octets;
    let mut zero10 = true;
    let mut k: usize = 0;
    while k < 10
        invariant
            k <= 10,
            zero10 == (forall|j: int| 0 <= j < k ==> o@[j] == 0),
        decreases 10 - k,
    {
        if o[k] != 0 {
            zero10 = false;
        }
        k += 1;
    }
    if zero10 && o[10] == 0xff && o[11] == 0xff {
        append_str(out, "::ffff:");
        push_ipv4(out, o[12], o[13], o[14], o[15]);
        return ;
    }
    let mut segs: Vec<u16> = Vec::new();
    let mut i: usize = 0;
    while i < 8
        invariant
            i <= 8,
            segs@ == segments(o@).take(i as int),
        decreases 8 - i,
    {
        let seg: u16 = (o[2 * i] as u16) * 256 + (o[2 * i + 1] as u16);
        segs.push(seg);
        i += 1;
    }
    assert(segs@ =~= segments(o@));
    // Lengths of the runs of zeros, and the best start, from the right.
    let mut best: usize = 8;
    let mut best_len: usize = 0;
    let mut run: usize = 0;
    let mut j: usize = 8;
    while j > 0
        invariant
            j <= 8,
            segs.len() == 8,
            run == zeros_at(segs@, j as int),
            run <= 8 - j,
            best == best_start(segs@, j as int),
            j <= best <= 8,
            best_len == zeros_at(segs@, best as int),
            best_len <= 8 - best,
        decreases j,
    {
        j -= 1;
        if segs[j] == 0 {
            run += 1;
        } else {
            run = 0;
        }
        if run >= best_len {
            best = j;
            best_len = run;
        }
    }
    if best_len >= 2 {
        push_join_hex(out, &segs, 0, best);
        append_str(out, "::");
        push_join_hex(out, &segs, best + best_len, 8);
    } else {
        push_join_hex(out, &segs, 0, 8);
    }
}

impl Ipv6Addr {
    /// The address in its shortest text form.
    pub fn to_string(&self) -> (r: String)
        ensures
            r@ == ipv6_text(self.octets@),
    {
        let mut out: Vec<char> = Vec::new();
        push_ipv6(&mut out, self);
        string_from_chars(&out)
    }
}

/// The decoded form `ip:port` of a field `hex_ip:hex_port`. The field is
/// split at its first colon; both halves must decode.
pub open spec fn decode_addr_spec(raw: Seq<char>, v6: bool) -> Option<Seq<char>> {
    match first_index(raw, ':') {
        None => None,
        Some(i) => {
            let ip_hex = raw.subrange(0, i);
            let port_hex = raw.subrange(i + 1, raw.len() as int);
            match hex_number(port_hex, 0xFFFF) {
                None => None,
                Some(port) => if v6 {
                    match dec_ipv6_spec(ip_hex) {
                        None => None,
                        Some(o) => Some(ipv6_text(o) + seq![':'] + decimal(port)),
                    }
                } else {
                    match dec_ipv4_spec(ip_hex) {
                        None => None,
                        Some(o) => Some(ipv4_text(o) + seq![':'] + decimal(port)),
                    }
                },
            }
        },
    }
}

pub fn decode_addr(raw: &str, v6: bool) -> (r: Option<String>)
    ensures
        match r {
            Some(t) => decode_addr_spec(raw@, v6) == Some(t@),
            None => decode_addr_spec(raw@, v6) is None,
        },
{
    let chars = str_chars(raw);
    decode_addr_chars(&chars, v6)
}

/// `decode_addr` on a field that is already split into characters.
pub fn decode_addr_chars(chars: &Vec<char>, v6: bool) -> (r: Option<String>)
    ensures
        match r {
            Some(t) => decode_addr_spec(chars@, v6) == Some(t@),
            None => decode_addr_spec(chars@, v6) is None,
        },
{
    let i = match find(chars, ':') {
        Some(i) => i,
        None => {
            return None;
        },
    };
    let ip_hex = slice(chars, 0, i);
    let port_hex = slice(chars, i + 1, chars.len());
    let port = match parse_hex(&port_hex, 0xFFFF) {
        Some(p) => p,
        None => {
            return None;
        },
    };
    let mut out: Vec<char> = Vec::new();
    if v6 {
        match dec_ipv6_chars(&ip_hex) {
            Some(a) => {
                push_ipv6(&mut out, &a);
            },
            None => {
                return None;
            },
        }
    } else {
        match dec_ipv4_chars(&ip_hex) {
            Some(a) => {
                push_ipv4(&mut out, a.octets[0], a.octets[1], a.octets[2], a.octets[3]);
            },
            None => {
                return None;
            },
        }
    }
    out.push(':');
    push_decimal(&mut out, port as u32);
    let text = string_from_chars(&out);
    Some(text)
}

/// The name of a TCP state code of `/proc/net/tcp`.
pub open spec fn tcp_state_name(code: Seq<char>) -> Seq<char> {
    if code == "01"@ {
        "ESTABLISHED"@
    } else if code == "02"@ {
        "SYN_SENT"@
    } else if code == "03"@ {
        "SYN_RECV"@
    } else if code == "04"@ {
        "FIN_WAIT1"@
    } else if code == "05"@ {
        "FIN_WAIT2"@
    } else if code == "06"@ {
        "TIME_WAIT"@
    } else if code == "07"@ {
        "CLOSE"@
    } else if code == "08"@ {
        "CLOSE_WAIT"@
    } else if code == "09"@ {
        "LAST_ACK"@
    } else if code == "0A"@ {
        "LISTEN"@
    } else if code == "0B"@ {
        "CLOSING"@
    } else {
        "UNKNOWN"@
    }
}

pub fn decode_tcp_state(s: &Option<String>) -> (r: Option<String>)
    ensures
        match *s {
            Some(code) => r matches Some(name) && name@ == tcp_state_name(code@),
            None => r is None,
        },
{
    match s {
        None => None,
        Some(code) => {
            let c = str_chars(code.as_str());
            Some(tcp_state_of(&c))
        },
    }
}

/// `decode_tcp_state` on a code that is present and split into characters.
pub fn tcp_state_of(c: &Vec<char>) -> (name: String)
    ensures
        name@ == tcp_state_name(c@),
{
    let name: &str = if eq_str(c, "01") {
        "ESTABLISHED"
    } else if eq_str(c, "02") {
        "SYN_SENT"
    } else if eq_str(c, "03") {
        "SYN_RECV"
    } else if eq_str(c, "04") {
        "FIN_WAIT1"
    } else if eq_str(c, "05") {
        "FIN_WAIT2"
    } else if eq_str(c, "06") {
        "TIME_WAIT"
    } else if eq_str(c, "07") {
        "CLOSE"
    } else if eq_str(c, "08") {
        "CLOSE_WAIT"
    } else if eq_str(c, "09") {
        "LAST_ACK"
    } else if eq_str(c, "0A") {
        "LISTEN"
    } else if eq_str(c, "0B") {
        "CLOSING"
    } else {
        "UNKNOWN"
    };
    name.to_owned()
}

pub open spec fn all_digits_or_dots(p: Seq<char>) -> bool {
    forall|i: int| 0 <= i < p.len() ==> is_digit(#[trigger] p[i]) || p[i] == '.'
}

pub open spec fn all_hex_or_colons(p: Seq<char>) -> bool {
    forall|i: int| 0 <= i < p.len() ==> is_hex(#[trigger] p[i]) || p[i] == ':'
}

/// The long form of a short watch pattern. With `p` for the pattern
/// without the white space around it, the first case that holds decides:
/// an empty `p` stays empty; a `p` that names a field (`raw:`, `dec:`,
/// `host:`, `state:`) or is a lone star stays as it is; a colon followed by
/// anything is a port; digits and dots with at least one dot are an IPv4
/// address; hexadecimal digits and colons with at least one colon are an
/// IPv6 address; `tcp` and `udp` in any case are a protocol; all else is a
/// host name.
pub open spec fn expand_pat_spec(pat: Seq<char>) -> Seq<char> {
    let p = trimmed(pat);
    if p.len() == 0 {
        Seq::empty()
    } else if has_sub(p, "raw:"@) || has_sub(p, "dec:"@) || has_sub(p, "host:"@) || has_sub(
        p,
        "state:"@,
    ) {
        p
    } else if p == "*"@ {
        p
    } else if p[0] == ':' && p.len() > 1 {
        "*dec:*"@ + p + "*"@
    } else if all_digits_or_dots(p) && has_char(p, '.') {
        "*dec:*"@ + p + ":*"@
    } else if has_char(p, ':') && all_hex_or_colons(p) {
        "*dec:*"@ + p + ":*"@
    } else if same_ignoring_case(p, "tcp"@) || same_ignoring_case(p, "udp"@) {
        p + "*"@
    } else {
        "*host:"@ + p + "*"@
    }
}

fn wrap(before: &str, p: &Vec<char>, after: &str) -> (r: String)
    ensures
        r@ == before@ + p@ + after@,
{
    let mut out: Vec<char> = Vec::new();
    append_str(&mut out, before);
    append(&mut out, p);
    append_str(&mut out, after);
    string_from_chars(&out)
}

fn digits_or_dots(p: &Vec<char>) -> (r: bool)
    ensures
        r == all_digits_or_dots(p@),
{
    let mut i: usize = 0;
    while i < p.len()
        invariant
            i <= p.len(),
            forall|k: int| 0 <= k < i ==> is_digit(#[trigger] p@[k]) || p@[k] == '.',
        decreases p.len() - i,
    {
        if !(is_ascii_digit(p[i]) || p[i] == '.') {
            return false;
        }
        i += 1;
    }
    true
}

fn hex_or_colons(p: &Vec<char>) -> (r: bool)
    ensures
        r == all_hex_or_colons(p@),
{
    let mut i: usize = 0;
    while i < p.len()
        invariant
            i <= p.len(),
            forall|k: int| 0 <= k < i ==> is_hex(#[trigger] p@[k]) || p@[k] == ':',
        decreases p.len() - i,
    {
        if !(hex_digit(p[i]).is_some() || p[i] == ':') {
            return false;
        }
        i += 1;
    }
    true
}

pub fn expand_pat(pat: &str) -> (r: String)
    ensures
        r@ == expand_pat_spec(pat@),
{
    let chars = str_chars(pat);
    let p = trim(&chars);
    if p.len() == 0 {
        return String::new();
    }
    if contains_str(&p, "raw:") || contains_str(&p, "dec:") || contains_str(&p, "host:")
        || contains_str(&p, "state:") {
        return string_from_chars(&p);
    }
    if eq_str(&p, "*") {
        return string_from_chars(&p);
    }
    if p[0] == ':' && p.len() > 1 {
        return wrap("*dec:*", &p, "*");
    }
    if digits_or_dots(&p) && find(&p, '.').is_some() {
        return wrap("*dec:*", &p, ":*");
    }
    if find(&p, ':').is_some() && hex_or_colons(&p) {
        return wrap("*dec:*", &p, ":*");
    }
    if eq_ignore_ascii_case(&p, "tcp") || eq_ignore_ascii_case(&p, "udp") {
        let mut out = p;
        append_str(&mut out, "*");
        return string_from_chars(&out);
    }
    wrap("*host:", &p, "*")
}

/// Every character is a digit, a dot, a colon or a star, and there is at
/// least one.
pub open spec fn is_ipish_spec(p: Seq<char>) -> bool {
    p.len() > 0 && forall|i: int|
        0 <= i < p.len() ==> is_ipish_char(#[trigger] p[i])
}

pub open spec fn is_ipish_char(c: char) -> bool {
    is_digit(c) || c == '.' || c == ':' || c == '*'
}

pub fn is_ipish(p: &str) -> (r: bool)
    ensures
        r == is_ipish_spec(p@),
{
    let chars = str_chars(p);
    is_ipish_chars(&chars)
}

fn is_ipish_chars(chars: &Vec<char>) -> (r: bool)
    ensures
        r == is_ipish_spec(chars@),
{
    if chars.len() == 0 {
        return false;
    }
    let mut i: usize = 0;
    while i < chars.len()
        invariant
            i <= chars.len(),
            forall|k: int| 0 <= k < i ==> is_ipish_char(#[trigger] chars@[k]),
        decreases chars.len() - i,
    {
        let c = chars[i];
        if !(is_ascii_digit(c) || c == '.' || c == ':' || c == '*') {
            return false;
        }
        i += 1;
    }
    true
}

pub open spec fn has_alpha(p: Seq<char>) -> bool {
    exists|i: int| 0 <= i < p.len() && is_alpha(#[trigger] p[i])
}

/// There is an ASCII letter, or there are both a star and a dot.
pub open spec fn is_hostish_spec(p: Seq<char>) -> bool {
    has_alpha(p) || (has_char(p, '*') && has_char(p, '.'))
}

pub fn is_hostish(p: &str) -> (r: bool)
    ensures
        r == is_hostish_spec(p@),
{
    let chars = str_chars(p);
    is_hostish_chars(&chars)
}

fn is_hostish_chars(chars: &Vec<char>) -> (r: bool)
    ensures
        r == is_hostish_spec(chars@),
{
    let mut i: usize = 0;
    while i < chars.len()
        invariant
            i <= chars.len(),
            forall|k: int| 0 <= k < i ==> !is_alpha(#[trigger] chars@[k]),
        decreases chars.len() - i,
    {
        if is_ascii_alphabetic(chars[i]) {
            return true;
        }
        i += 1;
    }
    find(chars, '*').is_some() && find(chars, '.').is_some()
}

} // verus!
