//! Character sequences: conversions between strings and vectors of
//! characters, and the small text operations the decoders share.
//!
//! Every contract here is stated over `Seq<char>`, the view of a string.

use vstd::prelude::*;
use vstd::std_specs::iter::IteratorSpec;

verus! {

/// The characters of `s`, in order.
pub fn str_chars(s: &str) -> (v: Vec<char>)
    ensures
        v@ == s@,
{
    broadcast use vstd::string::group_string_axioms;

    let mut v: Vec<char> = Vec::new();
    let mut it = s.chars();
    loop
        invariant
            v@ + it.remaining() == s@,
            it.decrease() is Some,
        ensures
            v@ == s@,
        decreases it.decrease()->0,
    {
        match it.next() {
            Some(c) => {
                v.push(c);
            },
            None => {
                break ;
            },
        }
    }
    v
}

/// Appends one character to a string.
///
/// Trusted: `String::push` appends the given character to the end of the
/// string and changes nothing else.
#[verifier::external_body]
pub(crate) fn push_char(s: &mut String, c: char)
    ensures
        final(s)@ == old(s)@.push(c),
{
    s.push(c)
}

/// The text that `String::from_utf8_lossy` makes of `bytes`: their
/// decoding, with U+FFFD in the place of what is no UTF-8.
pub uninterp spec fn lossy_text(bytes: Seq<u8>) -> Seq<char>;

/// The text of `bytes`, whether they are UTF-8 or not.
///
/// Trusted: `String::from_utf8_lossy` reads the bytes and nothing else,
/// and gives valid UTF-8 back as the text that it encodes.
#[verifier::external_body]
pub(crate) fn from_utf8_lossy(bytes: &Vec<u8>) -> (s: String)
    ensures
        s@ == lossy_text(bytes@),
        vstd::utf8::valid_utf8(bytes@) ==> s@ == vstd::utf8::decode_utf8(bytes@),
{
    String::from_utf8_lossy(bytes).into_owned()
}

/// The string whose characters are those of `v`, in order.
pub fn string_from_chars(v: &Vec<char>) -> (s: String)
    ensures
        s@ == v@,
{
    let mut s = String::new();
    let mut i: usize = 0;
    while i < v.len()
        invariant
            i <= v.len(),
            s@ == v@.take(i as int),
        decreases v.len() - i,
    {
        push_char(&mut s, v[i]);
        i += 1;
    }
    s
}

/// Unicode `White_Space`.
pub open spec fn is_ws(c: char) -> bool {
    let n = c as u32;
    ||| 0x09 <= n <= 0x0D
    ||| n == 0x20
    ||| n == 0x85
    ||| n == 0xA0
    ||| n == 0x1680
    ||| 0x2000 <= n <= 0x200A
    ||| n == 0x2028
    ||| n == 0x2029
    ||| n == 0x202F
    ||| n == 0x205F
    ||| n == 0x3000
}

pub fn is_whitespace(c: char) -> (r: bool)
    ensures
        r == is_ws(c),
{
    let n: u32 = c as u32;
    (0x09 <= n && n <= 0x0D) || n == 0x20 || n == 0x85 || n == 0xA0 || n == 0x1680 || (0x2000 <= n
        && n <= 0x200A) || n == 0x2028 || n == 0x2029 || n == 0x202F || n == 0x205F || n == 0x3000
}

pub open spec fn is_digit(c: char) -> bool {
    '0' <= c <= '9'
}

pub fn is_ascii_digit(c: char) -> (r: bool)
    ensures
        r == is_digit(c),
{
    '0' <= c && c <= '9'
}

pub open spec fn is_alpha(c: char) -> bool {
    ('a' <= c <= 'z') || ('A' <= c <= 'Z')
}

pub fn is_ascii_alphabetic(c: char) -> (r: bool)
    ensures
        r == is_alpha(c),
{
    ('a' <= c && c <= 'z') || ('A' <= c && c <= 'Z')
}

/// The value of a hexadecimal digit, in either case.
pub open spec fn hex_digit_value(c: char) -> Option<nat> {
    if '0' <= c <= '9' {
        Some((c as u32 - '0' as u32) as nat)
    } else if 'a' <= c <= 'f' {
        Some((c as u32 - 'a' as u32 + 10) as nat)
    } else if 'A' <= c <= 'F' {
        Some((c as u32 - 'A' as u32 + 10) as nat)
    } else {
        None
    }
}

pub fn hex_digit(c: char) -> (r: Option<u8>)
    ensures
        r is Some <==> hex_digit_value(c) is Some,
        r matches Some(d) ==> hex_digit_value(c) == Some(d as nat) && d < 16,
{
    let n: u32 = c as u32;
    if '0' <= c && c <= '9' {
        Some((n - 0x30) as u8)
    } else if 'a' <= c && c <= 'f' {
        Some((n - 0x61 + 10) as u8)
    } else if 'A' <= c && c <= 'F' {
        Some((n - 0x41 + 10) as u8)
    } else {
        None
    }
}

pub open spec fn is_hex(c: char) -> bool {
    hex_digit_value(c) is Some
}

/// The characters of `v` from `from` up to but not including `to`.
pub fn slice(v: &Vec<char>, from: usize, to: usize) -> (r: Vec<char>)
    requires
        from <= to <= v.len(),
    ensures
        r@ == v@.subrange(from as int, to as int),
{
    let mut r: Vec<char> = Vec::new();
    let mut i: usize = from;
    while i < to
        invariant
            from <= i <= to <= v.len(),
            r@ == v@.subrange(from as int, i as int),
        decreases to - i,
    {
        r.push(v[i]);
        i += 1;
    }
    r
}

/// Appends the characters of `src` to `dst`.
pub fn append(dst: &mut Vec<char>, src: &Vec<char>)
    ensures
        final(dst)@ == old(dst)@ + src@,
{
    let mut i: usize = 0;
    while i < src.len()
        invariant
            i <= src.len(),
            dst@ == old(dst)@ + src@.take(i as int),
        decreases src.len() - i,
    {
        dst.push(src[i]);
        i += 1;
    }
}

/// Appends the characters of a string to `dst`.
pub fn append_str(dst: &mut Vec<char>, src: &str)
    ensures
        final(dst)@ == old(dst)@ + src@,
{
    let chars = str_chars(src);
    append(dst, &chars);
}

pub fn chars_eq(a: &Vec<char>, b: &Vec<char>) -> (r: bool)
    ensures
        r == (a@ == b@),
{
    if a.len() != b.len() {
        return false;
    }
    let mut i: usize = 0;
    while i < a.len()
        invariant
            i <= a.len(),
            a.len() == b.len(),
            a@.take(i as int) == b@.take(i as int),
        decreases a.len() - i,
    {
        if a[i] != b[i] {
            return false;
        }
        i += 1;
    }
    assert(a@.take(a.len() as int) == a@);
    assert(b@.take(b.len() as int) == b@);
    true
}

/// Whether `v` spells the string `lit`.
pub fn eq_str(v: &Vec<char>, lit: &str) -> (r: bool)
    ensures
        r == (v@ == lit@),
{
    let l = str_chars(lit);
    chars_eq(v, &l)
}

/// The lower-case form of an ASCII capital; any other character as it is.
pub open spec fn ascii_lower(c: char) -> char {
    if 'A' <= c <= 'Z' {
        (c as u32 + 32) as char
    } else {
        c
    }
}

/// Equal but for the case of ASCII letters.
pub open spec fn same_ignoring_case(a: Seq<char>, b: Seq<char>) -> bool {
    a.len() == b.len() && forall|i: int|
        0 <= i < a.len() ==> ascii_lower(#[trigger] a[i]) == ascii_lower(b[i])
}

fn to_ascii_lower(c: char) -> (r: char)
    ensures
        r == ascii_lower(c),
{
    if 'A' <= c && c <= 'Z' {
        ((c as u8) + 32) as char
    } else {
        c
    }
}

pub fn eq_ignore_ascii_case(a: &Vec<char>, lit: &str) -> (r: bool)
    ensures
        r == same_ignoring_case(a@, lit@),
{
    let b = str_chars(lit);
    if a.len() != b.len() {
        return false;
    }
    let mut i: usize = 0;
    while i < a.len()
        invariant
            i <= a.len(),
            a.len() == b.len(),
            b@ == lit@,
            forall|k: int| 0 <= k < i ==> ascii_lower(#[trigger] a@[k]) == ascii_lower(b@[k]),
        decreases a.len() - i,
    {
        if to_ascii_lower(a[i]) != to_ascii_lower(b[i]) {
            return false;
        }
        i += 1;
    }
    true
}

/// Whether `lit` occurs anywhere in `hay`.
pub fn contains_str(hay: &Vec<char>, lit: &str) -> (r: bool)
    ensures
        r == has_sub(hay@, lit@),
{
    let needle = str_chars(lit);
    contains(hay, &needle)
}

/// `needle` occurs in `hay` at position `at`.
pub open spec fn occurs_at(hay: Seq<char>, at: int, needle: Seq<char>) -> bool {
    0 <= at && at + needle.len() <= hay.len() && hay.subrange(at, at + needle.len()) == needle
}

pub fn matches_at(hay: &Vec<char>, at: usize, needle: &Vec<char>) -> (r: bool)
    ensures
        r == occurs_at(hay@, at as int, needle@),
{
    if at > hay.len() || needle.len() > hay.len() - at {
        return false;
    }
    let mut i: usize = 0;
    while i < needle.len()
        invariant
            i <= needle.len(),
            at + needle.len() <= hay.len(),
            hay@.subrange(at as int, at + i) == needle@.take(i as int),
        decreases needle.len() - i,
    {
        if hay[at + i] != needle[i] {
            return false;
        }
        i += 1;
    }
    assert(needle@.take(needle.len() as int) == needle@);
    true
}

pub open spec fn has_sub(hay: Seq<char>, needle: Seq<char>) -> bool {
    exists|at: int| occurs_at(hay, at, needle)
}

/// Whether `needle` occurs anywhere in `hay`.
pub fn contains(hay: &Vec<char>, needle: &Vec<char>) -> (r: bool)
    ensures
        r == has_sub(hay@, needle@),
{
    if needle.len() > hay.len() {
        return false;
    }
    let last: usize = hay.len() - needle.len();
    let mut at: usize = 0;
    loop
        invariant
            at <= last,
            last == hay.len() - needle.len(),
            forall|k: int| 0 <= k < at ==> !occurs_at(hay@, k, needle@),
        ensures
            forall|k: int| 0 <= k <= last ==> !occurs_at(hay@, k, needle@),
        decreases last - at,
    {
        if matches_at(hay, at, needle) {
            return true;
        }
        if at == last {
            break ;
        }
        at += 1;
    }
    false
}

pub open spec fn has_char(s: Seq<char>, c: char) -> bool {
    exists|i: int| 0 <= i < s.len() && s[i] == c
}

/// The position of the first `c` in `s` at or after `from`.
pub open spec fn first_index_from(s: Seq<char>, c: char, from: int) -> Option<int>
    decreases s.len() - from,
{
    if from < 0 || from >= s.len() {
        None
    } else if s[from] == c {
        Some(from)
    } else {
        first_index_from(s, c, from + 1)
    }
}

pub open spec fn first_index(s: Seq<char>, c: char) -> Option<int> {
    first_index_from(s, c, 0)
}

/// The position of the last `c` in `s` before `to`.
pub open spec fn last_index_before(s: Seq<char>, c: char, to: int) -> Option<int>
    decreases to,
{
    if to <= 0 || to > s.len() {
        None
    } else if s[to - 1] == c {
        Some(to - 1)
    } else {
        last_index_before(s, c, to - 1)
    }
}

pub open spec fn last_index(s: Seq<char>, c: char) -> Option<int> {
    last_index_before(s, c, s.len() as int)
}

pub fn find(s: &Vec<char>, c: char) -> (r: Option<usize>)
    ensures
        r is Some <==> has_char(s@, c),
        match r {
            Some(i) => i < s.len() && first_index(s@, c) == Some(i as int),
            None => first_index(s@, c) is None,
        },
{
    let mut i: usize = 0;
    while i < s.len()
        invariant
            i <= s.len(),
            first_index(s@, c) == first_index_from(s@, c, i as int),
            forall|k: int| 0 <= k < i ==> s@[k] != c,
        decreases s.len() - i,
    {
        if s[i] == c {
            return Some(i);
        }
        i += 1;
    }
    None
}

pub fn rfind(s: &Vec<char>, c: char) -> (r: Option<usize>)
    ensures
        r is Some <==> has_char(s@, c),
        match r {
            Some(i) => i < s.len() && last_index(s@, c) == Some(i as int),
            None => last_index(s@, c) is None,
        },
{
    let mut i: usize = s.len();
    while i > 0
        invariant
            i <= s.len(),
            last_index(s@, c) == last_index_before(s@, c, i as int),
            forall|k: int| i <= k < s.len() ==> s@[k] != c,
        decreases i,
    {
        if s[i - 1] == c {
            return Some(i - 1);
        }
        i -= 1;
    }
    None
}

/// The first position at or after `i` that holds no white space.
pub open spec fn skip_ws(s: Seq<char>, i: int) -> int
    decreases s.len() - i,
{
    if 0 <= i < s.len() && is_ws(s[i]) {
        skip_ws(s, i + 1)
    } else {
        i
    }
}

/// The end of the text that is left when trailing white space before `j` is dropped.
pub open spec fn skip_ws_back(s: Seq<char>, j: int) -> int
    decreases j,
{
    if 0 < j <= s.len() && is_ws(s[j - 1]) {
        skip_ws_back(s, j - 1)
    } else {
        j
    }
}

/// `s` without leading and trailing white space.
pub open spec fn trimmed(s: Seq<char>) -> Seq<char> {
    let a = skip_ws(s, 0);
    if a >= s.len() {
        Seq::empty()
    } else {
        s.subrange(a, skip_ws_back(s, s.len() as int))
    }
}

pub fn trim(s: &Vec<char>) -> (r: Vec<char>)
    ensures
        r@ == trimmed(s@),
{
    let mut a: usize = 0;
    while a < s.len() && is_whitespace(s[a])
        invariant
            a <= s.len(),
            skip_ws(s@, 0) == skip_ws(s@, a as int),
        decreases s.len() - a,
    {
        a += 1;
    }
    if a >= s.len() {
        return Vec::new();
    }
    let mut b: usize = s.len();
    while b > a + 1 && is_whitespace(s[b - 1])
        invariant
            a < b <= s.len(),
            !is_ws(s@[a as int]),
            skip_ws_back(s@, s.len() as int) == skip_ws_back(s@, b as int),
        decreases b,
    {
        b -= 1;
    }
    slice(s, a, b)
}

/// The character sequences that a vector of character vectors holds.
pub open spec fn texts(v: Seq<Vec<char>>) -> Seq<Seq<char>> {
    v.map_values(|w: Vec<char>| w@)
}

/// The white-space separated words of `s` from position `i` on, where
/// `start` is the position at which a word that is already under way began.
pub open spec fn fields_from(s: Seq<char>, i: int, start: Option<int>) -> Seq<Seq<char>>
    decreases s.len() - i,
{
    if i < 0 || i >= s.len() {
        match start {
            Some(a) => seq![s.subrange(a, s.len() as int)],
            None => Seq::empty(),
        }
    } else if is_ws(s[i]) {
        match start {
            Some(a) => seq![s.subrange(a, i)] + fields_from(s, i + 1, None),
            None => fields_from(s, i + 1, None),
        }
    } else {
        match start {
            Some(a) => fields_from(s, i + 1, start),
            None => fields_from(s, i + 1, Some(i)),
        }
    }
}

/// The maximal runs of characters of `s` that hold no white space, in order.
pub open spec fn fields(s: Seq<char>) -> Seq<Seq<char>> {
    fields_from(s, 0, None)
}

pub fn split_whitespace(s: &Vec<char>) -> (r: Vec<Vec<char>>)
    ensures
        texts(r@) == fields(s@),
{
    let mut out: Vec<Vec<char>> = Vec::new();
    let mut start: Option<usize> = None;
    let mut i: usize = 0;
    while i < s.len()
        invariant
            i <= s.len(),
            start matches Some(a) ==> a < i,
            texts(out@) + fields_from(
                s@,
                i as int,
                match start {
                    Some(a) => Some(a as int),
                    None => None,
                },
            ) == fields(s@),
        decreases s.len() - i,
    {
        if is_whitespace(s[i]) {
            match start {
                Some(a) => {
                    out.push(slice(s, a, i));
                },
                None => {},
            }
            start = None;
        } else {
            match start {
                Some(a) => {},
                None => {
                    start = Some(i);
                },
            }
        }
        i += 1;
    }
    match start {
        Some(a) => {
            out.push(slice(s, a, s.len()));
        },
        None => {},
    }
    out
}

/// A line without the carriage return that may end it.
pub open spec fn strip_cr(line: Seq<char>) -> Seq<char> {
    if line.len() > 0 && line.last() == '\r' {
        line.drop_last()
    } else {
        line
    }
}

/// The lines of `s` from position `i` on, where the line under way began at `start`.
pub open spec fn lines_from(s: Seq<char>, i: int, start: int) -> Seq<Seq<char>>
    decreases s.len() - i,
{
    if i < 0 || i >= s.len() {
        if start < s.len() {
            seq![s.subrange(start, s.len() as int)]
        } else {
            Seq::empty()
        }
    } else if s[i] == '\n' {
        seq![strip_cr(s.subrange(start, i))] + lines_from(s, i + 1, i + 1)
    } else {
        lines_from(s, i + 1, start)
    }
}

/// The lines of `s`: the text between line feeds, each without the line
/// feed and without a carriage return just before it. A last line that no
/// line feed ends is kept as it is, unless it is empty.
pub open spec fn lines_of(s: Seq<char>) -> Seq<Seq<char>> {
    lines_from(s, 0, 0)
}

pub fn lines(s: &Vec<char>) -> (r: Vec<Vec<char>>)
    ensures
        texts(r@) == lines_of(s@),
{
    let mut out: Vec<Vec<char>> = Vec::new();
    let mut start: usize = 0;
    let mut i: usize = 0;
    while i < s.len()
        invariant
            start <= i <= s.len(),
            texts(out@) + lines_from(s@, i as int, start as int) == lines_of(s@),
        decreases s.len() - i,
    {
        if s[i] == '\n' {
            let end: usize = if i > start && s[i - 1] == '\r' {
                i - 1
            } else {
                i
            };
            let w = slice(s, start, end);
            assert(w@ == strip_cr(s@.subrange(start as int, i as int)));
            out.push(w);
            start = i + 1;
        }
        i += 1;
    }
    if start < s.len() {
        out.push(slice(s, start, s.len()));
    }
    out
}

/// The digit character for `d` below sixteen, in lower case.
pub open spec fn digit_char(d: nat) -> char {
    if d < 10 {
        (0x30 + d) as char
    } else {
        (0x61 + d - 10) as char
    }
}

/// `n` in decimal, with the fewest digits.
pub open spec fn decimal(n: nat) -> Seq<char>
    decreases n,
{
    if n < 10 {
        seq![digit_char(n)]
    } else {
        decimal(n / 10).push(digit_char(n % 10))
    }
}

/// `n` in hexadecimal, in lower case, with the fewest digits.
pub open spec fn lower_hex(n: nat) -> Seq<char>
    decreases n,
{
    if n < 16 {
        seq![digit_char(n)]
    } else {
        lower_hex(n / 16).push(digit_char(n % 16))
    }
}

fn digit(d: u32) -> (c: char)
    requires
        d < 16,
    ensures
        c == digit_char(d as nat),
{
    if d < 10 {
        (0x30 + d as u8) as char
    } else {
        (0x61 + (d - 10) as u8) as char
    }
}

/// Appends `n` in decimal to `out`.
pub fn push_decimal(out: &mut Vec<char>, n: u32)
    ensures
        final(out)@ == old(out)@ + decimal(n as nat),
    decreases n,
{
    if n >= 10 {
        push_decimal(out, n / 10);
    }
    out.push(digit(n % 10));
}

/// Appends `n` in lower-case hexadecimal to `out`.
pub fn push_lower_hex(out: &mut Vec<char>, n: u32)
    ensures
        final(out)@ == old(out)@ + lower_hex(n as nat),
    decreases n,
{
    if n >= 16 {
        push_lower_hex(out, n / 16);
    }
    out.push(digit(n % 16));
}

/// The value of `c` as a digit in `base`, which is at most sixteen.
pub open spec fn digit_value(c: char, base: nat) -> Option<nat> {
    match hex_digit_value(c) {
        Some(d) => if d < base {
            Some(d)
        } else {
            None
        },
        None => None,
    }
}

pub open spec fn is_digit_in(c: char, base: nat) -> bool {
    digit_value(c, base) is Some
}

pub open spec fn all_digits(s: Seq<char>, base: nat) -> bool {
    forall|i: int| 0 <= i < s.len() ==> is_digit_in(#[trigger] s[i], base)
}

/// The number that the digits of `s` spell in `base`.
pub open spec fn value_of(s: Seq<char>, base: nat) -> nat
    decreases s.len(),
{
    if s.len() == 0 {
        0
    } else {
        base * value_of(s.drop_last(), base) + match digit_value(s.last(), base) {
            Some(d) => d,
            None => 0,
        }
    }
}

/// What is left of `s` after one leading plus sign, if there is one.
pub open spec fn unsigned_digits(s: Seq<char>) -> Seq<char> {
    if s.len() > 0 && s[0] == '+' {
        s.drop_first()
    } else {
        s
    }
}

/// The number that `s` spells in `base`: an optional plus sign, then one
/// or more digits (letters in either case), whose value is at most `max`.
/// Anything else spells no number.
pub open spec fn number(s: Seq<char>, base: nat, max: nat) -> Option<nat> {
    let d = unsigned_digits(s);
    if d.len() > 0 && all_digits(d, base) && value_of(d, base) <= max {
        Some(value_of(d, base))
    } else {
        None
    }
}

pub open spec fn hex_number(s: Seq<char>, max: nat) -> Option<nat> {
    number(s, 16, max)
}

pub open spec fn decimal_number(s: Seq<char>, max: nat) -> Option<nat> {
    number(s, 10, max)
}

proof fn lemma_value_of_prefix(s: Seq<char>, base: nat, i: int)
    requires
        0 <= i <= s.len(),
        base >= 1,
    ensures
        value_of(s.take(i), base) <= value_of(s, base),
    decreases s.len() - i,
{
    if i < s.len() {
        lemma_value_of_prefix(s, base, i + 1);
        assert(s.take(i + 1).drop_last() == s.take(i));
        let v = value_of(s.take(i), base);
        assert(base * v >= v) by (nonlinear_arith)
            requires
                base >= 1,
                v >= 0,
        ;
    } else {
        assert(s.take(i) == s);
    }
}

/// Reads a number in base ten or sixteen.
pub fn parse_number(s: &Vec<char>, base: u64, max: u64) -> (r: Option<u64>)
    requires
        base == 10 || base == 16,
    ensures
        match r {
            Some(v) => number(s@, base as nat, max as nat) == Some(v as nat),
            None => number(s@, base as nat, max as nat) is None,
        },
{
    let first: usize = if s.len() > 0 && s[0] == '+' {
        1
    } else {
        0
    };
    let ghost d = unsigned_digits(s@);
    let ghost b = base as nat;
    if first >= s.len() {
        return None;
    }
    let mut acc: u64 = 0;
    let mut i: usize = first;
    while i < s.len()
        invariant
            first <= i <= s.len(),
            base == 10 || base == 16,
            b == base,
            d == unsigned_digits(s@),
            d == s@.subrange(first as int, s.len() as int),
            all_digits(d.take(i - first), b),
            acc as nat == value_of(d.take(i - first), b),
            acc <= max,
        decreases s.len() - i,
    {
        let ghost k = i - first;
        assert(d.take(k + 1).drop_last() == d.take(k));
        let dv: u64 = match hex_digit(s[i]) {
            Some(dv) => dv as u64,
            None => base,
        };
        if dv >= base {
            assert(!is_digit_in(d[k], b));
            return None;
        }
        assert(base * acc <= 16 * acc) by (nonlinear_arith)
            requires
                base <= 16,
                acc >= 0,
        ;
        let wide: u128 = (base as u128) * (acc as u128) + (dv as u128);
        if wide > max as u128 {
            proof {
                lemma_value_of_prefix(d, b, k + 1);
            }
            return None;
        }
        acc = wide as u64;
        i += 1;
    }
    assert(d.take(s.len() - first) == d);
    Some(acc)
}

pub fn parse_hex(s: &Vec<char>, max: u64) -> (r: Option<u64>)
    ensures
        match r {
            Some(v) => hex_number(s@, max as nat) == Some(v as nat),
            None => hex_number(s@, max as nat) is None,
        },
{
    parse_number(s, 16, max)
}

pub fn parse_decimal(s: &Vec<char>, max: u64) -> (r: Option<u64>)
    ensures
        match r {
            Some(v) => decimal_number(s@, max as nat) == Some(v as nat),
            None => decimal_number(s@, max as nat) is None,
        },
{
    parse_number(s, 10, max)
}

} // verus!
