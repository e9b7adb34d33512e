//! XMount: watches the mount table.
//!
//! The sensor is handed the mount table at every tick; it compares the
//! watched mount points with what it saw last and says which events are
//! due. Reading the table from the operating system is left to the caller.

pub mod events;

use crate::names::{same_text, NameSet};
use crate::text::{
    append_str, decimal_number, eq_str, fields, from_utf8_lossy, is_ascii_digit, is_digit,
    lossy_text, parse_decimal, split_whitespace, str_chars, string_from_chars, texts,
};
use crate::xmount::events::{MountInfo, MountInfoView, XMountEvent, XMountEventView};
use vstd::prelude::*;

verus! {

/// The character with the given code, if there is one.
///
/// Trusted: `char::from_u32` gives the character for every Unicode scalar
/// value, that is for every number up to `0x10FFFF` outside the surrogate
/// range, and nothing for any other number.
#[verifier::external_body]
fn char_of(n: u32) -> (r: Option<char>)
    ensures
        r == if n < 0xD800 || (0xE000 <= n && n <= 0x10FFFF) {
            Some(n as char)
        } else {
            None::<char>
        },
{
    char::from_u32(n)
}

/// At `i` stands a backslash followed by three ASCII digits.
pub open spec fn is_octal_escape(s: Seq<char>, i: int) -> bool {
    0 <= i && i + 3 < s.len() && s[i] == '\\' && is_digit(s[i + 1]) && is_digit(s[i + 2])
        && is_digit(s[i + 3])
}

/// The number that the three digits after the backslash at `i` spell in base eight.
pub open spec fn escape_value(s: Seq<char>, i: int) -> int {
    (s[i + 1] as u32 - 0x30) * 64 + (s[i + 2] as u32 - 0x30) * 8 + (s[i + 3] as u32 - 0x30)
}

/// The characters from `i` on with every escape replaced by the character
/// it stands for. Every other character is copied.
pub open spec fn unescape_from(s: Seq<char>, i: int) -> Seq<char>
    decreases s.len() - i,
{
    if i < 0 || i >= s.len() {
        Seq::empty()
    } else if is_octal_escape(s, i) {
        seq![escape_value(s, i) as char] + unescape_from(s, i + 4)
    } else {
        seq![s[i]] + unescape_from(s, i + 1)
    }
}

/// A field of `mountinfo` with its octal escapes resolved: a backslash
/// followed by three ASCII digits stands for the character whose code the
/// digits spell in base eight; everything else stands for itself.
pub open spec fn unescaped(field: Seq<char>) -> Seq<char> {
    unescape_from(field, 0)
}

/// A field without a backslash comes back as it went in.
pub proof fn lemma_unescape_without_backslash(field: Seq<char>)
    requires
        forall|i: int| 0 <= i < field.len() ==> field[i] != '\\',
    ensures
        unescaped(field) == field,
{
    lemma_unescape_copies(field, 0);
}

proof fn lemma_unescape_copies(field: Seq<char>, from: int)
    requires
        0 <= from <= field.len(),
        forall|i: int| from <= i < field.len() ==> field[i] != '\\',
    ensures
        unescape_from(field, from) == field.skip(from),
    decreases field.len() - from,
{
    if from < field.len() {
        lemma_unescape_copies(field, from + 1);
        assert(field.skip(from) =~= seq![field[from]] + field.skip(from + 1));
    } else {
        assert(field.skip(from) =~= Seq::<char>::empty());
    }
}

/// The position of the first field at or after `from` that is a lone
/// dash; the number of fields if there is none.
pub open spec fn separator_from(f: Seq<Seq<char>>, from: int) -> int
    decreases f.len() - from,
{
    if from < 0 || from >= f.len() {
        f.len() as int
    } else if f[from] == "-"@ {
        from
    } else {
        separator_from(f, from + 1)
    }
}

/// The mount that a line of `mountinfo` describes. The line is split at
/// white space into: mount id, parent id, device numbers, root, mount
/// point, mount options, any number of optional fields, a lone dash, file
/// system type, source and, if present, super options. The ids are decimal
/// numbers of thirty-two bits. A line that lacks a field up to the source,
/// or whose ids are no numbers, describes no mount.
pub open spec fn parse_line_spec(line: Seq<char>) -> Option<MountInfoView> {
    let f = fields(line);
    if f.len() < 6 {
        None
    } else {
        let sep = separator_from(f, 6);
        match (decimal_number(f[0], 0xFFFF_FFFF), decimal_number(f[1], 0xFFFF_FFFF)) {
            (Some(id), Some(parent)) => if sep + 2 < f.len() {
                Some(
                    MountInfoView {
                        mount_id: id as u32,
                        parent_id: parent as u32,
                        mount_point: unescaped(f[4]),
                        root: unescaped(f[3]),
                        fstype: f[sep + 1],
                        source: unescaped(f[sep + 2]),
                        mount_opts: f[5],
                        super_opts: if sep + 3 < f.len() {
                            f[sep + 3]
                        } else {
                            Seq::empty()
                        },
                    },
                )
            } else {
                None
            },
            _ => None,
        }
    }
}

/// The mounts that the lines of a `mountinfo` text describe, in order.
pub open spec fn parse_lines_spec(lines: Seq<Seq<char>>) -> Seq<MountInfoView>
    decreases lines.len(),
{
    if lines.len() == 0 {
        Seq::empty()
    } else {
        let head = parse_lines_spec(lines.drop_last());
        match parse_line_spec(lines.last()) {
            Some(mi) => head.push(mi),
            None => head,
        }
    }
}

/// The views of a sequence of mount records.
pub open spec fn infos(v: Seq<MountInfo>) -> Seq<MountInfoView> {
    v.map_values(|m: MountInfo| m@)
}

/// The views of a sequence of events.
pub open spec fn event_views(v: Seq<XMountEvent>) -> Seq<XMountEventView> {
    v.map_values(|e: XMountEvent| e@)
}

/// The mount points of a table.
pub open spec fn points(t: Seq<MountInfoView>) -> Seq<Seq<char>> {
    t.map_values(|m: MountInfoView| m.mount_point)
}

/// The table with `e` in the place of the entry for its mount point, or at
/// the end if there was none.
pub open spec fn put_spec(t: Seq<MountInfoView>, e: MountInfoView) -> Seq<MountInfoView> {
    match points(t).index_of_first(e.mount_point) {
        Some(k) => t.update(k, e),
        None => t.push(e),
    }
}

/// The last record of each watched mount point of `all`, in the order in
/// which the mount points first occur.
pub open spec fn snapshot_spec(all: Seq<MountInfoView>, watched: Seq<Seq<char>>) -> Seq<
    MountInfoView,
>
    decreases all.len(),
{
    if all.len() == 0 {
        Seq::empty()
    } else {
        let t = snapshot_spec(all.drop_last(), watched);
        if watched.contains(all.last().mount_point) {
            put_spec(t, all.last())
        } else {
            t
        }
    }
}

/// Which fields of a mount record count when two records are compared.
#[derive(Clone, Copy, Debug, PartialEq, Eq)]
pub enum Platform {
    /// every field but the mount point
    Linux,
    /// file system type, source and mount options
    NetBsd,
}

/// Whether two records of one mount point differ in a field that counts.
pub open spec fn differs(p: Platform, a: MountInfoView, b: MountInfoView) -> bool {
    match p {
        Platform::Linux => a.mount_id != b.mount_id || a.parent_id != b.parent_id || a.root
            != b.root || a.fstype != b.fstype || a.source != b.source || a.mount_opts
            != b.mount_opts || a.super_opts != b.super_opts,
        Platform::NetBsd => a.fstype != b.fstype || a.source != b.source || a.mount_opts
            != b.mount_opts,
    }
}

/// The event that an entry of the current table calls for: `Mounted` if
/// the sensor is primed and had no entry for the mount point, `Changed`
/// if it had one that differs.
pub open spec fn rise_one(e: MountInfoView, last: Seq<MountInfoView>, primed: bool, p: Platform)
    -> Seq<XMountEventView> {
    match points(last).index_of_first(e.mount_point) {
        None => if primed {
            seq![XMountEventView::Mounted { target: e.mount_point, info: e }]
        } else {
            Seq::empty()
        },
        Some(k) => if differs(p, last[k], e) {
            seq![XMountEventView::Changed { target: e.mount_point, old: last[k], new: e }]
        } else {
            Seq::empty()
        },
    }
}

/// The `Mounted` and `Changed` events of a tick, in the order of the current table.
pub open spec fn rise(now: Seq<MountInfoView>, last: Seq<MountInfoView>, primed: bool, p: Platform)
    -> Seq<XMountEventView>
    decreases now.len(),
{
    if now.len() == 0 {
        Seq::empty()
    } else {
        rise(now.drop_last(), last, primed, p) + rise_one(now.last(), last, primed, p)
    }
}

/// The `Unmounted` events of a tick, in the order of the previous table.
pub open spec fn fall(last: Seq<MountInfoView>, now: Seq<MountInfoView>) -> Seq<XMountEventView>
    decreases last.len(),
{
    if last.len() == 0 {
        Seq::empty()
    } else {
        let e = last.last();
        fall(last.drop_last(), now) + if points(now).contains(e.mount_point) {
            Seq::empty()
        } else {
            seq![XMountEventView::Unmounted { target: e.mount_point, last: e }]
        }
    }
}

/// The events of a tick: what was mounted or changed, then what was unmounted.
pub open spec fn tick_events(
    now: Seq<MountInfoView>,
    last: Seq<MountInfoView>,
    primed: bool,
    p: Platform,
) -> Seq<XMountEventView> {
    rise(now, last, primed, p) + fall(last, now)
}

/// A sensor that is not primed and has seen nothing reports nothing,
/// whatever is mounted.
pub proof fn lemma_unprimed_tick_is_silent(now: Seq<MountInfoView>, p: Platform)
    ensures
        tick_events(now, Seq::empty(), false, p) == Seq::<XMountEventView>::empty(),
    decreases now.len(),
{
    let none = Seq::<MountInfoView>::empty();
    if now.len() > 0 {
        lemma_unprimed_tick_is_silent(now.drop_last(), p);
        points(none).index_of_first_ensures(now.last().mount_point);
    }
}

/// The mount options that a `statvfs` flag word stands for: `ro` or `rw`
/// first, then `noexec`, `nosuid` and `nodev` for the bits `0x02`, `0x08`
/// and `0x10`, with commas between them.
pub open spec fn mount_opts_text(flags: u64) -> Seq<char> {
    (if flags & 0x01 != 0 {
        "ro"@
    } else {
        "rw"@
    }) + (if flags & 0x02 != 0 {
        ",noexec"@
    } else {
        Seq::empty()
    }) + (if flags & 0x08 != 0 {
        ",nosuid"@
    } else {
        Seq::empty()
    }) + (if flags & 0x10 != 0 {
        ",nodev"@
    } else {
        Seq::empty()
    })
}

pub fn mount_flags_to_opts(flags: u64) -> (r: String)
    ensures
        r@ == mount_opts_text(flags),
{
    let mut out: Vec<char> = Vec::new();
    if flags & 0x01 != 0 {
        append_str(&mut out, "ro");
    } else {
        append_str(&mut out, "rw");
    }
    if flags & 0x02 != 0 {
        append_str(&mut out, ",noexec");
    }
    if flags & 0x08 != 0 {
        append_str(&mut out, ",nosuid");
    }
    if flags & 0x10 != 0 {
        append_str(&mut out, ",nodev");
    }
    string_from_chars(&out)
}

/// The bytes of a buffer up to its first zero byte, or all of them if it has none.
pub open spec fn c_string_bytes(buf: Seq<u8>) -> Seq<u8>
    decreases buf.len(),
{
    if buf.len() == 0 || buf[0] == 0 {
        Seq::empty()
    } else {
        seq![buf[0]] + c_string_bytes(buf.drop_first())
    }
}

/// The text of a zero-terminated buffer of fixed size.
pub fn c_char_array_to_string(buf: &[u8]) -> (r: String)
    ensures
        r@ == lossy_text(c_string_bytes(buf@)),
        vstd::utf8::valid_utf8(c_string_bytes(buf@)) ==> r@ == vstd::utf8::decode_utf8(
            c_string_bytes(buf@),
        ),
{
    let mut bytes: Vec<u8> = Vec::new();
    let mut i: usize = 0;
    assert(buf@.skip(0) =~= buf@);
    while i < buf.len() && buf[i] != 0
        invariant
            i <= buf.len(),
            bytes@ + c_string_bytes(buf@.skip(i as int)) == c_string_bytes(buf@),
        decreases buf.len() - i,
    {
        assert(buf@.skip(i as int).drop_first() =~= buf@.skip(i + 1));
        bytes.push(buf[i]);
        i += 1;
    }
    from_utf8_lossy(&bytes)
}

/// One entry of the mount list of NetBSD, as `getmntinfo` gives it.
pub struct StatVfs {
    /// the name of the file system type, zero-terminated
    pub fstypename: Vec<u8>,
    /// the directory on which the file system is mounted, zero-terminated
    pub mntonname: Vec<u8>,
    /// the mounted device or resource, zero-terminated
    pub mntfromname: Vec<u8>,
    /// the mount flags
    pub flag: u64,
}

/// The mount that an entry of the mount list of NetBSD describes. It has
/// no ids, its root is `/`, and it has no super options.
pub open spec fn statvfs_mount(sv: StatVfs) -> MountInfoView {
    MountInfoView {
        mount_id: 0,
        parent_id: 0,
        mount_point: lossy_text(c_string_bytes(sv.mntonname@)),
        root: "/"@,
        fstype: lossy_text(c_string_bytes(sv.fstypename@)),
        source: lossy_text(c_string_bytes(sv.mntfromname@)),
        mount_opts: mount_opts_text(sv.flag),
        super_opts: Seq::empty(),
    }
}

/// The mounts that the mount list of NetBSD describes, in order.
pub fn read_mounts(list: &Vec<StatVfs>) -> (r: Vec<MountInfo>)
    ensures
        r@.len() == list@.len(),
        forall|i: int| 0 <= i < list@.len() ==> (#[trigger] r@[i])@ == statvfs_mount(list@[i]),
{
    let mut out: Vec<MountInfo> = Vec::new();
    let mut i: usize = 0;
    while i < list.len()
        invariant
            i <= list.len(),
            out@.len() == i,
            forall|k: int| 0 <= k < i ==> (#[trigger] out@[k])@ == statvfs_mount(list@[k]),
        decreases list.len() - i,
    {
        let sv = &list[i];
        out.push(MountInfo {
            mount_id: 0,
            parent_id: 0,
            mount_point: c_char_array_to_string(sv.mntonname.as_slice()),
            root: "/".to_owned(),
            fstype: c_char_array_to_string(sv.fstypename.as_slice()),
            source: c_char_array_to_string(sv.mntfromname.as_slice()),
            mount_opts: mount_flags_to_opts(sv.flag),
            super_opts: String::new(),
        });
        i += 1;
    }
    out
}

/// The mounts under watch as they stood at the last tick: at most one
/// record for each mount point.
pub struct MountTable {
    entries: Vec<MountInfo>,
}

impl MountTable {
    #[verifier::type_invariant]
    spec fn distinct(&self) -> bool {
        points(infos(self.entries@)).no_duplicates()
    }

    /// The records, in the order in which their mount points were first put.
    pub closed spec fn view(&self) -> Seq<MountInfoView> {
        infos(self.entries@)
    }

    fn take_entries(&mut self) -> (entries: Vec<MountInfo>)
        ensures
            entries == old(self).entries,
            final(self).entries@ == Seq::<MountInfo>::empty(),
    {
        let mut entries: Vec<MountInfo> = Vec::new();
        core::mem::swap(&mut self.entries, &mut entries);
        entries
    }

    pub fn new() -> (r: Self)
        ensures
            r@ == Seq::<MountInfoView>::empty(),
    {
        MountTable { entries: Vec::new() }
    }

    pub fn len(&self) -> (n: usize)
        ensures
            n == self@.len(),
            points(self@).no_duplicates(),
    {
        proof {
            use_type_invariant(self);
        }
        self.entries.len()
    }

    pub fn get(&self, i: usize) -> (r: &MountInfo)
        requires
            i < self@.len(),
        ensures
            r@ == self@[i as int],
    {
        &self.entries[i]
    }

    /// The position of the record for `mount_point`.
    pub fn position(&self, mount_point: &str) -> (r: Option<usize>)
        ensures
            match r {
                Some(k) => k < self@.len() && points(self@).index_of_first(mount_point@) == Some(
                    k as int,
                ) && self@[k as int].mount_point == mount_point@,
                None => points(self@).index_of_first(mount_point@) is None && !points(
                    self@,
                ).contains(mount_point@),
            },
    {
        let ghost pts = points(infos(self.entries@));
        let mut i: usize = 0;
        while i < self.entries.len()
            invariant
                i <= self.entries.len(),
                pts == points(infos(self.entries@)),
                forall|k: int| 0 <= k < i ==> pts[k] != mount_point@,
            decreases self.entries.len() - i,
        {
            if same_text(self.entries[i].mount_point.as_str(), mount_point) {
                proof {
                    assert(pts[i as int] == mount_point@);
                    pts.index_of_first_ensures(mount_point@);
                }
                return Some(i);
            }
            i += 1;
        }
        proof {
            pts.index_of_first_ensures(mount_point@);
        }
        None
    }

    /// Puts `info` in the place of the record for its mount point, or at
    /// the end if there is none.
    pub fn put(&mut self, info: MountInfo)
        ensures
            final(self)@ == put_spec(old(self)@, info@),
    {
        proof {
            use_type_invariant(&*self);
        }
        let ghost before = infos(self.entries@);
        let ghost e = info@;
        let found = self.position(info.mount_point.as_str());
        let mut entries = self.take_entries();
        match found {
            Some(k) => {
                entries[k] = info;
                assert(points(infos(entries@)) =~= points(before));
            },
            None => {
                entries.push(info);
                assert(points(infos(entries@)) =~= points(before).push(e.mount_point));
            },
        }
        self.entries = entries;
    }
}

/// How often the mount table is read, and where it is read from.
pub struct XMountConfig {
    pulse: u64,
    mountinfo_path: String,
    platform: Platform,
}

impl Default for XMountConfig {
    /// One reading a second, from `/proc/self/mountinfo`, compared as on Linux.
    fn default() -> (r: Self)
        ensures
            r.pulse_ms() == 1000,
            r.path() == "/proc/self/mountinfo"@,
            r.on() == Platform::Linux,
    {
        XMountConfig {
            pulse: 1000,
            mountinfo_path: "/proc/self/mountinfo".to_owned(),
            platform: Platform::Linux,
        }
    }
}

impl XMountConfig {
    /// The time between two readings of the mount table, in milliseconds.
    pub closed spec fn pulse_ms(&self) -> u64 {
        self.pulse
    }

    pub closed spec fn path(&self) -> Seq<char> {
        self.mountinfo_path@
    }

    pub closed spec fn on(&self) -> Platform {
        self.platform
    }

    pub fn pulse(self, pulse_ms: u64) -> (r: Self)
        ensures
            r.pulse_ms() == pulse_ms,
            r.path() == self.path(),
            r.on() == self.on(),
    {
        let mut r = self;
        r.pulse = pulse_ms;
        r
    }

    pub fn mountinfo_path(self, p: &str) -> (r: Self)
        ensures
            r.path() == p@,
            r.pulse_ms() == self.pulse_ms(),
            r.on() == self.on(),
    {
        let mut r = self;
        r.mountinfo_path = p.to_owned();
        r
    }

    pub fn platform(self, platform: Platform) -> (r: Self)
        ensures
            r.on() == platform,
            r.pulse_ms() == self.pulse_ms(),
            r.path() == self.path(),
    {
        let mut r = self;
        r.platform = platform;
        r
    }

    pub fn get_pulse(&self) -> (ms: u64)
        ensures
            ms == self.pulse_ms(),
    {
        self.pulse
    }

    pub fn get_mountinfo_path(&self) -> (p: &String)
        ensures
            p@ == self.path(),
    {
        &self.mountinfo_path
    }

    pub fn get_platform(&self) -> (p: Platform)
        ensures
            p == self.on(),
    {
        self.platform
    }
}

/// The mount watcher.
pub struct XMount {
    watched: NameSet,
    config: XMountConfig,
    last: MountTable,
    is_primed: bool,
}

impl Default for XMount {
    /// A sensor with the default configuration that watches nothing.
    fn default() -> (r: Self)
        ensures
            r.watched() == Seq::<Seq<char>>::empty(),
            r.last() == Seq::<MountInfoView>::empty(),
            !r.primed(),
            r.config().pulse_ms() == 1000,
            r.config().path() == "/proc/self/mountinfo"@,
            r.config().on() == Platform::Linux,
    {
        XMount::new(XMountConfig::default())
    }
}

impl XMount {
    /// The watched mount points.
    pub closed spec fn watched(&self) -> Seq<Seq<char>> {
        self.watched@
    }

    /// The watched mounts as they stood at the last tick.
    pub closed spec fn last(&self) -> Seq<MountInfoView> {
        self.last@
    }

    pub closed spec fn primed(&self) -> bool {
        self.is_primed
    }

    pub closed spec fn config(&self) -> XMountConfig {
        self.config
    }

    pub fn new(config: XMountConfig) -> (r: Self)
        ensures
            r.watched() == Seq::<Seq<char>>::empty(),
            r.last() == Seq::<MountInfoView>::empty(),
            !r.primed(),
            r.config() == config,
    {
        XMount { watched: NameSet::new(), config, last: MountTable::new(), is_primed: false }
    }

    pub fn get_config(&self) -> (c: &XMountConfig)
        ensures
            *c == self.config(),
    {
        &self.config
    }

    /// Puts a mount point under watch. The caller resolves the path first
    /// where it can.
    pub fn add(&mut self, mountpoint: &str)
        ensures
            final(self).watched() == if old(self).watched().contains(mountpoint@) {
                old(self).watched()
            } else {
                old(self).watched().push(mountpoint@)
            },
            final(self).last() == old(self).last(),
            final(self).primed() == old(self).primed(),
            final(self).config() == old(self).config(),
    {
        self.watched.insert(mountpoint.to_owned());
    }

    /// Takes a mount point out of the watch.
    pub fn remove(&mut self, mountpoint: &str)
        ensures
            !final(self).watched().contains(mountpoint@),
            forall|n: Seq<char>|
                n != mountpoint@ ==> (final(self).watched().contains(n) <==> old(
                    self,
                ).watched().contains(n)),
            final(self).last() == old(self).last(),
            final(self).primed() == old(self).primed(),
            final(self).config() == old(self).config(),
    {
        self.watched.remove(mountpoint);
    }

    pub fn is_primed(&self) -> (r: bool)
        ensures
            r == self.primed(),
    {
        self.is_primed
    }

    /// Whether there is anything to watch. A sensor with nothing to watch
    /// ends before its first tick.
    pub fn has_work(&self) -> (r: bool)
        ensures
            r == (self.watched().len() > 0),
    {
        !self.watched.is_empty()
    }

    pub fn unescape_mount_field(s: &str) -> (r: String)
        ensures
            r@ == unescaped(s@),
    {
        let chars = str_chars(s);
        Self::unescape_chars(&chars)
    }

    pub fn parse_mountinfo_line(line: &str) -> (r: Option<MountInfo>)
        ensures
            match r {
                Some(mi) => parse_line_spec(line@) == Some(mi@),
                None => parse_line_spec(line@) is None,
            },
    {
        let chars = str_chars(line);
        Self::parse_line_chars(&chars)
    }

    fn unescape_chars(field: &Vec<char>) -> (r: String)
        ensures
            r@ == unescaped(field@),
    {
        let mut out: Vec<char> = Vec::new();
        let mut i: usize = 0;
        while i < field.len()
            invariant
                i <= field.len(),
                out@ + unescape_from(field@, i as int) == unescape_from(field@, 0),
            decreases field.len() - i,
        {
            if field[i] == '\\' && field.len() - i > 3 {
                let x = field[i + 1];
                let y = field[i + 2];
                let z = field[i + 3];
                if is_ascii_digit(x) && is_ascii_digit(y) && is_ascii_digit(z) {
                    let oct: u32 = (x as u32 - 0x30) * 64 + (y as u32 - 0x30) * 8 + (z as u32
                        - 0x30);
                    match char_of(oct) {
                        Some(ch) => {
                            out.push(ch);
                            i += 4;
                            continue ;
                        },
                        None => {},
                    }
                }
            }
            out.push(field[i]);
            i += 1;
        }
        string_from_chars(&out)
    }

    fn parse_line_chars(chars: &Vec<char>) -> (r: Option<MountInfo>)
        ensures
            match r {
                Some(mi) => parse_line_spec(chars@) == Some(mi@),
                None => parse_line_spec(chars@) is None,
            },
    {
        let f = split_whitespace(chars);
        let ghost fs = fields(chars@);
        if f.len() < 6 {
            return None;
        }
        let mount_id = match parse_decimal(&f[0], 0xFFFF_FFFF) {
            Some(v) => v as u32,
            None => {
                return None;
            },
        };
        let parent_id = match parse_decimal(&f[1], 0xFFFF_FFFF) {
            Some(v) => v as u32,
            None => {
                return None;
            },
        };
        let root = Self::unescape_chars(&f[3]);
        let mount_point = Self::unescape_chars(&f[4]);
        let mount_opts = string_from_chars(&f[5]);
        let mut sep: usize = 6;
        while sep < f.len() && !eq_str(&f[sep], "-")
            invariant
                6 <= sep <= f.len(),
                fs == texts(f@),
                separator_from(fs, 6) == separator_from(fs, sep as int),
            decreases f.len() - sep,
        {
            sep += 1;
        }
        if f.len() - sep <= 2 {
            return None;
        }
        let fstype = string_from_chars(&f[sep + 1]);
        let source = Self::unescape_chars(&f[sep + 2]);
        let super_opts = if f.len() - sep > 3 {
            string_from_chars(&f[sep + 3])
        } else {
            String::new()
        };
        Some(
            MountInfo {
                mount_id,
                parent_id,
                mount_point,
                root,
                fstype,
                source,
                mount_opts,
                super_opts,
            },
        )
    }

    /// The mounts that a `mountinfo` text describes. Lines that describe
    /// no mount are passed over.
    pub fn read_mountinfo(text: &str) -> (r: Vec<MountInfo>)
        ensures
            infos(r@) == parse_lines_spec(crate::text::lines_of(text@)),
    {
        let chars = str_chars(text);
        let ls = crate::text::lines(&chars);
        let ghost lv = crate::text::lines_of(text@);
        let mut out: Vec<MountInfo> = Vec::new();
        let mut i: usize = 0;
        while i < ls.len()
            invariant
                i <= ls.len(),
                lv == texts(ls@),
                infos(out@) == parse_lines_spec(lv.take(i as int)),
            decreases ls.len() - i,
        {
            assert(lv.take(i + 1).drop_last() =~= lv.take(i as int));
            match Self::parse_line_chars(&ls[i]) {
                Some(mi) => {
                    out.push(mi);
                },
                None => {},
            }
            i += 1;
        }
        assert(lv.take(ls.len() as int) =~= lv);
        out
    }

    /// The last record of each watched mount point of `all`.
    pub fn snapshot_for_watched(&self, all: &Vec<MountInfo>) -> (r: MountTable)
        ensures
            r@ == snapshot_spec(infos(all@), self.watched()),
    {
        let mut table = MountTable::new();
        let mut i: usize = 0;
        while i < all.len()
            invariant
                i <= all.len(),
                table@ == snapshot_spec(infos(all@).take(i as int), self.watched@),
            decreases all.len() - i,
        {
            assert(infos(all@).take(i + 1).drop_last() =~= infos(all@).take(i as int));
            if self.watched.contains(all[i].mount_point.as_str()) {
                table.put(all[i].copy());
            }
            i += 1;
        }
        assert(infos(all@).take(all.len() as int) =~= infos(all@));
        table
    }

    /// Whether two records of one mount point differ in a field that counts on Linux.
    pub fn materially_diff(a: &MountInfo, b: &MountInfo) -> (r: bool)
        ensures
            r == differs(Platform::Linux, a@, b@),
    {
        a.mount_id != b.mount_id || a.parent_id != b.parent_id || !(a.root == b.root) || !(a.fstype
            == b.fstype) || !(a.source == b.source) || !(a.mount_opts == b.mount_opts) || !(
        a.super_opts == b.super_opts)
    }

    /// Whether two records of one mount point differ in a field that counts on NetBSD.
    pub fn materially_diff_netbsd(a: &MountInfo, b: &MountInfo) -> (r: bool)
        ensures
            r == differs(Platform::NetBsd, a@, b@),
    {
        !(a.fstype == b.fstype) || !(a.source == b.source) || !(a.mount_opts == b.mount_opts)
    }

    fn differ_on(p: Platform, a: &MountInfo, b: &MountInfo) -> (r: bool)
        ensures
            r == differs(p, a@, b@),
    {
        match p {
            Platform::Linux => Self::materially_diff(a, b),
            Platform::NetBsd => Self::materially_diff_netbsd(a, b),
        }
    }

    /// Takes the first reading of the mount table as the baseline. No
    /// event is due for it.
    pub fn prime(&mut self, all: &Vec<MountInfo>)
        ensures
            final(self).last() == snapshot_spec(infos(all@), old(self).watched()),
            final(self).primed(),
            final(self).watched() == old(self).watched(),
            final(self).config() == old(self).config(),
    {
        let now = self.snapshot_for_watched(all);
        self.last = now;
        self.is_primed = true;
    }

    /// Takes the first reading of the mount table, or its failure
    /// (`None`). A reading becomes the baseline; after a failure the sensor
    /// is as it was and is to end. Says whether there was a reading.
    pub fn prime_with(&mut self, all: Option<&Vec<MountInfo>>) -> (ok: bool)
        ensures
            ok == all is Some,
            match all {
                Some(a) => final(self).last() == snapshot_spec(infos(a@), old(self).watched())
                    && final(self).primed(),
                None => final(self).last() == old(self).last() && final(self).primed() == old(
                    self,
                ).primed(),
            },
            final(self).watched() == old(self).watched(),
            final(self).config() == old(self).config(),
    {
        match all {
            Some(a) => {
                self.prime(a);
                true
            },
            None => false,
        }
    }

    /// Takes a later reading of the mount table, or its failure (`None`).
    /// A reading is compared with the last one as `tick` does; a failure
    /// passes the tick over: nothing is due and nothing changes.
    pub fn tick_with(&mut self, all: Option<&Vec<MountInfo>>) -> (events: Vec<XMountEvent>)
        ensures
            match all {
                Some(a) => event_views(events@) == tick_events(
                    snapshot_spec(infos(a@), old(self).watched()),
                    old(self).last(),
                    old(self).primed(),
                    old(self).config().on(),
                ) && final(self).last() == snapshot_spec(infos(a@), old(self).watched()),
                None => events@.len() == 0 && final(self).last() == old(self).last(),
            },
            final(self).primed() == old(self).primed(),
            final(self).watched() == old(self).watched(),
            final(self).config() == old(self).config(),
    {
        match all {
            Some(a) => self.tick(a),
            None => Vec::new(),
        }
    }

    /// Compares a reading of the mount table with the last one, says which
    /// events are due, and keeps the reading for the next tick.
    pub fn tick(&mut self, all: &Vec<MountInfo>) -> (events: Vec<XMountEvent>)
        ensures
            event_views(events@) == tick_events(
                snapshot_spec(infos(all@), old(self).watched()),
                old(self).last(),
                old(self).primed(),
                old(self).config().on(),
            ),
            final(self).last() == snapshot_spec(infos(all@), old(self).watched()),
            final(self).primed() == old(self).primed(),
            final(self).watched() == old(self).watched(),
            final(self).config() == old(self).config(),
    {
        let now = self.snapshot_for_watched(all);
        let platform = self.config.platform;
        let primed = self.is_primed;
        let mut events: Vec<XMountEvent> = Vec::new();
        let n = now.len();
        let mut i: usize = 0;
        while i < n
            invariant
                i <= n,
                n == now@.len(),
                event_views(events@) == rise(now@.take(i as int), self.last@, primed, platform),
            decreases n - i,
        {
            assert(now@.take(i + 1).drop_last() =~= now@.take(i as int));
            let e = now.get(i);
            match self.last.position(e.mount_point.as_str()) {
                None => {
                    if primed {
                        events.push(XMountEvent::Mounted {
                            target: e.mount_point.clone(),
                            info: e.copy(),
                        });
                    }
                },
                Some(k) => {
                    let old_info = self.last.get(k);
                    if Self::differ_on(platform, old_info, e) {
                        events.push(XMountEvent::Changed {
                            target: e.mount_point.clone(),
                            old: old_info.copy(),
                            new: e.copy(),
                        });
                    }
                },
            }
            i += 1;
        }
        assert(now@.take(n as int) =~= now@);
        let ghost risen = event_views(events@);
        let m = self.last.len();
        let mut j: usize = 0;
        while j < m
            invariant
                j <= m,
                m == self.last@.len(),
                event_views(events@) == risen + fall(self.last@.take(j as int), now@),
            decreases m - j,
        {
            let ghost fallen = fall(self.last@.take(j as int), now@);
            assert(self.last@.take(j + 1).drop_last() =~= self.last@.take(j as int));
            let e = self.last.get(j);
            match now.position(e.mount_point.as_str()) {
                None => {
                    let ev = XMountEvent::Unmounted {
                        target: e.mount_point.clone(),
                        last: e.copy(),
                    };
                    let ghost v = ev@;
                    events.push(ev);
                    assert((risen + fallen) + seq![v] =~= risen + (fallen + seq![v]));
                },
                Some(k) => {
                    assert(points(now@)[k as int] == e.mount_point@);
                },
            }
            j += 1;
        }
        assert(self.last@.take(m as int) =~= self.last@);
        self.last = now;
        events
    }
}

} // verus!
