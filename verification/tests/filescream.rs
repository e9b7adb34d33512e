use omnitrace::filescream::events::{EventMask, FileScreamEvent};
use omnitrace::filescream::ignore::IgnoreMatcher;
use omnitrace::filescream::scan::{fingerprint, Meta, Visit};
use omnitrace::filescream::{FileScream, FileScriptConfig};
use omnitrace::names::NameSet;
use std::collections::BTreeMap;

/// A file system in memory, which notes what it is asked.
struct FakeFs {
    nodes: BTreeMap<String, Meta>,
    asked: Vec<String>,
}

impl FakeFs {
    fn new() -> Self {
        FakeFs { nodes: BTreeMap::new(), asked: Vec::new() }
    }

    fn dir(&mut self, path: &str, mtime_ns: u128) {
        self.nodes.insert(path.to_string(), Meta::Dir { mtime_ns });
    }

    fn file(&mut self, path: &str, len: u64, mtime_ns: u128) {
        self.nodes.insert(path.to_string(), Meta::File { len, mtime_ns });
    }

    fn other(&mut self, path: &str) {
        self.nodes.insert(path.to_string(), Meta::Other);
    }

    fn remove(&mut self, path: &str) {
        self.nodes.remove(path);
    }

    fn stat(&mut self, path: &str) -> Meta {
        self.asked.push(format!("stat {path}"));
        match self.nodes.get(path) {
            Some(m) => *m,
            None => Meta::Missing,
        }
    }

    fn list(&mut self, path: &str) -> Vec<String> {
        self.asked.push(format!("list {path}"));
        let prefix = format!("{path}/");
        self.nodes
            .keys()
            .filter(|k| k.starts_with(&prefix) && !k[prefix.len()..].contains('/'))
            .cloned()
            .collect()
    }
}

fn scan(fs: &mut FileScream, disk: &mut FakeFs) -> Vec<FileScreamEvent> {
    let mut events = scan_in_order(fs, disk);
    events.sort_by_key(|e| format!("{e:?}"));
    events
}

fn scan_in_order(fs: &mut FileScream, disk: &mut FakeFs) -> Vec<FileScreamEvent> {
    disk.asked.clear();
    let mut scan = fs.begin_scan();
    while let Some(path) = scan.next() {
        let meta = disk.stat(&path);
        match scan.visit(&path, meta, fs.ignore_matcher(), fs.last_files()) {
            Visit::Descend => {
                let entries = disk.list(&path);
                scan.children(entries);
            }
            Visit::Skip => {}
        }
    }
    fs.finish_scan(scan)
}

fn created(path: &str) -> FileScreamEvent {
    FileScreamEvent::Created { path: path.to_string() }
}

fn changed(path: &str) -> FileScreamEvent {
    FileScreamEvent::Changed { path: path.to_string() }
}

fn removed(path: &str) -> FileScreamEvent {
    FileScreamEvent::Removed { path: path.to_string() }
}

fn tree() -> FakeFs {
    let mut disk = FakeFs::new();
    disk.dir("/w", 1);
    disk.file("/w/a.txt", 10, 100);
    disk.dir("/w/sub", 2);
    disk.file("/w/sub/b.txt", 20, 200);
    disk.dir("/w/sub/deep", 3);
    disk.file("/w/sub/deep/c.txt", 30, 300);
    disk
}

#[test]
fn the_first_scan_is_the_baseline() {
    let mut fs = FileScream::new(None);
    fs.watch("/w");
    let mut disk = tree();
    assert!(!fs.is_primed());
    assert_eq!(scan(&mut fs, &mut disk), vec![]);
    assert!(fs.is_primed());
}

#[test]
fn a_steady_tree_is_silent() {
    let mut fs = FileScream::new(None);
    fs.watch("/w");
    let mut disk = tree();
    scan(&mut fs, &mut disk);
    assert_eq!(scan(&mut fs, &mut disk), vec![]);
    assert_eq!(scan(&mut fs, &mut disk), vec![]);
}

#[test]
fn created_changed_removed() {
    let mut fs = FileScream::new(None);
    fs.watch("/w");
    let mut disk = tree();
    scan(&mut fs, &mut disk);

    disk.file("/w/f", 1, 1000);
    disk.dir("/w", 2);
    assert_eq!(scan(&mut fs, &mut disk), vec![created("/w/f")]);

    // a change of the length
    disk.file("/w/f", 2, 1000);
    assert_eq!(scan(&mut fs, &mut disk), vec![changed("/w/f")]);
    // a change of the time
    disk.file("/w/f", 2, 1001);
    assert_eq!(scan(&mut fs, &mut disk), vec![changed("/w/f")]);

    disk.remove("/w/f");
    disk.dir("/w", 3);
    assert_eq!(scan(&mut fs, &mut disk), vec![removed("/w/f")]);
    assert_eq!(scan(&mut fs, &mut disk), vec![]);
}

#[test]
fn several_changes_in_one_tick() {
    let mut fs = FileScream::new(None);
    fs.watch("/w");
    let mut disk = tree();
    scan(&mut fs, &mut disk);
    disk.remove("/w/a.txt");
    disk.file("/w/new", 1, 1);
    disk.file("/w/sub/b.txt", 21, 200);
    disk.dir("/w/sub", 9);
    assert_eq!(
        scan(&mut fs, &mut disk),
        vec![changed("/w/sub/b.txt"), created("/w/new"), removed("/w/a.txt")]
    );
}

#[test]
fn events_come_created_then_changed_then_removed() {
    let mut fs = FileScream::new(None);
    fs.watch("/w");
    let mut disk = FakeFs::new();
    disk.dir("/w", 1);
    for i in 0..20 {
        disk.file(&format!("/w/keep{i}"), 1, 1);
        disk.file(&format!("/w/gone{i}"), 1, 1);
    }
    scan(&mut fs, &mut disk);
    for i in 0..20 {
        disk.file(&format!("/w/keep{i}"), 2, 2);
        disk.remove(&format!("/w/gone{i}"));
        disk.file(&format!("/w/new{i}"), 1, 1);
    }
    let events = scan_in_order(&mut fs, &mut disk);
    assert_eq!(events.len(), 60);
    assert!(events[..20].iter().all(|e| matches!(e, FileScreamEvent::Created { .. })));
    assert!(events[20..40].iter().all(|e| matches!(e, FileScreamEvent::Changed { .. })));
    assert!(events[40..].iter().all(|e| matches!(e, FileScreamEvent::Removed { .. })));
}

#[test]
fn an_unchanged_directory_is_not_read() {
    let mut fs = FileScream::new(None);
    fs.watch("/w");
    let mut disk = tree();
    scan(&mut fs, &mut disk);
    // the second scan reads the root, and not what lies below /w/sub
    assert_eq!(scan(&mut fs, &mut disk), vec![]);
    assert!(disk.asked.contains(&"list /w".to_string()));
    assert!(disk.asked.contains(&"stat /w/sub".to_string()));
    assert!(!disk.asked.contains(&"list /w/sub".to_string()));
    assert!(!disk.asked.iter().any(|a| a.contains("/w/sub/")));
}

#[test]
fn a_change_below_an_unchanged_directory_goes_unseen() {
    let mut fs = FileScream::new(None);
    fs.watch("/w");
    let mut disk = tree();
    scan(&mut fs, &mut disk);
    // the file changes, the stamp of its directory does not
    disk.file("/w/sub/b.txt", 99, 999);
    assert_eq!(scan(&mut fs, &mut disk), vec![]);
    // once the stamp moves, the change is seen
    disk.dir("/w/sub", 5);
    assert_eq!(scan(&mut fs, &mut disk), vec![changed("/w/sub/b.txt")]);
}

#[test]
fn a_root_is_read_whatever_its_stamp() {
    let mut fs = FileScream::new(None);
    fs.watch("/w");
    let mut disk = tree();
    scan(&mut fs, &mut disk);
    // the stamp of the root stays, and still the new file is found
    disk.file("/w/late", 1, 1);
    assert_eq!(scan(&mut fs, &mut disk), vec![created("/w/late")]);
    assert!(disk.asked.contains(&"list /w".to_string()));
}

#[test]
fn a_sibling_with_a_longer_name_is_not_under_the_directory() {
    let mut fs = FileScream::new(None);
    fs.watch("/w");
    let mut disk = FakeFs::new();
    disk.dir("/w", 1);
    disk.dir("/w/sub", 2);
    disk.file("/w/sub/x", 1, 1);
    disk.dir("/w/subway", 3);
    disk.file("/w/subway/y", 1, 1);
    scan(&mut fs, &mut disk);
    // /w/subway changes and loses its file; /w/sub is unchanged
    disk.remove("/w/subway/y");
    disk.dir("/w/subway", 4);
    assert_eq!(scan(&mut fs, &mut disk), vec![removed("/w/subway/y")]);
}

#[test]
fn what_is_no_file_is_passed_over() {
    let mut fs = FileScream::new(None);
    fs.watch("/w");
    let mut disk = tree();
    scan(&mut fs, &mut disk);
    disk.other("/w/socket");
    disk.dir("/w", 7);
    assert_eq!(scan(&mut fs, &mut disk), vec![]);
}

#[test]
fn a_root_that_is_missing_has_no_files() {
    let mut fs = FileScream::new(None);
    fs.watch("/gone");
    fs.watch("/w");
    let mut disk = tree();
    assert_eq!(scan(&mut fs, &mut disk), vec![]);
    assert!(disk.asked.contains(&"stat /gone".to_string()));
    assert!(!disk.asked.contains(&"list /gone".to_string()));
    disk.dir("/gone", 1);
    disk.file("/gone/x", 1, 1);
    assert_eq!(scan(&mut fs, &mut disk), vec![created("/gone/x")]);
    disk.remove("/gone");
    disk.remove("/gone/x");
    assert_eq!(scan(&mut fs, &mut disk), vec![removed("/gone/x")]);
}

#[test]
fn unwatching_a_root_removes_its_files() {
    let mut fs = FileScream::new(None);
    fs.watch("/w");
    fs.watch("/w");
    let mut disk = tree();
    scan(&mut fs, &mut disk);
    fs.unwatch("/w");
    assert_eq!(
        scan(&mut fs, &mut disk),
        vec![removed("/w/a.txt"), removed("/w/sub/b.txt"), removed("/w/sub/deep/c.txt")]
    );
    assert!(disk.asked.is_empty());
}

#[test]
fn a_directory_pattern_prunes_directories_only() {
    let mut fs = FileScream::new(None);
    fs.watch("/w");
    fs.ignore("in*r/");
    let mut disk = FakeFs::new();
    disk.dir("/w", 1);
    disk.dir("/w/inner", 2);
    disk.file("/w/inner/foo.txt", 1, 1);
    disk.file("/w/inner.txt", 1, 1);
    disk.file("/w/inker", 1, 1);
    scan(&mut fs, &mut disk);
    // the directory is examined but never listed
    assert!(disk.asked.contains(&"stat /w/inner".to_string()));
    assert!(!disk.asked.contains(&"list /w/inner".to_string()));
    assert!(!disk.asked.iter().any(|a| a.contains("/w/inner/")));

    // files that match the pattern are still reported
    disk.file("/w/inker", 2, 2);
    disk.file("/w/inner/foo.txt", 2, 2);
    disk.dir("/w/inner", 3);
    assert_eq!(scan(&mut fs, &mut disk), vec![changed("/w/inker")]);
}

#[test]
fn without_patterns_nothing_is_passed_over() {
    let mut fs = FileScream::new(None);
    fs.watch("/w");
    let mut disk = tree();
    scan(&mut fs, &mut disk);
    disk.file("/w/sub/deep/new", 1, 1);
    disk.dir("/w/sub", 9);
    disk.dir("/w/sub/deep", 9);
    assert_eq!(scan(&mut fs, &mut disk), vec![created("/w/sub/deep/new")]);
    // only patterns for directories: files are still recorded
    fs.ignore("deep/");
    fs.ignore("new/");
    disk.file("/w/new", 1, 1);
    disk.dir("/w", 9);
    disk.dir("/w/sub", 10);
    assert_eq!(
        scan(&mut fs, &mut disk),
        vec![created("/w/new"), removed("/w/sub/deep/c.txt"), removed("/w/sub/deep/new")]
    );
}

#[test]
fn a_pattern_for_any_path_prunes_files_and_directories() {
    let mut fs = FileScream::new(None);
    fs.watch("/w");
    fs.ignore("*.tmp");
    fs.ignore("cache");
    let mut disk = FakeFs::new();
    disk.dir("/w", 1);
    disk.file("/w/a.tmp", 1, 1);
    disk.file("/w/a.txt", 1, 1);
    disk.dir("/w/cache", 1);
    disk.file("/w/cache/x", 1, 1);
    scan(&mut fs, &mut disk);
    assert!(!disk.asked.contains(&"list /w/cache".to_string()));
    disk.file("/w/a.tmp", 2, 2);
    disk.file("/w/a.txt", 2, 2);
    disk.file("/w/b.tmp", 1, 1);
    disk.file("/w/cache/x", 2, 2);
    disk.dir("/w/cache", 2);
    disk.dir("/w", 2);
    assert_eq!(scan(&mut fs, &mut disk), vec![changed("/w/a.txt")]);

    // once the pattern is taken back the files are found
    fs.unignore("*.tmp");
    assert_eq!(scan(&mut fs, &mut disk), vec![created("/w/a.tmp"), created("/w/b.tmp")]);
}

#[test]
fn ignore_patterns_are_anchored_or_match_anywhere() {
    let mut patterns = NameSet::new();
    patterns.insert("/abs/dir".to_string());
    patterns.insert("name".to_string());
    patterns.insert("only/".to_string());
    patterns.insert("/rooted///".to_string());
    patterns.insert("bad[".to_string());
    let m = IgnoreMatcher::compile_ignores(&patterns);
    // anchored at the root
    assert!(m.is_ignored("/abs/dir", false));
    assert!(!m.is_ignored("/x/abs/dir", false));
    // anywhere
    assert!(m.is_ignored("/x/y/name", false));
    assert!(m.is_ignored("name", true));
    assert!(!m.is_ignored("/x/y/named", false));
    // for directories only
    assert!(m.is_ignored("/x/only", true));
    assert!(!m.is_ignored("/x/only", false));
    assert!(m.is_ignored("/rooted", true));
    assert!(!m.is_ignored("/rooted", false));
    assert!(!m.is_ignored("/x/rooted", true));
    // the malformed pattern passes over nothing
    assert!(!m.is_ignored("bad[", false));
    assert!(!m.is_ignored("/bad", true));

    let none = IgnoreMatcher::default();
    assert!(!none.is_ignored("/abs/dir", true));
    assert!(!none.is_ignored("", false));
}

#[test]
fn the_fingerprint_hashes_length_and_time() {
    let mut input = Vec::new();
    input.extend_from_slice(&10u64.to_le_bytes());
    input.extend_from_slice(&100u128.to_le_bytes());
    assert_eq!(fingerprint(10, 100), *blake3::hash(&input).as_bytes());

    let mut input = Vec::new();
    input.extend_from_slice(&0x0102030405060708u64.to_le_bytes());
    input.extend_from_slice(&0x1112131415161718191a1b1c1d1e1f20u128.to_le_bytes());
    assert_eq!(
        fingerprint(0x0102030405060708, 0x1112131415161718191a1b1c1d1e1f20),
        *blake3::hash(&input).as_bytes()
    );
    assert_eq!(fingerprint(0, 0), *blake3::hash(&[0u8; 24]).as_bytes());
    assert_eq!(fingerprint(u64::MAX, u128::MAX), *blake3::hash(&[0xffu8; 24]).as_bytes());

    assert_ne!(fingerprint(10, 100), fingerprint(11, 100));
    assert_ne!(fingerprint(10, 100), fingerprint(10, 101));
    assert_ne!(fingerprint(1, 0), fingerprint(0, 1));
    // the same length and time give the same fingerprint, whatever the file holds
    assert_eq!(fingerprint(10, 100), fingerprint(10, 100));
}

#[test]
fn callbacks_of_the_sensor_are_selected_by_mask() {
    let mut fs = FileScream::new(None);
    assert_eq!(fs.add_callback(EventMask::created().union(EventMask::removed())), 0);
    assert_eq!(fs.add_callback(EventMask::changed()), 1);
    assert_eq!(fs.add_callback(EventMask::empty()), 2);
    assert_eq!(fs.add_callback(EventMask::created()), 3);
    assert_eq!(fs.fire(&created("/x")), vec![0, 3]);
    assert_eq!(fs.fire(&changed("/x")), vec![1]);
    assert_eq!(fs.fire(&removed("/x")), vec![0]);
}

#[test]
fn filescream_mask_selects_kinds() {
    let m = EventMask::created().union(EventMask::removed());
    assert!(m.matches(&created("/x")));
    assert!(!m.matches(&changed("/x")));
    assert!(m.matches(&removed("/x")));
    assert_eq!(m.bits(), 0b0101);
    assert!(m.contains(EventMask::removed()));
    assert!(!m.contains(EventMask::changed()));
    assert!(!EventMask::empty().matches(&created("/x")));
    assert_eq!(changed("/x").mask().bits(), 0b0010);
}

#[test]
fn filescream_config_defaults_and_setters() {
    assert_eq!(FileScriptConfig::default().get_pulse(), 3000);
    assert_eq!(FileScriptConfig::default().pulse(1000).get_pulse(), 1000);
    assert_eq!(FileScream::new(None).get_config().pulse, 3000);
    let fs = FileScream::new(Some(FileScriptConfig::default().pulse(10)));
    assert_eq!(fs.get_config().pulse, 10);
}
