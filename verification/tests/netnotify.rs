use omnitrace::netpacket::dns::{DnsAnswer, IpAddr};
use omnitrace::netpacket::events::{ConnKey, NetNotifyEvent, NetNotifyMask};
use omnitrace::netpacket::netutil::{Ipv4Addr, Ipv6Addr};
use omnitrace::netpacket::rules::{
    classify, decide, full_target_of, remote_ip_of, simple_target_of, MatchFacts, PatternClass,
    RuleSet,
};
use omnitrace::netpacket::table::{parse_line, parse_table, read_table, ConnSet};
use omnitrace::netpacket::{NetNotify, NetNotifyConfig};

fn conn(proto: &str, local: &str, remote: &str, state: Option<&str>) -> ConnKey {
    ConnKey {
        proto: proto.to_string(),
        local: "0100007F:1F90".to_string(),
        remote: "04030201:01BB".to_string(),
        state: state.map(|_| "01".to_string()),
        local_dec: Some(local.to_string()),
        remote_dec: Some(remote.to_string()),
        state_dec: state.map(|s| s.to_string()),
        local_host: None,
        remote_host: None,
    }
}

fn with_host(mut c: ConnKey, host: &str) -> ConnKey {
    c.remote_host = Some(host.to_string());
    c
}

fn facts() -> MatchFacts {
    MatchFacts {
        ignore_simple: false,
        host_known: false,
        ignore_host: false,
        ignore_ip: false,
        has_watch: false,
        watch_simple: false,
        has_watch_host: false,
        watch_host: false,
        has_watch_ip: false,
        watch_ip: false,
        has_ignore: false,
        watch_full: false,
        ignore_full: false,
    }
}

const TCP_TABLE: &str = "  sl  local_address rem_address   st tx_queue rx_queue tr tm->when retrnsmt   uid  timeout inode
   0: 0100007F:1F90 00000000:0000 0A 00000000:00000000 00:00000000 00000000     0        0 12345 1 0000000000000000 100 0 0 10 0
   1: 0201A8C0:C69C 04030201:01BB 01 00000000:00000000 00:00000000 00000000  1000        0 23456 1 0000000000000000 20 4 30 10 -1
";

#[test]
fn patterns_are_classified() {
    assert_eq!(classify("*.google.com"), PatternClass::Host);
    assert_eq!(classify("example"), PatternClass::Host);
    assert_eq!(classify("1.2.*.*"), PatternClass::Host);
    assert_eq!(classify("tcp * 1.2.3.4:*"), PatternClass::Host);
    assert_eq!(classify("1.2.3.4"), PatternClass::Ip);
    assert_eq!(classify("1.2.3.4:443"), PatternClass::Ip);
    assert_eq!(classify("::1"), PatternClass::Ip);
    assert_eq!(classify("*"), PatternClass::Ip);
    assert_eq!(classify("* * *"), PatternClass::Generic);
    assert_eq!(classify("*:443 *"), PatternClass::Generic);
    assert_eq!(classify(""), PatternClass::Generic);
}

#[test]
fn a_host_like_pattern_switches_dns_on() {
    let mut n = NetNotify::new(None);
    assert!(!n.get_config().dns);
    n.add("*.google.com");
    assert!(n.get_config().dns);

    let mut n = NetNotify::new(None);
    n.ignore("ads.example.com");
    assert!(n.get_config().dns);
}

#[test]
fn other_patterns_leave_dns_as_it_is() {
    let mut n = NetNotify::new(None);
    n.add("1.2.3.4");
    n.add("* * *");
    n.ignore("8.8.8.8");
    assert!(!n.get_config().dns);
}

#[test]
fn a_malformed_pattern_is_dropped() {
    let mut n = NetNotify::new(None);
    // host-like, but no glob: an unclosed bracket
    n.add("evil[.example.com");
    n.add("a**b.example.com");
    n.ignore("a***b");
    assert!(!n.get_config().dns);
    // nothing is watched, so everything passes
    assert!(n.matches(&conn("tcp", "10.0.0.1:5000", "1.2.3.4:443", Some("ESTABLISHED"))));

    let mut r = RuleSet::new();
    assert!(!r.watch("["));
    assert!(!r.ignore("***"));
    assert!(r.watch("[a-z]*"));
    assert!(r.ignore("?"));
}

#[test]
fn netnotify_config_defaults_and_setters() {
    let c = NetNotifyConfig::default();
    assert_eq!(c.pulse, 1000);
    assert!(!c.dns);
    assert_eq!(c.dns_ttl, 60000);
    assert_eq!(c.pulse(250).pulse, 250);
    let n = NetNotify::new(Some(c.pulse(250))).dns(true).dns_ttl(5000);
    assert_eq!(n.get_config(), NetNotifyConfig { pulse: 250, dns: true, dns_ttl: 5000 });
    let n = n.dns(false);
    assert!(!n.get_config().dns);
}

#[test]
fn descriptions_of_a_connection() {
    let c = conn("tcp6", "10.0.0.1:5000", "1.2.3.4:443", Some("ESTABLISHED"));
    assert_eq!(simple_target_of(&c), "tcp 10.0.0.1:5000 1.2.3.4:443");
    assert_eq!(remote_ip_of(&c), "1.2.3.4");
    assert_eq!(
        full_target_of(&c),
        "tcp raw:0100007F:1F90->04030201:01BB dec:10.0.0.1:5000->1.2.3.4:443 state:01:ESTABLISHED"
    );

    let mut raw = conn("udp", "x", "y", None);
    raw.local_dec = None;
    raw.remote_dec = None;
    assert_eq!(simple_target_of(&raw), "udp 0100007F:1F90 04030201:01BB");
    assert_eq!(remote_ip_of(&raw), "-");
    assert_eq!(full_target_of(&raw), "udp raw:0100007F:1F90->04030201:01BB dec:-->- state:-:-");

    let v6 = conn("udp6", "::1:53", "2001:db8::1:443", None);
    assert_eq!(simple_target_of(&v6), "udp ::1:53 2001:db8::1:443");
    assert_eq!(remote_ip_of(&v6), "2001:db8::1");

    let odd = conn("6", "a", "no-colon", None);
    assert_eq!(simple_target_of(&odd), " a no-colon");
    assert_eq!(remote_ip_of(&odd), "no-colon");
}

#[test]
fn the_decision_follows_the_facts() {
    // nothing configured: accepted
    assert!(decide(&facts()));
    // any ignore that matches rejects
    assert!(!decide(&MatchFacts { ignore_simple: true, has_ignore: true, ..facts() }));
    assert!(!decide(&MatchFacts { ignore_ip: true, ..facts() }));
    assert!(!decide(&MatchFacts { host_known: true, ignore_host: true, ..facts() }));
    // a host ignore counts only where the host is known
    assert!(decide(&MatchFacts { host_known: false, ignore_host: true, ..facts() }));
    // a generic watch must match both descriptions
    assert!(!decide(&MatchFacts { has_watch: true, ..facts() }));
    assert!(!decide(&MatchFacts { has_watch: true, watch_simple: true, ..facts() }));
    assert!(!decide(&MatchFacts { has_watch: true, watch_full: true, ..facts() }));
    assert!(decide(&MatchFacts { has_watch: true, watch_simple: true, watch_full: true, ..facts() }));
    // a host watch needs a known host that matches
    assert!(!decide(&MatchFacts { has_watch_host: true, watch_host: true, ..facts() }));
    assert!(!decide(&MatchFacts { has_watch_host: true, host_known: true, ..facts() }));
    assert!(decide(&MatchFacts {
        has_watch_host: true,
        host_known: true,
        watch_host: true,
        ..facts()
    }));
    // an IP watch must match
    assert!(!decide(&MatchFacts { has_watch_ip: true, ..facts() }));
    assert!(decide(&MatchFacts { has_watch_ip: true, watch_ip: true, ..facts() }));
    // a generic ignore is asked again on the long description
    assert!(!decide(&MatchFacts { has_ignore: true, ignore_full: true, ..facts() }));
    assert!(decide(&MatchFacts { has_ignore: true, ..facts() }));
    // without generic patterns the long description plays no part
    assert!(decide(&MatchFacts { ignore_full: true, ..facts() }));
}

#[test]
fn an_ip_watch_filters_by_remote_address() {
    let mut n = NetNotify::new(None);
    n.add("1.2.3.4");
    assert!(n.matches(&conn("tcp", "10.0.0.1:5000", "1.2.3.4:443", Some("ESTABLISHED"))));
    assert!(!n.matches(&conn("tcp", "10.0.0.1:5000", "8.8.8.8:443", Some("ESTABLISHED"))));
    assert!(!n.matches(&conn("tcp", "1.2.3.4:5000", "8.8.8.8:443", Some("ESTABLISHED"))));

    let mut n = NetNotify::new(None);
    n.add("1.2.3.4");
    n.add("1.2.3.5");
    n.add("8.8.8.8");
    n.ignore("1.2.3.5");
    assert!(!n.get_config().dns);
    assert!(n.matches(&conn("udp", "10.0.0.1:5000", "1.2.3.4:53", None)));
    assert!(!n.matches(&conn("udp", "10.0.0.1:5000", "1.2.3.5:53", None)));
    assert!(n.matches(&conn("udp", "10.0.0.1:5000", "8.8.8.8:53", None)));
    assert!(!n.matches(&conn("udp", "10.0.0.1:5000", "9.9.9.9:53", None)));

    // a star without a dot is ip-like: here it stands for every address
    let mut n = NetNotify::new(None);
    n.ignore("*");
    assert!(!n.matches(&conn("udp", "10.0.0.1:5000", "9.9.9.9:53", None)));
}

#[test]
fn a_host_watch_needs_a_known_host() {
    let mut n = NetNotify::new(None);
    n.add("*.google.com");
    let c = conn("tcp", "10.0.0.1:5000", "1.2.3.4:443", Some("ESTABLISHED"));
    assert!(!n.matches(&c));
    assert!(n.matches(&with_host(c.clone(), "mail.google.com")));
    assert!(!n.matches(&with_host(c.clone(), "example.org")));
    assert!(!n.matches(&with_host(c.clone(), "")));

    let mut n = NetNotify::new(None);
    n.ignore("*.ads.example");
    assert!(n.matches(&c));
    assert!(!n.matches(&with_host(c.clone(), "x.ads.example")));
    assert!(n.matches(&with_host(c, "example.org")));
}

#[test]
fn a_generic_watch_is_asked_on_both_descriptions() {
    let mut n = NetNotify::new(None);
    n.add("*:443 *");
    // local port 443 and remote port 443: both descriptions hold ":443 "
    assert!(n.matches(&conn("tcp", "10.0.0.1:443", "1.2.3.4:443", Some("ESTABLISHED"))));
    // the short description matches, the long one does not
    assert!(!n.matches(&conn("tcp", "10.0.0.1:443", "1.2.3.4:80", Some("ESTABLISHED"))));
    // the short description does not match
    assert!(!n.matches(&conn("tcp", "10.0.0.1:80", "1.2.3.4:443", Some("ESTABLISHED"))));

    let mut n = NetNotify::new(None);
    n.add("* * *");
    assert!(n.matches(&conn("tcp", "10.0.0.1:80", "1.2.3.4:443", Some("ESTABLISHED"))));
    n.ignore("*:80 *");
    assert!(!n.matches(&conn("tcp", "10.0.0.1:80", "1.2.3.4:443", Some("ESTABLISHED"))));
    assert!(n.matches(&conn("tcp", "10.0.0.1:81", "1.2.3.4:443", Some("ESTABLISHED"))));
    // an ignore pattern that matches only the long description rejects too
    assert!(!n.matches(&conn("tcp", "10.0.0.1:81", "1.2.3.4:80", Some("ESTABLISHED"))));
}

#[test]
fn filter_on_the_short_description() {
    // The pattern of the filter asked on the short description of a
    // connection: it holds of the one to 1.2.3.4 and not of the one to
    // 8.8.8.8.
    let pattern = glob::Pattern::new("tcp * 1.2.3.4:*").unwrap();
    let hit = conn("tcp", "10.0.0.1:5000", "1.2.3.4:443", Some("ESTABLISHED"));
    let miss = conn("tcp", "10.0.0.1:5000", "8.8.8.8:443", Some("ESTABLISHED"));
    assert!(pattern.matches(&simple_target_of(&hit)));
    assert!(!pattern.matches(&simple_target_of(&miss)));
    // On the long description it holds of neither, so as a generic watch
    // pattern it lets neither pass.
    assert!(!pattern.matches(&full_target_of(&hit)));
    assert!(!decide(&MatchFacts { has_watch: true, watch_simple: true, ..facts() }));
    assert!(!decide(&MatchFacts { has_watch: true, watch_simple: false, ..facts() }));
    // Handed to the sensor, the pattern is host-like, for it has letters:
    // without a host name nothing passes it.
    let mut n = NetNotify::new(None);
    n.add("tcp * 1.2.3.4:*");
    assert!(n.get_config().dns);
    assert!(!n.matches(&hit));
    assert!(!n.matches(&miss));
}

#[test]
fn rows_of_a_table() {
    let line: Vec<char> =
        "   1: 0201A8C0:C69C 04030201:01BB 01 00000000:00000000 00:00000000".chars().collect();
    let k = parse_line("tcp", &line, true).unwrap();
    assert_eq!(
        k,
        ConnKey {
            proto: "tcp".to_string(),
            local: "0201A8C0:C69C".to_string(),
            remote: "04030201:01BB".to_string(),
            state: Some("01".to_string()),
            local_dec: Some("192.168.1.2:50844".to_string()),
            remote_dec: Some("1.2.3.4:443".to_string()),
            state_dec: Some("ESTABLISHED".to_string()),
            local_host: None,
            remote_host: None,
        }
    );
    let k = parse_line("udp", &line, false).unwrap();
    assert_eq!(k.state, None);
    assert_eq!(k.state_dec, None);
    assert_eq!(k.remote_dec.as_deref(), Some("1.2.3.4:443"));

    // an IPv4 field under an IPv6 protocol does not decode
    let k = parse_line("tcp6", &line, true).unwrap();
    assert_eq!(k.local_dec, None);
    assert_eq!(k.remote_dec, None);
    assert_eq!(k.state_dec.as_deref(), Some("ESTABLISHED"));

    let short: Vec<char> = "0: 0100007F:1F90".chars().collect();
    assert_eq!(parse_line("tcp", &short, true), None);
    let three: Vec<char> = "0: 0100007F:1F90 00000000:0000".chars().collect();
    let k = parse_line("tcp", &three, true).unwrap();
    assert_eq!(k.state, None);
    assert_eq!(k.state_dec, None);
    let bad: Vec<char> = "0: junk more FF".chars().collect();
    let k = parse_line("tcp", &bad, true).unwrap();
    assert_eq!(k.local_dec, None);
    assert_eq!(k.state_dec.as_deref(), Some("UNKNOWN"));
}

#[test]
fn a_table_is_read_without_its_header() {
    let set = read_table(Some(TCP_TABLE), None, None, None);
    assert_eq!(set.len(), 2);
    assert_eq!(set.get(0).local_dec.as_deref(), Some("127.0.0.1:8080"));
    assert_eq!(set.get(0).state_dec.as_deref(), Some("LISTEN"));
    assert_eq!(set.get(1).remote_dec.as_deref(), Some("1.2.3.4:443"));
    assert_eq!(set.get(1).proto, "tcp");

    assert_eq!(read_table(None, None, None, None).len(), 0);
    assert_eq!(read_table(Some(""), Some("header only\n"), None, None).len(), 0);
}

#[test]
fn the_four_tables_make_one_set() {
    let v6 = "header\n 0: 00000000000000000000000000000001:0035 00000000000000000000000000000000:0000 07\n";
    let set = read_table(Some(TCP_TABLE), Some(v6), Some(TCP_TABLE), Some(v6));
    assert_eq!(set.len(), 6);
    assert_eq!(set.get(2).proto, "tcp6");
    assert_eq!(set.get(2).local_dec.as_deref(), Some("::1:53"));
    assert_eq!(set.get(2).state_dec.as_deref(), Some("CLOSE"));
    assert_eq!(set.get(3).proto, "udp");
    assert_eq!(set.get(3).state, None);
    assert_eq!(set.get(5).proto, "udp6");
    assert_eq!(set.get(5).remote_dec.as_deref(), Some(":::0"));
}

#[test]
fn equal_rows_are_kept_once() {
    let text = "header\n 0: 0100007F:1F90 00000000:0000 0A\n 1: 0100007F:1F90 00000000:0000 0A\n 2: 0100007F:1F90 00000000:0000 01\n";
    let mut set = ConnSet::new();
    parse_table("tcp", Some(text), true, &mut set);
    assert_eq!(set.len(), 2);
    parse_table("tcp", Some(text), true, &mut set);
    assert_eq!(set.len(), 2);
    parse_table("tcp", None, true, &mut set);
    assert_eq!(set.len(), 2);
    assert!(set.contains(set.get(1)));
}

#[test]
fn the_first_tick_is_the_baseline() {
    let mut n = NetNotify::new(None);
    assert!(!n.is_primed());
    let diff = n.tick(read_table(Some(TCP_TABLE), None, None, None));
    assert!(diff.opened.is_empty());
    assert!(diff.closed.is_empty());
    assert!(n.is_primed());
}

#[test]
fn opened_and_closed_between_two_ticks() {
    let mut n = NetNotify::new(None);
    n.tick(read_table(Some(TCP_TABLE), None, None, None));

    let later = "header\n 1: 0201A8C0:C69C 04030201:01BB 01\n 2: 0201A8C0:C69D 08080808:0035 02\n";
    let diff = n.tick(read_table(Some(later), None, None, None));
    assert_eq!(diff.opened.len(), 1);
    assert_eq!(diff.opened[0].remote_dec.as_deref(), Some("8.8.8.8:53"));
    assert_eq!(diff.closed.len(), 1);
    assert_eq!(diff.closed[0].local_dec.as_deref(), Some("127.0.0.1:8080"));

    let events = n.events(&diff.opened, &diff.closed);
    assert_eq!(
        events,
        vec![
            NetNotifyEvent::Opened { conn: diff.opened[0].clone() },
            NetNotifyEvent::Closed { conn: diff.closed[0].clone() },
        ]
    );

    // no change, no difference
    let diff = n.tick(read_table(Some(later), None, None, None));
    assert!(diff.opened.is_empty());
    assert!(diff.closed.is_empty());
    assert_eq!(n.events(&diff.opened, &diff.closed), vec![]);
}

#[test]
fn a_change_of_state_closes_one_key_and_opens_another() {
    let mut n = NetNotify::new(None);
    n.tick(read_table(Some("h\n 0: 0100007F:1F90 04030201:01BB 02\n"), None, None, None));
    let diff = n.tick(read_table(Some("h\n 0: 0100007F:1F90 04030201:01BB 01\n"), None, None, None));
    assert_eq!(diff.opened.len(), 1);
    assert_eq!(diff.opened[0].state_dec.as_deref(), Some("ESTABLISHED"));
    assert_eq!(diff.closed.len(), 1);
    assert_eq!(diff.closed[0].state_dec.as_deref(), Some("SYN_SENT"));
}

#[test]
fn events_pass_the_patterns() {
    let mut n = NetNotify::new(None);
    n.add("1.2.3.4");
    let a = conn("tcp", "10.0.0.1:5000", "1.2.3.4:443", Some("ESTABLISHED"));
    let b = conn("tcp", "10.0.0.1:5001", "8.8.8.8:443", Some("ESTABLISHED"));
    let events = n.events(&vec![a.clone(), b.clone()], &vec![b, a.clone()]);
    assert_eq!(
        events,
        vec![NetNotifyEvent::Opened { conn: a.clone() }, NetNotifyEvent::Closed { conn: a }]
    );
}

#[test]
fn the_address_to_resolve() {
    let c = conn("tcp", "10.0.0.1:5000", "1.2.3.4:443", Some("ESTABLISHED"));
    let off = NetNotify::new(None);
    assert_eq!(off.dns_target(&c), None);
    let on = NetNotify::new(None).dns(true);
    assert_eq!(on.dns_target(&c).as_deref(), Some("1.2.3.4"));
    let v6 = conn("tcp6", "::1:5000", "2001:db8::1:443", None);
    assert_eq!(on.dns_target(&v6).as_deref(), Some("2001:db8::1"));
    let mut raw = c.clone();
    raw.remote_dec = None;
    assert_eq!(on.dns_target(&raw), None);
    let mut odd = c;
    odd.remote_dec = Some("no colon".to_string());
    assert_eq!(on.dns_target(&odd), None);
}

#[test]
fn a_resolved_name_is_cached_until_it_is_stale() {
    let mut n = NetNotify::new(None).dns(true).dns_ttl(5000);
    let ip = IpAddr::V4(Ipv4Addr::new(1, 2, 3, 4));
    assert_eq!(n.dns_cached(&ip, 1000), DnsAnswer::Lookup);
    let name = n.dns_resolved(ip, Some("host.example".to_string()), 1000);
    assert_eq!(name.as_deref(), Some("host.example"));
    // a second opening within the life time asks no resolver
    assert_eq!(n.dns_cached(&ip, 1000), DnsAnswer::Cached("host.example".to_string()));
    assert_eq!(n.dns_cached(&ip, 5999), DnsAnswer::Cached("host.example".to_string()));
    // from the end of the life time on the resolver is asked again
    assert_eq!(n.dns_cached(&ip, 6000), DnsAnswer::Lookup);
    assert_eq!(n.dns_cached(&ip, 7000), DnsAnswer::Lookup);
    // a new answer replaces the old one
    n.dns_resolved(ip, Some("other.example".to_string()), 7000);
    assert_eq!(n.dns_cached(&ip, 7001), DnsAnswer::Cached("other.example".to_string()));
    // another address has its own entry
    let other = IpAddr::V4(Ipv4Addr::new(1, 2, 3, 5));
    assert_eq!(n.dns_cached(&other, 7001), DnsAnswer::Lookup);
}

#[test]
fn a_failed_look_up_is_not_cached() {
    let mut n = NetNotify::new(None).dns(true);
    let ip = IpAddr::V4(Ipv4Addr::new(10, 0, 0, 1));
    assert_eq!(n.dns_resolved(ip, None, 1000), None);
    assert_eq!(n.dns_cached(&ip, 1001), DnsAnswer::Lookup);
}

#[test]
fn the_unspecified_address_has_no_name() {
    let mut n = NetNotify::new(None).dns(true);
    let v4 = IpAddr::V4(Ipv4Addr::new(0, 0, 0, 0));
    let v6 = IpAddr::V6(Ipv6Addr { octets: [0u8; 16] });
    assert_eq!(n.dns_cached(&v4, 0), DnsAnswer::Skip);
    assert_eq!(n.dns_cached(&v6, 0), DnsAnswer::Skip);
    n.dns_resolved(v4, Some("zero".to_string()), 0);
    assert_eq!(n.dns_cached(&v4, 1), DnsAnswer::Skip);
    let mut one = [0u8; 16];
    one[15] = 1;
    let loopback = IpAddr::V6(Ipv6Addr { octets: one });
    assert_eq!(n.dns_cached(&loopback, 0), DnsAnswer::Lookup);
    assert!(!loopback.same(&v6));
    assert!(!v4.same(&v6));
    assert!(v6.is_unspecified());
}

#[test]
fn a_life_time_that_overflows_the_clock_never_ends() {
    let mut n = NetNotify::new(None).dns(true).dns_ttl(u64::MAX);
    let ip = IpAddr::V4(Ipv4Addr::new(1, 1, 1, 1));
    n.dns_resolved(ip, Some("one".to_string()), 10);
    assert_eq!(n.dns_cached(&ip, u64::MAX - 1), DnsAnswer::Cached("one".to_string()));
}

#[test]
fn the_host_is_attached_to_the_connection() {
    let c = conn("tcp", "10.0.0.1:5000", "1.2.3.4:443", Some("ESTABLISHED"));
    let d = NetNotify::with_remote_host(c.clone(), Some("h".to_string()));
    assert_eq!(d.remote_host.as_deref(), Some("h"));
    assert_eq!(d.remote_dec, c.remote_dec);
    assert!(!d.same(&c));
    assert!(d.same(&d.copy()));
    assert_eq!(NetNotify::with_remote_host(d, None), c);
}

#[test]
fn net_event_masks() {
    let c = conn("tcp", "a:1", "b:2", None);
    assert_eq!(NetNotifyEvent::Opened { conn: c.clone() }.mask().bits(), 0b0001);
    assert_eq!(NetNotifyEvent::Closed { conn: c }.mask().bits(), 0b0010);
    assert_eq!(NetNotifyMask::opened().union(NetNotifyMask::closed()).bits(), 0b0011);
}
