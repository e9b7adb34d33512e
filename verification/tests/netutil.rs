use omnitrace::netpacket::netutil::{
    dec_ipv4, dec_ipv6, decode_addr, decode_tcp_state, expand_pat, hex_port, is_hostish,
    is_ipish, Ipv4Addr, Ipv6Addr,
};

// -------------------------
// hex_port
// -------------------------

#[test]
fn hex_port_parses_valid_hex() {
    assert_eq!(hex_port("0000"), Some(0));
    assert_eq!(hex_port("0001"), Some(1));
    assert_eq!(hex_port("01BB"), Some(443));
    assert_eq!(hex_port("FFFF"), Some(65535));
    assert_eq!(hex_port("c69c"), Some(0xC69C));
}

#[test]
fn hex_port_rejects_invalid() {
    assert_eq!(hex_port(""), None);
    assert_eq!(hex_port("GGGG"), None);
    assert_eq!(hex_port("01BG"), None);
    assert_eq!(hex_port(" "), None);
}

#[test]
fn hex_port_rejects_what_does_not_fit() {
    assert_eq!(hex_port("10000"), None);
    assert_eq!(hex_port("0FFFF"), Some(65535));
    assert_eq!(hex_port("+1BB"), Some(443));
    assert_eq!(hex_port("+"), None);
    assert_eq!(hex_port("-1"), None);
    assert_eq!(hex_port("1 "), None);
}

// -------------------------
// dec_ipv4
// -------------------------

#[test]
fn dec_ipv4_decodes_current_logic() {
    // "0100007F" => 127.0.0.1 (Linux /proc/net style)
    assert_eq!(dec_ipv4("0100007F"), Some(Ipv4Addr::new(127, 0, 0, 1)));

    // And the reverse string gives the reverse IP
    assert_eq!(dec_ipv4("7F000001"), Some(Ipv4Addr::new(1, 0, 0, 127)));

    // 0.0.0.0
    assert_eq!(dec_ipv4("00000000"), Some(Ipv4Addr::new(0, 0, 0, 0)));
}

#[test]
fn dec_ipv4_rejects_invalid_hex() {
    assert_eq!(dec_ipv4(""), None);
    assert_eq!(dec_ipv4("ZZZZZZZZ"), None);

    // short but valid hex is accepted
    assert!(dec_ipv4("123").is_some());
}

#[test]
fn dec_ipv4_short_and_long_fields() {
    assert_eq!(dec_ipv4("123"), Some(Ipv4Addr::new(0x23, 0x01, 0, 0)));
    assert_eq!(dec_ipv4("100000000"), None);
    assert_eq!(dec_ipv4("0FFFFFFFF"), Some(Ipv4Addr::new(255, 255, 255, 255)));
    assert_eq!(dec_ipv4("0201A8C0"), Some(Ipv4Addr::new(192, 168, 1, 2)));
}

// -------------------------
// dec_ipv6 (32 hex chars network order)
// -------------------------

#[test]
fn dec_ipv6_decodes_32_hex_chars_network_order() {
    // ::1 => 000...0001
    let loopback = "00000000000000000000000000000001";
    let mut one = [0u8; 16];
    one[15] = 1;
    assert_eq!(dec_ipv6(loopback), Some(Ipv6Addr { octets: one }));

    // :: => 000...0000
    let all_zero = "00000000000000000000000000000000";
    assert_eq!(dec_ipv6(all_zero), Some(Ipv6Addr { octets: [0u8; 16] }));
}

#[test]
fn dec_ipv6_rejects_wrong_length_or_bad_hex() {
    assert_eq!(dec_ipv6(""), None);
    assert_eq!(dec_ipv6("0"), None);
    assert_eq!(dec_ipv6("0000000000000000000000000000000"), None); // 31 chars
    assert_eq!(dec_ipv6("000000000000000000000000000000011"), None); // 33 chars
    assert_eq!(dec_ipv6("GG000000000000000000000000000000"), None); // bad hex
}

#[test]
fn dec_ipv6_keeps_the_order_of_the_octets() {
    let a = dec_ipv6("20010DB8000000000000000000000001").unwrap();
    assert_eq!(a.octets, [0x20, 0x01, 0x0d, 0xb8, 0, 0, 0, 0, 0, 0, 0, 0, 0, 0, 0, 1]);
    assert_eq!(a.to_string(), "2001:db8::1");
    assert_eq!(dec_ipv6("+0000000000000000000000000000001"), None);
}

#[test]
fn ipv6_text_forms() {
    let text = |hex: &str| dec_ipv6(hex).unwrap().to_string();
    assert_eq!(text("00000000000000000000000000000000"), "::");
    assert_eq!(text("00000000000000000000000000000001"), "::1");
    assert_eq!(text("00000000000000000000FFFF01020304"), "::ffff:1.2.3.4");
    assert_eq!(text("00010000000000000000000000000000"), "1::");
    assert_eq!(text("00010002000300040005000600070008"), "1:2:3:4:5:6:7:8");
    // a single zero segment is not shortened
    assert_eq!(text("00010000000300040005000600070008"), "1:0:3:4:5:6:7:8");
    // of two runs of the same length the left one is shortened
    assert_eq!(text("00010000000000040005000000000008"), "1::4:5:0:0:8");
    // the longer run wins, wherever it stands
    assert_eq!(text("00010000000000040000000000000008"), "1:0:0:4::8");
    assert_eq!(text("FE800000000000000A0027FFFE4E66A1"), "fe80::a00:27ff:fe4e:66a1");
}

// -------------------------
// decode_addr
// -------------------------

#[test]
fn decode_addr_ipv4() {
    // /proc style: 0100007F => 127.0.0.1
    assert_eq!(decode_addr("0100007F:01BB", false).as_deref(), Some("127.0.0.1:443"));
}

#[test]
fn decode_addr_ipv6() {
    // ::1:443
    let ip_hex = "00000000000000000000000000000001";
    assert_eq!(decode_addr(&format!("{ip_hex}:01BB"), true).as_deref(), Some("::1:443"));
}

#[test]
fn decode_addr_rejects_bad_inputs() {
    assert_eq!(decode_addr("", false), None);
    assert_eq!(decode_addr("NOPE", false), None);
    assert_eq!(decode_addr("0100007F", false), None);
    assert_eq!(decode_addr("0100007F:ZZZZ", false), None);
    assert_eq!(decode_addr("BADHEX:01BB", false), None);

    // v4 hex with v6 flag should be rejected (len != 32)
    assert_eq!(decode_addr("0100007F:01BB", true), None);
}

#[test]
fn decode_addr_splits_at_the_first_colon() {
    assert_eq!(decode_addr("0100007F:01BB:00", false), None);
    assert_eq!(decode_addr(":01BB", false), None);
    assert_eq!(decode_addr("0100007F:", false), None);
    assert_eq!(decode_addr("0201A8C0:C69C", false).as_deref(), Some("192.168.1.2:50844"));
    assert_eq!(decode_addr("00000000:0000", false).as_deref(), Some("0.0.0.0:0"));
}

// -------------------------
// decode_tcp_state
// -------------------------

#[test]
fn decode_tcp_state_maps_known_codes() {
    assert_eq!(decode_tcp_state(&Some("01".into())).as_deref(), Some("ESTABLISHED"));
    assert_eq!(decode_tcp_state(&Some("02".into())).as_deref(), Some("SYN_SENT"));
    assert_eq!(decode_tcp_state(&Some("03".into())).as_deref(), Some("SYN_RECV"));
    assert_eq!(decode_tcp_state(&Some("04".into())).as_deref(), Some("FIN_WAIT1"));
    assert_eq!(decode_tcp_state(&Some("05".into())).as_deref(), Some("FIN_WAIT2"));
    assert_eq!(decode_tcp_state(&Some("06".into())).as_deref(), Some("TIME_WAIT"));
    assert_eq!(decode_tcp_state(&Some("07".into())).as_deref(), Some("CLOSE"));
    assert_eq!(decode_tcp_state(&Some("08".into())).as_deref(), Some("CLOSE_WAIT"));
    assert_eq!(decode_tcp_state(&Some("09".into())).as_deref(), Some("LAST_ACK"));
    assert_eq!(decode_tcp_state(&Some("0A".into())).as_deref(), Some("LISTEN"));
    assert_eq!(decode_tcp_state(&Some("0B".into())).as_deref(), Some("CLOSING"));
}

#[test]
fn decode_tcp_state_unknown_and_none() {
    assert_eq!(decode_tcp_state(&None), None);
    assert_eq!(decode_tcp_state(&Some("FF".into())).as_deref(), Some("UNKNOWN"));
    assert_eq!(decode_tcp_state(&Some("".into())).as_deref(), Some("UNKNOWN"));
}

#[test]
fn decode_tcp_state_is_case_sensitive() {
    assert_eq!(decode_tcp_state(&Some("0a".into())).as_deref(), Some("UNKNOWN"));
    assert_eq!(decode_tcp_state(&Some("1".into())).as_deref(), Some("UNKNOWN"));
}

// -------------------------
// expand_pat
// -------------------------

#[test]
fn expand_pat_empty_and_star() {
    assert_eq!(expand_pat(""), "");
    assert_eq!(expand_pat("   "), "");
    assert_eq!(expand_pat("*"), "*");
}

#[test]
fn expand_pat_explicit_passthrough() {
    assert_eq!(expand_pat("raw:foo"), "raw:foo");
    assert_eq!(expand_pat("dec:1.2.3.4:443"), "dec:1.2.3.4:443");
    assert_eq!(expand_pat("host:*.google.com"), "host:*.google.com");
    assert_eq!(expand_pat("state:ESTABLISHED"), "state:ESTABLISHED");
}

#[test]
fn expand_pat_port_only() {
    assert_eq!(expand_pat(":443"), "*dec:*:443*");
}

#[test]
fn expand_pat_ipv4() {
    assert_eq!(expand_pat("8.8.8.8"), "*dec:*8.8.8.8:*");

    // wildcard IPv4 does *not* count as IPv4 in expand_pat (digits/dots only rule)
    assert_eq!(expand_pat("1.2.*.*"), "*host:1.2.*.**");
}

#[test]
fn expand_pat_ipv6_loose() {
    // "::1" hits the "port-only" branch because it starts with ':'
    assert_eq!(expand_pat("::1"), "*dec:*::1*");

    // this one hits the IPv6 branch
    assert_eq!(expand_pat("2001:db8::1"), "*dec:*2001:db8::1:*");
}

#[test]
fn expand_pat_proto() {
    assert_eq!(expand_pat("tcp"), "tcp*");
    assert_eq!(expand_pat("udp"), "udp*");
    // tcp6/udp6 are not handled specially
    assert_eq!(expand_pat("tcp6"), "*host:tcp6*");
}

#[test]
fn expand_pat_default_hostname() {
    assert_eq!(expand_pat("google.com"), "*host:google.com*");
    assert_eq!(expand_pat("*.google.com"), "*host:*.google.com*");
    assert_eq!(expand_pat("tzfraa-aj-in-f14.1e100.net"), "*host:tzfraa-aj-in-f14.1e100.net*");
}

#[test]
fn expand_pat_trims_and_keeps_case() {
    assert_eq!(expand_pat("  TCP \t"), "TCP*");
    assert_eq!(expand_pat(" Udp"), "Udp*");
    assert_eq!(expand_pat(":"), "*dec:*::*");
    assert_eq!(expand_pat(" 10.0.0.1\n"), "*dec:*10.0.0.1:*");
    assert_eq!(expand_pat("1234"), "*host:1234*");
    assert_eq!(expand_pat("x raw:y"), "x raw:y");
}

// -------------------------
// is_ipish
// -------------------------

#[test]
fn is_ipish_accepts_single_token_ip_like() {
    assert!(is_ipish("8.8.8.8"));
    assert!(is_ipish("8.8.8.8:443"));
    assert!(is_ipish("1.2.*.*"));
    assert!(is_ipish("::1"));
    // a letter is no digit, so an address with hexadecimal letters is not ip-like
    assert!(!is_ipish("2001:db8::1"));
    assert!(!is_ipish("2001:db8::*"));
    assert!(is_ipish("2001:08::1"));
    assert!(is_ipish("2001:08::*"));
}

#[test]
fn is_ipish_rejects_non_ip_like() {
    assert!(!is_ipish(""));
    assert!(!is_ipish("   "));
    assert!(!is_ipish("deadbeef")); // no '.' or ':'
    assert!(!is_ipish("*.google.com"));
    assert!(!is_ipish("udp"));
    assert!(!is_ipish("udp * *"));
    assert!(!is_ipish("1.2.3.4 something"));
}

// -------------------------
// is_hostish
// -------------------------

#[test]
fn is_hostish_accepts_single_token_host_like() {
    assert!(is_hostish("google.com"));
    assert!(is_hostish("*.google.com"));
    assert!(is_hostish("tzfraa-aj-in-f14.1e100.net"));
    assert!(is_hostish("udp")); // letters => hostish
    assert!(is_hostish("deadbeef")); // letters => hostish
}

#[test]
fn is_hostish_rejects_multi_token_and_non_host_like() {
    assert!(!is_hostish(""));
    assert!(!is_hostish("   "));
    // a pattern with an ASCII letter is host-like, however many words it has
    assert!(is_hostish("udp * *"));
    assert!(is_hostish("foo bar"));
    assert!(!is_hostish("8.8.8.8"));
    assert!(!is_hostish("::1"));
    assert!(!is_hostish("1.2.3.4:443"));
}

#[test]
fn is_hostish_star_and_dot() {
    assert!(is_hostish("1.2.*.*"));
    assert!(!is_hostish("*"));
    assert!(!is_hostish("* * *"));
    assert!(is_hostish("* .*"));
}

// -------------------------
// sanity checks
// -------------------------

#[test]
fn sanity_target_endianness() {
    let endian = if u16::from_ne_bytes([1, 0]) == 1 { "little" } else { "big" };
    assert!(endian == "little", "you are on big-endian, welcome to 1993");
}

#[test]
fn sanity_dec_ipv4_matches_decode_addr() {
    // Whatever dec_ipv4 does, decode_addr must use the same logic.
    let ip = dec_ipv4("0100007F").unwrap().to_string();
    let got = decode_addr("0100007F:01BB", false).unwrap();
    assert!(got.starts_with(&format!("{ip}:")), "decode_addr mismatch: {got} vs {ip}");
}
