use rusty_ddns::ip::{
    families_to_fetch, is_eligible_ipv4, is_eligible_ipv6, is_main_interface, ipv4_text,
    ipv6_text, select_system_ipv4, select_system_ipv6, InterfaceEntry, IpAddr, Ipv4Addr, Ipv6Addr,
};

#[test]
fn identifies_eligible_ipv4_addresses() {
    assert!(is_eligible_ipv4(Ipv4Addr::new(8, 8, 8, 8)));
    assert!(!is_eligible_ipv4(Ipv4Addr::new(127, 0, 0, 1)));
    assert!(!is_eligible_ipv4(Ipv4Addr::new(10, 0, 0, 1)));
    assert!(!is_eligible_ipv4(Ipv4Addr::new(172, 16, 0, 1)));
    assert!(!is_eligible_ipv4(Ipv4Addr::new(192, 168, 0, 1)));
    assert!(!is_eligible_ipv4(Ipv4Addr::new(169, 254, 1, 1)));
    assert!(!is_eligible_ipv4(Ipv4Addr::new(0, 0, 0, 0)));
}

#[test]
fn identifies_eligible_ipv6_addresses() {
    assert!(is_eligible_ipv6(Ipv6Addr::new(
        0x2001, 0x4860, 0x4860, 0, 0, 0, 0, 0x8888
    )));
    assert!(!is_eligible_ipv6(Ipv6Addr::localhost()));
    assert!(!is_eligible_ipv6(Ipv6Addr::new(
        0xfc00, 0, 0, 0, 0, 0, 0, 1
    )));
    assert!(!is_eligible_ipv6(Ipv6Addr::new(
        0xfe80, 0, 0, 0, 0, 0, 0, 1
    )));
    assert!(!is_eligible_ipv6(Ipv6Addr::unspecified()));
}

#[test]
fn private_range_edges() {
    assert!(is_eligible_ipv4(Ipv4Addr::new(172, 15, 255, 255)));
    assert!(!is_eligible_ipv4(Ipv4Addr::new(172, 31, 255, 255)));
    assert!(is_eligible_ipv4(Ipv4Addr::new(172, 32, 0, 0)));
    assert!(is_eligible_ipv4(Ipv4Addr::new(192, 169, 0, 1)));
    assert!(!is_eligible_ipv4(Ipv4Addr::new(127, 255, 0, 1)));
    assert!(is_eligible_ipv4(Ipv4Addr::new(169, 253, 1, 1)));
}

#[test]
fn ipv6_prefix_edges() {
    assert!(!is_eligible_ipv6(Ipv6Addr::new(0xfdff, 1, 0, 0, 0, 0, 0, 1)));
    assert!(is_eligible_ipv6(Ipv6Addr::new(0xfe00, 1, 0, 0, 0, 0, 0, 1)));
    assert!(!is_eligible_ipv6(Ipv6Addr::new(0xfebf, 0, 0, 0, 0, 0, 0, 1)));
    assert!(is_eligible_ipv6(Ipv6Addr::new(0xfec0, 0, 0, 0, 0, 0, 0, 1)));
    assert!(is_eligible_ipv6(Ipv6Addr::new(0, 0, 0, 0, 0, 0, 0, 2)));
}

#[test]
fn writes_ipv4_in_dot_decimal() {
    assert_eq!(ipv4_text(&Ipv4Addr::new(203, 0, 113, 10)), "203.0.113.10");
    assert_eq!(ipv4_text(&Ipv4Addr::new(0, 0, 0, 0)), "0.0.0.0");
    assert_eq!(ipv4_text(&Ipv4Addr::new(255, 255, 255, 255)), "255.255.255.255");
}

#[test]
fn writes_ipv6_compressed() {
    assert_eq!(ipv6_text(&Ipv6Addr::new(0x2001, 0xdb8, 0, 0, 0, 0, 0, 0x10)), "2001:db8::10");
    assert_eq!(ipv6_text(&Ipv6Addr::unspecified()), "::");
    assert_eq!(ipv6_text(&Ipv6Addr::localhost()), "::1");
    assert_eq!(ipv6_text(&Ipv6Addr::new(1, 0, 0, 2, 0, 0, 0, 3)), "1:0:0:2::3");
    assert_eq!(ipv6_text(&Ipv6Addr::new(1, 0, 0, 2, 0, 0, 3, 4)), "1::2:0:0:3:4");
    assert_eq!(ipv6_text(&Ipv6Addr::new(1, 0, 2, 3, 4, 5, 6, 7)), "1:0:2:3:4:5:6:7");
    assert_eq!(ipv6_text(&Ipv6Addr::new(0xabcd, 0xef01, 0, 0, 0, 0, 0, 0)), "abcd:ef01::");
    assert_eq!(ipv6_text(&Ipv6Addr::new(0, 0, 0, 0, 0, 0xffff, 0xc000, 0x0280)), "::ffff:192.0.2.128");
}

#[test]
fn ip_text_picks_family() {
    assert_eq!(IpAddr::V4(Ipv4Addr::new(1, 2, 3, 4)).to_text(), "1.2.3.4");
    assert_eq!(IpAddr::V6(Ipv6Addr::new(0xfe80, 0, 0, 0, 0, 0, 0, 1)).to_text(), "fe80::1");
}

#[test]
fn family_flags() {
    assert_eq!(families_to_fetch(true, false), (true, false));
    assert_eq!(families_to_fetch(false, true), (false, true));
    assert_eq!(families_to_fetch(false, false), (true, true));
    assert_eq!(families_to_fetch(true, true), (true, true));
}

#[test]
fn main_interface_names() {
    for name in ["eth0", "wlan0", "en0", "eno0", "wlo0"] {
        assert!(is_main_interface(name));
    }
    assert!(!is_main_interface("eth1"));
    assert!(!is_main_interface("lo"));
    assert!(!is_main_interface(""));
}

fn entry(name: &str, running: bool, address: Option<IpAddr>) -> InterfaceEntry {
    InterfaceEntry { name: name.to_string(), running, address }
}

#[test]
fn selects_first_eligible_system_address() {
    let entries = vec![
        entry("lo", true, Some(IpAddr::V4(Ipv4Addr::new(8, 8, 8, 8)))),
        entry("eth0", false, Some(IpAddr::V4(Ipv4Addr::new(8, 8, 4, 4)))),
        entry("eth0", true, Some(IpAddr::V4(Ipv4Addr::new(192, 168, 1, 2)))),
        entry("eth0", true, None),
        entry("wlan0", true, Some(IpAddr::V6(Ipv6Addr::new(0x2001, 0xdb8, 0, 0, 0, 0, 0, 1)))),
        entry("wlan0", true, Some(IpAddr::V4(Ipv4Addr::new(203, 0, 113, 10)))),
        entry("en0", true, Some(IpAddr::V4(Ipv4Addr::new(198, 51, 100, 1)))),
    ];
    assert_eq!(
        select_system_ipv4(&entries),
        Some(IpAddr::V4(Ipv4Addr::new(203, 0, 113, 10)))
    );
    assert_eq!(
        select_system_ipv6(&entries),
        Some(IpAddr::V6(Ipv6Addr::new(0x2001, 0xdb8, 0, 0, 0, 0, 0, 1)))
    );
}

#[test]
fn no_system_address_when_none_eligible() {
    let entries = vec![
        entry("eth0", true, Some(IpAddr::V6(Ipv6Addr::new(0xfe80, 0, 0, 0, 0, 0, 0, 1)))),
        entry("eth0", true, Some(IpAddr::V4(Ipv4Addr::new(10, 1, 2, 3)))),
    ];
    assert_eq!(select_system_ipv4(&entries), None);
    assert_eq!(select_system_ipv6(&entries), None);
    assert_eq!(select_system_ipv4(&[]), None);
}

use rusty_ddns::ip::{parse_ipv4, parse_ipv4_web_response};

#[test]
fn parses_valid_ipv4_web_response() {
    assert_eq!(
        parse_ipv4_web_response("203.0.113.10"),
        Some(IpAddr::V4(Ipv4Addr::new(203, 0, 113, 10)))
    );
}

#[test]
fn rejects_invalid_ipv4_web_response() {
    assert_eq!(parse_ipv4_web_response("not an ip"), None);
    assert_eq!(parse_ipv4_web_response("2001:db8::1"), None);
}

#[test]
fn ipv4_grammar_edges() {
    assert_eq!(parse_ipv4("0.0.0.0"), Some(Ipv4Addr::new(0, 0, 0, 0)));
    assert_eq!(parse_ipv4("255.255.255.255"), Some(Ipv4Addr::new(255, 255, 255, 255)));
    assert_eq!(parse_ipv4("256.0.0.1"), None);
    assert_eq!(parse_ipv4("01.2.3.4"), None);
    assert_eq!(parse_ipv4("1.2.3"), None);
    assert_eq!(parse_ipv4("1.2.3.4."), None);
    assert_eq!(parse_ipv4("1.2.3.4 "), None);
    assert_eq!(parse_ipv4("1.2.3.4\n"), None);
    assert_eq!(parse_ipv4("1..3.4"), None);
    assert_eq!(parse_ipv4("1000.2.3.4"), None);
    assert_eq!(parse_ipv4(""), None);
    assert_eq!(parse_ipv4("+1.2.3.4"), None);
}

#[test]
fn ipv4_text_round_trips() {
    for a in [
        Ipv4Addr::new(1, 2, 3, 4),
        Ipv4Addr::new(10, 0, 0, 255),
        Ipv4Addr::new(199, 100, 9, 0),
    ] {
        assert_eq!(parse_ipv4(&ipv4_text(&a)), Some(a));
    }
}

use rusty_ddns::ip::{parse_ipv6, parse_ipv6_web_response};

#[test]
fn parses_valid_ipv6_web_response() {
    assert_eq!(
        parse_ipv6_web_response("2001:db8::1"),
        Some(IpAddr::V6(Ipv6Addr::new(0x2001, 0x0db8, 0, 0, 0, 0, 0, 1)))
    );
}

#[test]
fn rejects_invalid_ipv6_web_response() {
    assert_eq!(parse_ipv6_web_response("not an ip"), None);
    assert_eq!(parse_ipv6_web_response("203.0.113.10"), None);
}

fn v6(s: [u16; 8]) -> Option<Ipv6Addr> {
    Some(Ipv6Addr::from_segments(s))
}

#[test]
fn ipv6_grammar_cases() {
    let cases: Vec<(&str, Option<Ipv6Addr>)> = vec![
        ("::", v6([0; 8])),
        ("::1", v6([0, 0, 0, 0, 0, 0, 0, 1])),
        ("1::", v6([1, 0, 0, 0, 0, 0, 0, 0])),
        ("1:2:3:4:5:6:7:8", v6([1, 2, 3, 4, 5, 6, 7, 8])),
        ("1:2:3:4:5:6:7::", v6([1, 2, 3, 4, 5, 6, 7, 0])),
        ("::2:3:4:5:6:7:8", v6([0, 2, 3, 4, 5, 6, 7, 8])),
        ("1::2:3:4:5:6:7", v6([1, 0, 2, 3, 4, 5, 6, 7])),
        ("::ffff:1.2.3.4", v6([0, 0, 0, 0, 0, 0xffff, 0x0102, 0x0304])),
        ("::1.2.3.4", v6([0, 0, 0, 0, 0, 0, 0x0102, 0x0304])),
        ("1:2:3:4:5:6:1.2.3.4", v6([1, 2, 3, 4, 5, 6, 0x0102, 0x0304])),
        ("::2:3:4:5:6:1.2.3.4", v6([0, 2, 3, 4, 5, 6, 0x0102, 0x0304])),
        ("1:2::3:4:1.2.3.4", v6([1, 2, 0, 0, 3, 4, 0x0102, 0x0304])),
        ("ABCD:ef01::", v6([0xabcd, 0xef01, 0, 0, 0, 0, 0, 0])),
        ("0000:0:00:000::", v6([0; 8])),
        ("2001:0db8:0000:0000:0000:ff00:0042:8329", v6([0x2001, 0xdb8, 0, 0, 0, 0xff00, 0x42, 0x8329])),
        ("::ffff:0.0.0.0", v6([0, 0, 0, 0, 0, 0xffff, 0, 0])),
        ("1:2:3:4:5:6:7::8", None),
        ("1::2:3:4:5:6:7:8", None),
        ("1:2:3:4:5:6::7:8", None),
        ("1:2:3:4:5:6:7:8::", None),
        ("1::2::3", None),
        (":::", None),
        ("1:::2", None),
        ("1::2:", None),
        (":1::2", None),
        (":1:2:3:4:5:6:7:8", None),
        ("1:2:3:4:5:6:7:8:", None),
        ("1:2:3:4:5:6:7", None),
        ("1:2:3:4:5:6:7:8:9", None),
        ("1:2:3:4:5:1.2.3.4", None),
        ("1.2.3.4::", None),
        ("1:2:3:4:5:6:7:1.2.3.4", None),
        ("::1.2.3.4:5", None),
        ("::01.2.3.4", None),
        ("::256.2.3.4", None),
        ("::1.2.3", None),
        ("::1.2.3.4.5", None),
        ("abcde::", None),
        ("", None),
        (":", None),
        ("1", None),
        ("g::", None),
        ("::g", None),
        ("fe80::1%eth0", None),
        (" ::1", None),
        ("::1 ", None),
    ];
    for (text, expected) in cases {
        assert_eq!(parse_ipv6(text), expected, "text {:?}", text);
    }
}

#[test]
fn ipv6_text_round_trips() {
    for a in [
        Ipv6Addr::new(0x2001, 0xdb8, 0, 0, 0, 0, 0, 0x10),
        Ipv6Addr::unspecified(),
        Ipv6Addr::localhost(),
        Ipv6Addr::new(1, 0, 0, 2, 0, 0, 0, 3),
        Ipv6Addr::new(0, 0, 0, 0, 0, 0xffff, 0xc000, 0x0280),
        Ipv6Addr::new(0xfe80, 0, 0, 0, 0x1234, 0, 0, 0),
    ] {
        assert_eq!(parse_ipv6(&ipv6_text(&a)), Some(a));
    }
}
