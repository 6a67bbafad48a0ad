use turnon_net::addr::{format_ip, parse_ip, parse_v4, parse_v6, IpAddress, Ipv4Address, Ipv6Address};
use turnon_net::mac::parse_mac;
use turnon_net::target::Target;

fn bytes(text: &str) -> Vec<u8> {
    text.as_bytes().to_vec()
}

fn v4(o0: u8, o1: u8, o2: u8, o3: u8) -> IpAddress {
    IpAddress::V4(Ipv4Address { o0, o1, o2, o3 })
}

#[test]
fn parse_ipv4_literal() {
    let a = parse_ip(&bytes("185.199.108.153")).unwrap();
    assert_eq!(a, v4(185, 199, 108, 153));
    assert!(!a.is_v6());
}

#[test]
fn parse_ipv6_literal() {
    let a = parse_ip(&bytes("2606:50c0:8000::153")).unwrap();
    let expected = Ipv6Address {
        g0: 0x2606,
        g1: 0x50c0,
        g2: 0x8000,
        g3: 0,
        g4: 0,
        g5: 0,
        g6: 0,
        g7: 0x153,
    };
    assert_eq!(a, IpAddress::V6(expected));
    assert!(a.is_v6());
}

#[test]
fn ipv6_compression_forms() {
    assert_eq!(
        parse_v6(&bytes("::1")),
        Some(Ipv6Address { g0: 0, g1: 0, g2: 0, g3: 0, g4: 0, g5: 0, g6: 0, g7: 1 })
    );
    assert_eq!(
        parse_v6(&bytes("::")),
        Some(Ipv6Address { g0: 0, g1: 0, g2: 0, g3: 0, g4: 0, g5: 0, g6: 0, g7: 0 })
    );
    assert_eq!(
        parse_v6(&bytes("fe80::1:2")),
        Some(Ipv6Address { g0: 0xfe80, g1: 0, g2: 0, g3: 0, g4: 0, g5: 0, g6: 1, g7: 2 })
    );
    assert_eq!(
        parse_v6(&bytes("1:2:3:4:5:6:7:8")),
        Some(Ipv6Address { g0: 1, g1: 2, g2: 3, g3: 4, g4: 5, g5: 6, g6: 7, g7: 8 })
    );
    // A `::` must stand for at least one group, and may appear only once.
    assert_eq!(parse_v6(&bytes("1:2:3:4:5:6:7:8::")), None);
    assert_eq!(parse_v6(&bytes("::1:2:3:4:5:6:7:8")), None);
    assert_eq!(parse_v6(&bytes("1::2::3")), None);
    assert_eq!(parse_v6(&bytes(":::")), None);
    assert_eq!(parse_v6(&bytes("1:2:3")), None);
}

#[test]
fn ipv6_embedded_ipv4_tail() {
    assert_eq!(
        parse_v6(&bytes("::ffff:192.168.1.9")),
        Some(Ipv6Address {
            g0: 0,
            g1: 0,
            g2: 0,
            g3: 0,
            g4: 0,
            g5: 0xffff,
            g6: 0xc0a8,
            g7: 0x0109,
        })
    );
    assert_eq!(
        parse_v6(&bytes("::1.2.3.4")),
        Some(Ipv6Address { g0: 0, g1: 0, g2: 0, g3: 0, g4: 0, g5: 0, g6: 0x0102, g7: 0x0304 })
    );
    assert_eq!(
        parse_v6(&bytes("1:2:3:4:5:6:1.2.3.4")),
        Some(Ipv6Address { g0: 1, g1: 2, g2: 3, g3: 4, g4: 5, g5: 6, g6: 0x0102, g7: 0x0304 })
    );
    // The dotted part must be last, complete and in range.
    assert_eq!(parse_v6(&bytes("1.2.3.4:5")), None);
    assert_eq!(parse_v6(&bytes("::ffff:1.2.3")), None);
    assert_eq!(parse_v6(&bytes("::ffff:256.1.1.1")), None);
}

#[test]
fn ipv4_rejects_malformed_text() {
    for t in [
        "256.1.1.1",
        "01.2.3.4",
        "1.2.3",
        "1.2.3.4.5",
        "1..2.3",
        ".1.2.3",
        "1.2.3.",
        "a.b.c.d",
        "",
        "300.300.300.300",
    ] {
        assert_eq!(parse_v4(&bytes(t)), None, "{t}");
    }
}

#[test]
fn round_trip_through_text() {
    let addresses = [
        v4(127, 0, 0, 1),
        v4(0, 0, 0, 0),
        v4(255, 255, 255, 255),
        v4(185, 199, 108, 153),
        IpAddress::V6(Ipv6Address {
            g0: 0x2606,
            g1: 0x50c0,
            g2: 0x8000,
            g3: 0,
            g4: 0,
            g5: 0,
            g6: 0,
            g7: 0x153,
        }),
        IpAddress::V6(Ipv6Address { g0: 0, g1: 0, g2: 0, g3: 0, g4: 0, g5: 0, g6: 0, g7: 1 }),
        IpAddress::V6(Ipv6Address {
            g0: 0xffff,
            g1: 0xffff,
            g2: 0xffff,
            g3: 0xffff,
            g4: 0xffff,
            g5: 0xffff,
            g6: 0xffff,
            g7: 0xffff,
        }),
    ];
    for a in addresses {
        let text = format_ip(&a);
        assert_eq!(parse_ip(&text), Some(a));
    }
}

#[test]
fn format_is_plain_text() {
    assert_eq!(format_ip(&v4(127, 0, 0, 1)), bytes("127.0.0.1"));
    let a = IpAddress::V6(Ipv6Address {
        g0: 0x2606,
        g1: 0x50c0,
        g2: 0x8000,
        g3: 0,
        g4: 0,
        g5: 0,
        g6: 0,
        g7: 0x153,
    });
    assert_eq!(format_ip(&a), bytes("2606:50c0:8000:0:0:0:0:153"));
}

#[test]
fn target_literal_or_name() {
    match Target::parse(bytes("127.0.0.1")) {
        Target::Addr(a) => assert_eq!(a, v4(127, 0, 0, 1)),
        Target::Dns(_) => panic!("a literal must not become a name"),
    }
    match Target::parse(bytes("my-nas.local")) {
        Target::Dns(h) => assert_eq!(h, bytes("my-nas.local")),
        Target::Addr(_) => panic!("a name must not become an address"),
    }
    let t = Target::parse(bytes("2606:50c0:8000::153"));
    assert!(matches!(t, Target::Addr(a) if a.is_v6()));
}

#[test]
fn target_text_round_trip() {
    let t = Target::parse(bytes("185.199.108.153"));
    assert_eq!(t.text(), bytes("185.199.108.153"));
    let name = Target::parse(bytes("example.org"));
    assert_eq!(name.text(), bytes("example.org"));
}

#[test]
fn mac_parses_colon_hex() {
    let m = parse_mac(&bytes("26:CE:55:A5:C2:33")).unwrap();
    assert_eq!(
        [m.b0, m.b1, m.b2, m.b3, m.b4, m.b5],
        [0x26, 0xCE, 0x55, 0xA5, 0xC2, 0x33]
    );
    let lower = parse_mac(&bytes("26:ce:55:a5:c2:33")).unwrap();
    assert_eq!(m, lower);
}

#[test]
fn mac_matches_reference_parser() {
    let text = "26:CE:55:A5:C2:33";
    let ours = parse_mac(&bytes(text)).unwrap();
    let theirs: macaddr::MacAddr6 = text.parse().unwrap();
    assert_eq!(
        [ours.b0, ours.b1, ours.b2, ours.b3, ours.b4, ours.b5],
        *theirs.as_bytes().first_chunk::<6>().unwrap()
    );
}

#[test]
fn mac_rejects_malformed_text() {
    for t in [
        "",
        "26:CE:55:A5:C2",
        "26:CE:55:A5:C2:33:44",
        "26-CE-55-A5-C2-33",
        "2G:CE:55:A5:C2:33",
        "26:CE:55:A5:C2:3",
        "26:CE:55:A5:C2:333",
    ] {
        assert_eq!(parse_mac(&bytes(t)), None, "{t}");
    }
}
