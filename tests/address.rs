use prismlauncher::address::{resolve, Address, GameMode, Hostname};

fn host(text: &str) -> Hostname {
    match resolve(true, text.to_string()) {
        GameMode::MultiPlayer(Address { hostname, port }) => {
            assert_eq!(port, 25565);
            hostname
        }
        GameMode::SinglePlayer { .. } => panic!("multiplayer text gave a world"),
    }
}

fn is_dns(h: &Hostname, text: &str) -> bool {
    matches!(h, Hostname::Dns(n) if n == text)
}

#[test]
fn ipv4_literal_resolves_to_ipv4() {
    assert!(matches!(host("192.168.1.5"), Hostname::Ipv4([192, 168, 1, 5])));
    assert!(matches!(host("0.0.0.0"), Hostname::Ipv4([0, 0, 0, 0])));
    assert!(matches!(host("255.255.255.255"), Hostname::Ipv4([255, 255, 255, 255])));
}

#[test]
fn malformed_ipv4_is_a_dns_name() {
    for t in ["01.2.3.4", "256.1.1.1", "1.2.3", "1.2.3.4.5", "1..2.3", "1.2.3.4 ", "", "a.b.c.d"] {
        assert!(is_dns(&host(t), t), "{t}");
    }
}

#[test]
fn ipv6_literal_resolves_to_ipv6() {
    assert!(matches!(host("::1"), Hostname::Ipv6([0, 0, 0, 0, 0, 0, 0, 1])));
    assert!(matches!(host("::"), Hostname::Ipv6([0, 0, 0, 0, 0, 0, 0, 0])));
    assert!(matches!(
        host("2001:db8::8a2e:370:7334"),
        Hostname::Ipv6([0x2001, 0xdb8, 0, 0, 0, 0x8a2e, 0x370, 0x7334])
    ));
    assert!(matches!(host("1:2:3:4:5:6:7:8"), Hostname::Ipv6([1, 2, 3, 4, 5, 6, 7, 8])));
    assert!(matches!(
        host("::ffff:1.2.3.4"),
        Hostname::Ipv6([0, 0, 0, 0, 0, 0xffff, 0x0102, 0x0304])
    ));
    assert!(matches!(host("1:2:3:4:5:6:1.2.3.4"), Hostname::Ipv6([1, 2, 3, 4, 5, 6, 0x0102, 0x0304])));
    assert!(matches!(host("1:2:3:4:5:6:7::"), Hostname::Ipv6([1, 2, 3, 4, 5, 6, 7, 0])));
    assert!(matches!(host("ABCD::eF"), Hostname::Ipv6([0xabcd, 0, 0, 0, 0, 0, 0, 0xef])));
}

#[test]
fn malformed_ipv6_is_a_dns_name() {
    for t in [
        "1::2::3",
        "12345::",
        ":1:2:3:4:5:6:7",
        "1:2:3:4:5:6:7",
        "1:2:3:4:5:6:7:8:9",
        "1:2:3:4:5:6:7:8::",
        "::1.2.3.4:5",
        "1:2:3:4:5:6:7::1.2.3.4",
        ":::",
        "1:",
        "g::",
    ] {
        assert!(is_dns(&host(t), t), "{t}");
    }
}

#[test]
fn other_text_is_a_dns_name_verbatim() {
    assert!(is_dns(&host("example.com"), "example.com"));
    assert!(is_dns(&host("not a host!"), "not a host!"));
    assert!(is_dns(&host("mc.example.org:25566"), "mc.example.org:25566"));
}

#[test]
fn singleplayer_text_is_the_world_name() {
    for t in ["myworld", "192.168.1.5", "::1", ""] {
        assert!(matches!(resolve(false, t.to_string()), GameMode::SinglePlayer { world_name } if world_name == t));
    }
}

#[test]
fn resolving_twice_gives_equal_results() {
    for t in ["10.0.0.1", "fe80::1", "example.com"] {
        let a = host(t);
        let b = host(t);
        assert_eq!(format!("{:?}", a), format!("{:?}", b));
    }
}

#[test]
fn hostnames_render_in_standard_form() {
    assert_eq!(Hostname::Ipv4([192, 168, 1, 5]).to_string(), "192.168.1.5");
    assert_eq!(Hostname::Dns("example.com".to_string()).to_string(), "example.com");
    assert_eq!(Hostname::Ipv6([0; 8]).to_string(), "::");
    assert_eq!(Hostname::Ipv6([0, 0, 0, 0, 0, 0, 0, 1]).to_string(), "::1");
    assert_eq!(Hostname::Ipv6([1, 0, 0, 0, 0, 0, 0, 0]).to_string(), "1::");
    assert_eq!(
        Hostname::Ipv6([0x2001, 0xdb8, 0, 0, 0, 0x8a2e, 0x370, 0x7334]).to_string(),
        "2001:db8::8a2e:370:7334"
    );
    assert_eq!(Hostname::Ipv6([1, 0, 0, 2, 0, 0, 0, 3]).to_string(), "1:0:0:2::3");
    assert_eq!(Hostname::Ipv6([1, 0, 0, 2, 0, 0, 3, 4]).to_string(), "1::2:0:0:3:4");
    assert_eq!(Hostname::Ipv6([1, 0, 2, 3, 4, 5, 6, 7]).to_string(), "1:0:2:3:4:5:6:7");
    assert_eq!(
        Hostname::Ipv6([0, 0, 0, 0, 0, 0xffff, 0x0102, 0x0304]).to_string(),
        "::ffff:1.2.3.4"
    );
    assert_eq!(Hostname::Ipv6([0xabcd, 0xef, 0, 0, 0, 0, 0, 0xffff]).to_string(), "abcd:ef::ffff");
}

#[test]
fn addresses_render_with_port() {
    let a = Address { hostname: Hostname::Ipv4([127, 0, 0, 1]), port: 25565 };
    assert_eq!(a.to_string(), "127.0.0.1:25565");
    let d = Address::default();
    assert_eq!(d.to_string(), "localhost:25565");
    let z = Address { hostname: Hostname::Ipv6([0, 0, 0, 0, 0, 0, 0, 1]), port: 0 };
    assert_eq!(z.to_string(), "::1:0");
}
