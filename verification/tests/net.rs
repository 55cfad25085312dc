use aesgcm_proxy::endpoint::{check_endpoint, validate_endpoint, Host, Rejection, Url, UrlParts};
use aesgcm_proxy::net::{
    is_ip_safe, BlockedIps, IpAddr, SafeResolver, SocketAddr, NO_PUBLIC_ADDRESS,
};

fn v4_is_safe(text: &str) -> bool {
    let list: Vec<u8> = text.split('.').map(|o| o.parse().unwrap()).collect();
    is_ip_safe(IpAddr::V4([list[0], list[1], list[2], list[3]]))
}

fn v6(groups: [u16; 8]) -> [u8; 16] {
    let mut o = [0u8; 16];
    for (i, group) in groups.iter().enumerate() {
        o[2 * i..2 * i + 2].copy_from_slice(&group.to_be_bytes());
    }
    o
}

fn addr(a: u8, b: u8, c: u8, d: u8) -> SocketAddr {
    SocketAddr { ip: IpAddr::V4([a, b, c, d]), port: 443, flow_info: 0, scope_id: 0 }
}

fn octets(addr: &SocketAddr) -> Vec<u8> {
    match addr.ip {
        IpAddr::V4(o) => o.to_vec(),
        IpAddr::V6(o) => o.to_vec(),
    }
}

#[test]
fn edges_of_the_blocked_ipv4_networks() {
    let blocked = [
        "0.0.0.0", "0.255.255.255", "10.0.0.0", "10.255.255.255", "100.64.0.0",
        "100.127.255.255", "127.0.0.1", "127.255.255.255", "169.254.0.0", "169.254.255.255",
        "172.16.0.0", "172.31.255.255", "192.0.2.0", "192.0.2.255", "192.168.0.0",
        "192.168.255.255", "198.51.100.0", "198.51.100.255", "203.0.113.0", "203.0.113.255",
        "224.0.0.0", "239.255.255.255", "255.255.255.255",
    ];
    for text in blocked {
        assert!(!v4_is_safe(text), "{text}");
    }
    let open = [
        "1.0.0.0", "8.8.8.8", "9.255.255.255", "11.0.0.0", "100.63.255.255", "100.128.0.0",
        "126.255.255.255", "128.0.0.0", "169.253.255.255", "169.255.0.0", "172.15.255.255",
        "172.32.0.0", "192.0.1.255", "192.0.3.0", "192.167.255.255", "192.169.0.0",
        "198.51.99.255", "198.51.101.0", "203.0.112.255", "203.0.114.0", "223.255.255.255",
        "240.0.0.0", "255.255.255.254",
    ];
    for text in open {
        assert!(v4_is_safe(text), "{text}");
    }
}

#[test]
fn edges_of_the_blocked_ipv6_networks() {
    let blocked = [
        [0, 0, 0, 0, 0, 0, 0, 0],
        [0, 0, 0, 0, 0, 0, 0, 0x1],
        [0, 0, 0, 0, 0, 0, 0x808, 0x808],
        [0, 0, 0, 0, 0, 0xffff, 0x808, 0x808],
        [0x64, 0xff9b, 0, 0, 0, 0, 0x808, 0x808],
        [0x64, 0xff9b, 0x1, 0, 0, 0, 0, 0x1],
        [0x64, 0xff9b, 0x1, 0xffff, 0, 0, 0, 0x1],
        [0xfc00, 0, 0, 0, 0, 0, 0, 0],
        [0xfdff, 0, 0, 0, 0, 0, 0, 0x1],
        [0xfe80, 0, 0, 0, 0, 0, 0, 0x1],
        [0xfebf, 0, 0, 0, 0, 0, 0, 0x1],
        [0xff00, 0, 0, 0, 0, 0, 0, 0],
        [0xff02, 0, 0, 0, 0, 0, 0, 0x1],
    ];
    for groups in blocked {
        assert!(!is_ip_safe(IpAddr::V6(v6(groups))), "{groups:x?}");
    }
    let open = [
        [0x2001, 0x4860, 0x4860, 0, 0, 0, 0, 0x8888],
        [0x2606, 0x4700, 0, 0, 0, 0, 0, 0x1111],
        [0, 0, 0, 0, 0, 0x1, 0, 0],
        [0, 0, 0, 0, 0, 0xfffe, 0x808, 0x808],
        [0x64, 0xff9a, 0, 0, 0, 0, 0, 0x1],
        [0x64, 0xff9b, 0, 0x1, 0, 0, 0, 0x1],
        [0x64, 0xff9b, 0x2, 0, 0, 0, 0, 0x1],
        [0xfbff, 0, 0, 0, 0, 0, 0, 0x1],
        [0xfe00, 0, 0, 0, 0, 0, 0, 0x1],
        [0xfe7f, 0, 0, 0, 0, 0, 0, 0x1],
        [0xfec0, 0, 0, 0, 0, 0, 0, 0x1],
    ];
    for groups in open {
        assert!(is_ip_safe(IpAddr::V6(v6(groups))), "{groups:x?}");
    }
}

#[test]
fn ipv4_check_agrees_with_the_octet_rules() {
    for a in 0u8..=255 {
        for b in [0u8, 15, 16, 31, 32, 51, 63, 64, 127, 128, 168, 254, 255] {
            for c in [0u8, 2, 100, 113, 255] {
                for d in [0u8, 1, 255] {
                    let expected = a != 0
                        && a != 10
                        && a != 127
                        && !(a == 100 && (b & 0xc0) == 64)
                        && !(a == 169 && b == 254)
                        && !(a == 172 && (b & 0xf0) == 16)
                        && !(a == 192 && b == 168)
                        && !(a == 192 && b == 0 && c == 2)
                        && !(a == 198 && b == 51 && c == 100)
                        && !(a == 203 && b == 0 && c == 113)
                        && (a & 0xf0) != 224
                        && !(a == 255 && b == 255 && c == 255 && d == 255);
                    assert_eq!(is_ip_safe(IpAddr::V4([a, b, c, d])), expected);
                }
            }
        }
    }
}

#[test]
fn embedded_ipv4_addresses_are_refused() {
    let forms = [
        [0, 0, 0, 0, 0, 0, 0, 0],
        [0, 0, 0, 0, 0, 0xffff, 0, 0],
        [0x64, 0xff9b, 0, 0, 0, 0, 0, 0],
    ];
    for form in forms {
        let mut o = v6(form);
        o[12..].copy_from_slice(&[93, 184, 216, 34]);
        assert!(!is_ip_safe(IpAddr::V6(o)));
    }
    assert!(is_ip_safe(IpAddr::V4([93, 184, 216, 34])));
}

#[test]
fn resolver_keeps_the_public_addresses_in_order() {
    let found = vec![addr(10, 0, 0, 1), addr(8, 8, 8, 8), addr(127, 0, 0, 1), addr(1, 1, 1, 1)];
    let safe = SafeResolver.resolve(found).unwrap();
    let list: Vec<Vec<u8>> = safe.iter().map(octets).collect();
    assert_eq!(list, vec![vec![8, 8, 8, 8], vec![1, 1, 1, 1]]);
    assert_eq!(safe[0].port, 443);
}

#[test]
fn resolver_refuses_a_name_without_public_addresses() {
    let blocked = SafeResolver.resolve(vec![addr(10, 0, 0, 1), addr(127, 0, 0, 1)]).unwrap_err();
    let list: Vec<Vec<u8>> = blocked.iter().map(octets).collect();
    assert_eq!(list, vec![vec![10, 0, 0, 1], vec![127, 0, 0, 1]]);
    assert!(SafeResolver.resolve(Vec::new()).unwrap_err().is_empty());
    assert_eq!(NO_PUBLIC_ADDRESS, "endpoint resolves only to non-public addresses");
}

#[test]
fn blocked_addresses_are_listed_with_commas() {
    let none: Vec<String> = Vec::new();
    assert_eq!(BlockedIps(&none).to_text(), "");
    let one = vec!["10.0.0.1".to_owned()];
    assert_eq!(BlockedIps(&one).to_text(), "10.0.0.1");
    let three = vec!["10.0.0.1".to_owned(), "::1".to_owned(), "127.0.0.1".to_owned()];
    assert_eq!(BlockedIps(&three).to_text(), "10.0.0.1, ::1, 127.0.0.1");
}

#[test]
fn ordinary_endpoints_are_accepted_in_normal_form() {
    assert_eq!(
        validate_endpoint("https://UP.Example:443/a/../UP?token=1").unwrap().as_str(),
        "https://up.example/UP?token=1"
    );
    assert_eq!(validate_endpoint("http://8.8.8.8").unwrap().as_str(), "http://8.8.8.8/");
    assert_eq!(
        validate_endpoint("https://[2606:4700::1111]/x").unwrap().as_str(),
        "https://[2606:4700::1111]/x"
    );
}

#[test]
fn validating_an_accepted_endpoint_again_changes_nothing() {
    for text in [
        "HTTPS:\\\\UP.Example:443\\a\\..\\%2E\\b\tc d?q='x'#f g ",
        "http://b\u{fc}cher.example/\u{20ac}",
        "http://xn--bcher-kva.example:8080//x//..?",
        "http:0x08080808",
        "https://[2606:4700:0:0:0:0:0:1111]:443",
        "https://@up.example./.%2e/",
    ] {
        let once = validate_endpoint(text).unwrap();
        let twice = validate_endpoint(once.as_str()).unwrap();
        assert_eq!(once.as_str(), twice.as_str());
    }
}

#[test]
fn long_host_names_of_readable_labels_can_be_validated_again() {
    let international = vec!["b\u{fc}cher"; 500].join(".");
    let plain = "a".repeat(5000);
    for name in [international, plain] {
        let once = validate_endpoint(&format!("https://{name}/")).unwrap();
        assert!(once.as_str().len() > 5000);
        let twice = validate_endpoint(once.as_str()).unwrap();
        assert_eq!(once.as_str(), twice.as_str());
    }
}

#[test]
fn a_label_may_come_out_too_long_to_be_read_again() {
    let label: String = (0..990u32).filter_map(|i| char::from_u32(0x4e00 + 20 * i)).collect();
    let once = validate_endpoint(&format!("https://{label}/")).unwrap();
    assert!(validate_endpoint(once.as_str()).is_err());
}

#[test]
fn every_rejection_has_its_endpoint() {
    match validate_endpoint("not a url").unwrap_err() {
        Rejection::InvalidUrl(why) => assert_eq!(why, "relative URL without a base"),
        other => panic!("{other:?}"),
    }
    match validate_endpoint("ftp://up.example/").unwrap_err() {
        Rejection::Scheme(scheme) => assert_eq!(scheme, "ftp"),
        other => panic!("{other:?}"),
    }
    assert!(matches!(
        validate_endpoint("https://user@up.example/").unwrap_err(),
        Rejection::Credentials
    ));
    assert!(matches!(
        validate_endpoint("https://:secret@up.example/").unwrap_err(),
        Rejection::Credentials
    ));
    match validate_endpoint("http://0x7f.1/").unwrap_err() {
        Rejection::NonPublicIp(IpAddr::V4(o)) => assert_eq!(o, [127, 0, 0, 1]),
        other => panic!("{other:?}"),
    }
    assert!(matches!(
        validate_endpoint("https://[::ffff:8.8.8.8]/").unwrap_err(),
        Rejection::NonPublicIp(IpAddr::V6(_))
    ));
    let parts = UrlParts {
        href: "http:".to_owned(),
        scheme: "http".to_owned(),
        username: String::new(),
        password: None,
        host: None,
    };
    assert!(matches!(check_endpoint(Ok(parts)).unwrap_err(), Rejection::NoHost));
}

#[test]
fn checks_on_an_endpoint_come_in_their_order() {
    let parts = UrlParts {
        href: "ftp://u:p@127.0.0.1/".to_owned(),
        scheme: "ftp".to_owned(),
        username: "u".to_owned(),
        password: Some("p".to_owned()),
        host: Some(Host::Ip(IpAddr::V4([127, 0, 0, 1]))),
    };
    assert!(matches!(check_endpoint(Ok(parts)).unwrap_err(), Rejection::Scheme(_)));
    let parts = UrlParts {
        href: "http://:@127.0.0.1/".to_owned(),
        scheme: "http".to_owned(),
        username: String::new(),
        password: Some(String::new()),
        host: Some(Host::Ip(IpAddr::V4([127, 0, 0, 1]))),
    };
    assert!(matches!(check_endpoint(Ok(parts)).unwrap_err(), Rejection::Credentials));
    let parts = UrlParts {
        href: "https://up.example/x".to_owned(),
        scheme: "https".to_owned(),
        username: String::new(),
        password: None,
        host: Some(Host::Domain("up.example".to_owned())),
    };
    assert_eq!(check_endpoint(Ok(parts)).unwrap().as_str(), "https://up.example/x");
}

#[test]
fn url_parse_reports_what_is_wrong() {
    assert_eq!(Url::parse("http://").unwrap_err(), "empty host");
    assert_eq!(Url::parse("HTTP://A").unwrap().as_str(), "http://a/");
    assert_eq!(Url::parse("http://a/").unwrap().copy().as_str(), "http://a/");
}
