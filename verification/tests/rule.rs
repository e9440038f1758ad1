use nexel::rule::domain_ends_with;

#[test]
fn check_suffix() {
    let suffix = "google.com";
    let domain = "clients4.google.com";
    assert_eq!(domain.ends_with(suffix), true);
}

#[test]
fn test_domain_ends_with() {
    let suffix = "google.com";
    let domain = "clients4.google.com";
    assert_eq!(domain_ends_with(&domain.to_string(), &suffix.to_string()), true);

    let suffix = "le.com";
    let domain = "clients4.google.com";
    assert_eq!(domain_ends_with(&domain.to_string(), &suffix.to_string()), false);

    let suffix = "s.com";
    let domain = "javbooks.com";
    assert_eq!(domain_ends_with(&domain.to_string(), &suffix.to_string()), false);
}

#[test]
fn test_rfind() {
    let domain = "clients4.google.com";
    assert_eq!(domain.rfind('.'), Some(15));
}

use nexel::addr::IpAddress;
use nexel::error::Error;
use nexel::rule::{domain, geo, initial, ip, split_rule, Cidr, Routing, RuleKind, RuleStore};

fn store(lines: &[&str]) -> RuleStore {
    let rules: Vec<String> = lines.iter().map(|l| l.to_string()).collect();
    initial(&rules).unwrap()
}

#[test]
fn suffix_rules_respect_label_boundaries() {
    let s = store(&["DOMAIN-SUFFIX,google.com,PROXY"]);
    assert_eq!(domain(&s, "google.com"), Some(Routing::Proxy));
    assert_eq!(domain(&s, "foo.google.com"), Some(Routing::Proxy));
    assert_eq!(domain(&s, "clients4.google.com"), Some(Routing::Proxy));
    assert_eq!(domain(&s, "evil-google.com"), None);
    assert_eq!(domain(&s, "le.com"), None);
    assert_eq!(domain(&s, "google.com.cn"), None);
    assert_eq!(domain(&s, "com"), None);
}

#[test]
fn domain_ends_with_edges() {
    let t = |d: &str, s: &str| domain_ends_with(&d.to_string(), &s.to_string());
    assert!(t("google.com", "google.com"));
    assert!(t("a.google.com", "google.com"));
    assert!(!t(".google.com", ".google.com.x"));
    assert!(t("a.", ""));
    assert!(t("", ""));
    assert!(!t("a", ""));
    assert!(!t("com", "google.com"));
    assert!(t("x.com", "com"));
    assert!(!t("xcom", "com"));
}

#[test]
fn exact_overrides_suffix_and_suffix_overrides_keyword() {
    let s = store(&[
        "DOMAIN-KEYWORD,google,REJECT",
        "DOMAIN-SUFFIX,google.com,PROXY",
        "DOMAIN,www.google.com,DIRECT",
    ]);
    assert_eq!(domain(&s, "www.google.com"), Some(Routing::Direct));
    assert_eq!(domain(&s, "mail.google.com"), Some(Routing::Proxy));
    assert_eq!(domain(&s, "google.org"), Some(Routing::Reject));
    assert_eq!(domain(&s, "example.org"), None);
}

#[test]
fn keyword_is_any_part_of_the_name() {
    let s = store(&["DOMAIN-KEYWORD,oogl,PROXY"]);
    assert_eq!(domain(&s, "google.com"), Some(Routing::Proxy));
    assert_eq!(domain(&s, "oogl"), Some(Routing::Proxy));
    assert_eq!(domain(&s, "ogl.com"), None);
}

#[test]
fn the_first_rule_that_holds_wins_within_a_kind() {
    let s = store(&["DOMAIN-SUFFIX,com,DIRECT", "DOMAIN-SUFFIX,google.com,PROXY"]);
    assert_eq!(domain(&s, "www.google.com"), Some(Routing::Direct));
}

#[test]
fn a_later_rule_with_the_same_pattern_replaces_the_verdict() {
    let s = store(&["DOMAIN,a.b,DIRECT", "DOMAIN,c.d,PROXY", "DOMAIN,a.b,REJECT"]);
    assert_eq!(domain(&s, "a.b"), Some(Routing::Reject));
    assert_eq!(domain(&s, "c.d"), Some(Routing::Proxy));
}

#[test]
fn unknown_kinds_are_passed_over() {
    let s = store(&["GEOIP,CN,DIRECT", "", "FINAL", "MATCH,x,NOT-A-VERDICT", "DOMAIN,a.b,PROXY"]);
    assert_eq!(domain(&s, "a.b"), Some(Routing::Proxy));
    assert_eq!(domain(&s, "CN"), None);
}

#[test]
fn an_unknown_verdict_is_an_error() {
    let r = initial(&vec!["DOMAIN,a.b,MAYBE".to_string()]);
    match r {
        Err(Error::Other(m)) => assert_eq!(m, "unknown routing"),
        _ => panic!("an error was expected"),
    }
    assert!(matches!(initial(&vec!["DOMAIN,a.b".to_string()]), Err(Error::Other(_))));
    assert!(matches!(initial(&vec!["DOMAIN-SUFFIX".to_string()]), Err(Error::Other(_))));
    assert!(matches!(initial(&vec!["IP-CIDR,10.0.0.0/8,direct".to_string()]), Err(Error::Other(_))));
}

#[test]
fn a_network_that_cannot_be_read_is_an_error() {
    assert!(matches!(initial(&vec!["IP-CIDR,10.0.0.0/33,DIRECT".to_string()]), Err(Error::InvalidCidr)));
    assert!(matches!(initial(&vec!["IP-CIDR,nonsense,DIRECT".to_string()]), Err(Error::InvalidCidr)));
    assert!(matches!(initial(&vec!["IP-CIDR6,fc00::/129,DIRECT".to_string()]), Err(Error::InvalidCidr)));
    assert!(matches!(initial(&vec!["IP-CIDR,nonsense,MAYBE".to_string()]), Err(Error::InvalidCidr)));
    assert!(matches!(initial(&vec!["IP-CIDR".to_string()]), Err(Error::InvalidCidr)));
}

#[test]
fn what_follows_a_third_comma_is_not_read() {
    let s = store(&["IP-CIDR,10.0.0.0/8,DIRECT,no-resolve"]);
    assert_eq!(ip(&s, IpAddress::from_octets(10, 1, 2, 3)), Some(Routing::Direct));
}

#[test]
fn fields_of_a_rule() {
    let f = |l: &str| {
        let (a, b, c) = split_rule(l.as_bytes());
        (String::from_utf8(a).unwrap(), String::from_utf8(b).unwrap(), String::from_utf8(c).unwrap())
    };
    assert_eq!(f("A,B,C"), ("A".into(), "B".into(), "C".into()));
    assert_eq!(f("A,B,C,D"), ("A".into(), "B".into(), "C".into()));
    assert_eq!(f("A,B"), ("A".into(), "B".into(), "_".into()));
    assert_eq!(f("A"), ("A".into(), "_".into(), "_".into()));
    assert_eq!(f(""), ("".into(), "_".into(), "_".into()));
    assert_eq!(f("A,,"), ("A".into(), "".into(), "".into()));
    assert_eq!(f(",B,"), ("".into(), "B".into(), "".into()));
    assert_eq!(RuleKind::from_word(b"IP-CIDR6"), Some(RuleKind::IpCidr6));
    assert_eq!(RuleKind::from_word(b"ip-cidr"), None);
}

#[test]
fn check_ip() {
    let s = store(&["IP-CIDR,127.0.0.0/8,DIRECT", "IP-CIDR,192.168.0.0/16,DIRECT"]);
    assert_eq!(ip(&s, IpAddress::from_octets(127, 0, 0, 1)), Some(Routing::Direct));
    assert_eq!(ip(&s, IpAddress::from_octets(192, 168, 1, 1)), Some(Routing::Direct));
    assert_eq!(ip(&s, IpAddress::from_octets(192, 169, 1, 1)), None);
    assert_eq!(ip(&s, IpAddress::from_octets(8, 220, 210, 182)), None);
    assert_eq!(ip(&s, IpAddress::V6(1)), None);
}

#[test]
fn networks_of_each_family_are_asked_about_addresses_of_that_family() {
    let s = store(&["IP-CIDR6,fc00::/7,DIRECT", "IP-CIDR,0.0.0.0/0,PROXY", "IP-CIDR6,10.0.0.0/8,REJECT"]);
    assert_eq!(ip(&s, IpAddress::V6(0xfd00_0000_0000_0000_0000_0000_0000_0001)), Some(Routing::Direct));
    assert_eq!(ip(&s, IpAddress::V6(0xfe00_0000_0000_0000_0000_0000_0000_0001)), None);
    assert_eq!(ip(&s, IpAddress::from_octets(10, 0, 0, 1)), Some(Routing::Proxy));
}

#[test]
fn networks_hold_addresses_by_their_leading_bits() {
    let net = Cidr::V4 { addr: 0xC0A80100, prefix: 24 };
    assert!(net.contains(IpAddress::V4(0xC0A801FF)));
    assert!(!net.contains(IpAddress::V4(0xC0A802FF)));
    assert!(!net.contains(IpAddress::V6(0xC0A801FF)));
    assert!(Cidr::V4 { addr: 1, prefix: 0 }.contains(IpAddress::V4(0xffffffff)));
    assert!(Cidr::V4 { addr: 7, prefix: 32 }.contains(IpAddress::V4(7)));
    assert!(!Cidr::V4 { addr: 7, prefix: 32 }.contains(IpAddress::V4(6)));
    assert!(Cidr::V4 { addr: 0x7f000001, prefix: 8 }.contains(IpAddress::V4(0x7f0000ff)));
    let six = Cidr::V6 { addr: 0xff01 << 112, prefix: 32 };
    assert!(six.contains(IpAddress::V6((0xff01 << 112) | 1)));
    assert!(!six.contains(IpAddress::V6((0xffff << 112) | 1)));
    assert!(Cidr::V6 { addr: 0, prefix: 0 }.contains(IpAddress::V6(u128::MAX)));
    assert!(Cidr::V6 { addr: 5, prefix: 128 }.contains(IpAddress::V6(5)));
    assert!(!Cidr::V6 { addr: 5, prefix: 128 }.contains(IpAddress::V6(4)));
    assert!(!Cidr::V6 { addr: 5, prefix: 128 }.contains(IpAddress::V4(5)));
}

#[test]
fn the_address_of_a_rule_need_not_be_the_network_address() {
    let s = store(&["IP-CIDR,127.0.0.1/8,DIRECT"]);
    assert_eq!(ip(&s, IpAddress::from_octets(127, 0, 0, 255)), Some(Routing::Direct));
}

#[test]
fn check_ip_2() {
    let s = store(&["IP-CIDR,127.0.0.0/8,DIRECT", "IP-CIDR,192.168.0.0/16,DIRECT"]);
    let addr = IpAddress::from_octets(8, 220, 210, 182);
    assert_eq!(ip(&s, addr).unwrap_or(geo(Some("SG"))), Routing::Proxy);
    assert_eq!(ip(&s, addr).unwrap_or(geo(None)), Routing::Proxy);
}

#[test]
fn the_country_decides_where_no_rule_does() {
    assert_eq!(geo(None), Routing::Proxy);
    assert_eq!(geo(Some("US")), Routing::Proxy);
    assert_eq!(geo(Some("CN")), Routing::Direct);
    assert_eq!(geo(Some("cn")), Routing::Proxy);
    assert_eq!(geo(Some("CNX")), Routing::Proxy);
    assert_eq!(geo(Some("_")), Routing::Proxy);
}

#[test]
fn verdict_words() {
    assert!(matches!(Routing::try_from(b"DIRECT"), Ok(Routing::Direct)));
    assert!(matches!(Routing::try_from(b"PROXY"), Ok(Routing::Proxy)));
    assert!(matches!(Routing::try_from(b"REJECT"), Ok(Routing::Reject)));
    assert!(matches!(Routing::try_from(b"_"), Err(Error::Other(_))));
    assert!(matches!(Routing::try_from(b""), Err(Error::Other(_))));
}

#[test]
fn an_empty_store_knows_nothing() {
    let s = RuleStore::new();
    assert_eq!(domain(&s, "a.b"), None);
    assert_eq!(ip(&s, IpAddress::V4(1)), None);
}

#[test]
fn rules_are_added_one_by_one() {
    let s = RuleStore::new()
        .add_net(RuleKind::IpCidr, Cidr::V4 { addr: 0x0a000000, prefix: 8 }, Routing::Direct)
        .add_net(RuleKind::IpCidr6, Cidr::V6 { addr: 1, prefix: 128 }, Routing::Reject)
        .add_net(RuleKind::IpCidr, Cidr::V4 { addr: 0x0a000000, prefix: 8 }, Routing::Proxy)
        .add_net(RuleKind::Domain, Cidr::V4 { addr: 0, prefix: 0 }, Routing::Reject)
        .add_rule(RuleKind::DomainSuffix, b"cc".to_vec(), Routing::Proxy)
        .add_rule(RuleKind::IpCidr, b"org".to_vec(), Routing::Reject);
    assert_eq!(ip(&s, IpAddress::from_octets(10, 9, 8, 7)), Some(Routing::Proxy));
    assert_eq!(ip(&s, IpAddress::from_octets(11, 9, 8, 7)), None);
    assert_eq!(ip(&s, IpAddress::V6(1)), Some(Routing::Reject));
    assert_eq!(domain(&s, "nexel.cc"), Some(Routing::Proxy));
    assert_eq!(domain(&s, "org"), None);
}

#[test]
fn a_prefix_longer_than_an_address_holds_nothing() {
    assert!(!Cidr::V4 { addr: 7, prefix: 33 }.contains(IpAddress::V4(7)));
    assert!(!Cidr::V6 { addr: 7, prefix: 129 }.contains(IpAddress::V6(7)));
    let s = RuleStore::new().add_net(
        RuleKind::IpCidr,
        Cidr::V4 { addr: 7, prefix: 200 },
        Routing::Direct,
    );
    assert_eq!(ip(&s, IpAddress::V4(7)), None);
}

#[test]
fn http_connect_scenario_is_routed_through_the_proxy() {
    let s = store(&["DOMAIN-SUFFIX,nexel.cc,PROXY"]);
    assert_eq!(domain(&s, "nexel.cc"), Some(Routing::Proxy));
    assert_eq!(domain(&s, "www.nexel.cc"), Some(Routing::Proxy));
    assert_eq!(domain(&s, "xnexel.cc"), None);
}
