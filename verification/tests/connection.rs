use nexel::addr::IpAddress;
use nexel::connection::{Action, Connection, Event, ProxyCfg, Stage};
use nexel::error::{Error, IoKind};
use nexel::rule::{initial, RuleStore};

fn store(lines: &[&str]) -> RuleStore {
    let rules: Vec<String> = lines.iter().map(|l| l.to_string()).collect();
    initial(&rules).unwrap()
}

fn client(cert: &str) -> Connection {
    Connection::new(Some(ProxyCfg::new("nexel.cc", 6789, cert)))
}

fn read(reply: &[u8]) -> String {
    format!("{:?}", Action::Read { reply: reply.to_vec() })
}

fn show(a: &Action) -> String {
    format!("{:?}", a)
}

#[test]
fn socks5_connect_direct_scenario() {
    let rules = store(&["IP-CIDR,192.168.0.0/16,DIRECT"]);
    let mut conn = client("");
    assert_eq!(conn.stage(), Stage::Idle);
    assert_eq!(show(&conn.run()), read(&[]));
    let a = conn.step(&rules, Event::Data(vec![0x05, 0x01, 0x00]));
    assert_eq!(show(&a), read(&[0x05, 0x00]));
    let a = conn.step(
        &rules,
        Event::Data(vec![0x05, 0x01, 0x00, 0x01, 0xC0, 0xA8, 0x01, 0x01, 0x22, 0xC3]),
    );
    match a {
        Action::DialDirect { domain, ip, port } => {
            assert_eq!(domain, None);
            assert_eq!(ip, Some(IpAddress::from_octets(192, 168, 1, 1)));
            assert_eq!(port, 8899);
        }
        other => panic!("{:?}", other),
    }
    assert_eq!(conn.stage(), Stage::DialingDirect);
    match conn.step(&rules, Event::Connected) {
        Action::Splice { reply } => {
            assert_eq!(reply, vec![0x05, 0x00, 0x00, 0x01, 0xC0, 0xA8, 0x01, 0x01, 0x22, 0xC3])
        }
        other => panic!("{:?}", other),
    }
    assert_eq!(conn.stage(), Stage::Done);
}

#[test]
fn http_connect_through_the_proxy_scenario() {
    let rules = store(&["DOMAIN-SUFFIX,nexel.cc,PROXY"]);
    let text = "CONNECT nexel.cc:443 HTTP/1.1\r\nHost: nexel.cc:443\r\n\r\n";
    let mut conn = client("");
    conn.run();
    match conn.step(&rules, Event::Data(text.as_bytes().to_vec())) {
        Action::DialProxy { addr, host, cert } => {
            assert_eq!(addr, "nexel.cc:6789");
            assert_eq!(host, "nexel.cc");
            assert_eq!(cert, "");
        }
        other => panic!("{:?}", other),
    }
    assert_eq!(conn.stage(), Stage::DialingProxy);
    match conn.step(&rules, Event::Connected) {
        Action::Forward { raw } => assert_eq!(raw, text.as_bytes()),
        other => panic!("{:?}", other),
    }
    assert_eq!(conn.stage(), Stage::Done);
}

#[test]
fn socks5_bind_scenario() {
    let rules = RuleStore::new();
    let mut conn = client("");
    conn.run();
    assert_eq!(show(&conn.step(&rules, Event::Data(vec![0x05, 0x01, 0x00]))), read(&[5, 0]));
    match conn.step(&rules, Event::Data(vec![0x05, 0x02, 0x00, 0x01, 0, 0, 0, 0, 0, 0])) {
        Action::Close { reply, error } => {
            assert_eq!(reply, vec![0x05, 0x01, 0x00, 0x01, 0, 0, 0, 0, 0, 0]);
            assert!(matches!(error, Some(Error::NotImplemented)));
        }
        other => panic!("{:?}", other),
    }
    assert_eq!(conn.stage(), Stage::Done);
}

#[test]
fn malformed_first_byte_scenario() {
    let rules = RuleStore::new();
    let mut conn = client("");
    conn.run();
    match conn.step(&rules, Event::Data(vec![0xFF])) {
        Action::Close { reply, error } => {
            assert_eq!(reply, vec![0x05, 0x01, 0x00, 0x01, 0, 0, 0, 0, 0, 0]);
            assert!(matches!(error, Some(Error::VnUnsupported(0xFF))));
        }
        other => panic!("{:?}", other),
    }
}

#[test]
fn tls_handshake_timeout_scenario() {
    let rules = store(&["DOMAIN,nexel.cc,PROXY"]);
    let mut conn = client("certificate.crt");
    conn.run();
    match conn.step(&rules, Event::Data(b"CONNECT nexel.cc:443 HTTP/1.1\r\n\r\n".to_vec())) {
        Action::DialProxy { addr, host, cert } => {
            assert_eq!(addr, "nexel.cc:6789");
            assert_eq!(host, "nexel.cc");
            assert_eq!(cert, "certificate.crt");
        }
        other => panic!("{:?}", other),
    }
    match conn.step(&rules, Event::TlsFailed(Error::ConnectTimeout)) {
        Action::Close { reply, error } => {
            assert!(reply.is_empty());
            assert!(matches!(error, Some(Error::ConnectTimeout)));
        }
        other => panic!("{:?}", other),
    }
    assert_eq!(conn.stage(), Stage::Done);
}

#[test]
fn a_server_reads_a_request_first_and_connects_whatever_the_rules_say() {
    let rules = store(&["DOMAIN,nexel.cc,PROXY", "IP-CIDR,0.0.0.0/0,REJECT"]);
    let mut conn = Connection::new(None);
    assert_eq!(show(&conn.run_on_server()), read(&[]));
    match conn.step(&rules, Event::Data(vec![5, 1, 0, 3, 8, b'n', b'e', b'x', b'e', b'l', b'.', b'c', b'c', 1, 0xbb])) {
        Action::DialDirect { domain, ip, port } => {
            assert_eq!(domain, Some("nexel.cc".to_string()));
            assert_eq!(ip, None);
            assert_eq!(port, 443);
        }
        other => panic!("{:?}", other),
    }
    let mut conn = Connection::new(None);
    conn.run_on_server();
    assert!(matches!(
        conn.step(&rules, Event::Data(vec![4, 1, 0, 80, 1, 2, 3, 4, 0])),
        Action::DialDirect { .. }
    ));
    match conn.step(&rules, Event::Connected) {
        Action::Splice { reply } => assert_eq!(reply, vec![0, 0x5a, 0, 80, 1, 2, 3, 4]),
        other => panic!("{:?}", other),
    }
}

#[test]
fn a_name_without_a_rule_is_resolved_and_its_address_located() {
    let rules = store(&["IP-CIDR,10.0.0.0/8,DIRECT"]);
    let text = b"CONNECT example.org:443 HTTP/1.1\r\n\r\n".to_vec();

    let mut conn = client("");
    conn.run();
    match conn.step(&rules, Event::Data(text.clone())) {
        Action::Resolve { domain } => assert_eq!(domain, "example.org"),
        other => panic!("{:?}", other),
    }
    assert_eq!(conn.stage(), Stage::Resolving);
    match conn.step(&rules, Event::Resolved(Some(IpAddress::from_octets(10, 1, 1, 1)))) {
        Action::DialDirect { domain, ip, port } => {
            assert_eq!(domain, Some("example.org".to_string()));
            assert_eq!(ip, None);
            assert_eq!(port, 443);
        }
        other => panic!("{:?}", other),
    }
    match conn.step(&rules, Event::Connected) {
        Action::Splice { reply } => {
            assert_eq!(reply, b"HTTP/1.1 200 Connection Established\r\n\r\n".to_vec())
        }
        other => panic!("{:?}", other),
    }

    let mut conn = client("");
    conn.run();
    conn.step(&rules, Event::Data(text.clone()));
    match conn.step(&rules, Event::Resolved(Some(IpAddress::from_octets(8, 8, 8, 8)))) {
        Action::Locate { ip } => assert_eq!(ip, IpAddress::from_octets(8, 8, 8, 8)),
        other => panic!("{:?}", other),
    }
    assert_eq!(conn.stage(), Stage::Locating);
    assert!(matches!(
        conn.step(&rules, Event::Country(Some("CN".to_string()))),
        Action::DialDirect { .. }
    ));

    let mut conn = client("");
    conn.run();
    conn.step(&rules, Event::Data(text.clone()));
    conn.step(&rules, Event::Resolved(Some(IpAddress::from_octets(8, 8, 8, 8))));
    assert!(matches!(
        conn.step(&rules, Event::Country(Some("US".to_string()))),
        Action::DialProxy { .. }
    ));

    let mut conn = client("");
    conn.run();
    conn.step(&rules, Event::Data(text.clone()));
    conn.step(&rules, Event::Resolved(Some(IpAddress::from_octets(8, 8, 8, 8))));
    assert!(matches!(conn.step(&rules, Event::Country(None)), Action::DialProxy { .. }));

    let mut conn = client("");
    conn.run();
    conn.step(&rules, Event::Data(text.clone()));
    assert!(matches!(conn.step(&rules, Event::Resolved(None)), Action::DialProxy { .. }));

    let mut conn = client("");
    conn.run();
    conn.step(&rules, Event::Data(text));
    match conn.step(&rules, Event::ResolveFailed(IoKind::Other)) {
        Action::DialProxy { addr, host, cert } => {
            assert_eq!(addr, "nexel.cc:6789");
            assert_eq!(host, "nexel.cc");
            assert_eq!(cert, "");
        }
        other => panic!("{:?}", other),
    }
    assert_eq!(conn.stage(), Stage::DialingProxy);
}

#[test]
fn a_rejected_destination_gets_a_failure_reply() {
    let rules = store(&["IP-CIDR,192.168.0.0/16,REJECT"]);
    let mut conn = client("");
    conn.run();
    conn.step(&rules, Event::Data(vec![5, 1, 0]));
    match conn.step(&rules, Event::Data(vec![5, 1, 0, 1, 192, 168, 1, 1, 0, 80])) {
        Action::Close { reply, error } => {
            assert_eq!(reply, vec![5, 1, 0, 1, 0, 0, 0, 0, 0, 0]);
            assert!(matches!(error, Some(Error::Rejected)));
        }
        other => panic!("{:?}", other),
    }
}

#[test]
fn a_refused_connection_is_reported_in_the_dialect_of_the_request() {
    let rules = store(&["IP-CIDR,1.0.0.0/8,DIRECT"]);
    let mut conn = client("");
    conn.run();
    conn.step(&rules, Event::Data(vec![4, 1, 0, 80, 1, 2, 3, 4, 0]));
    match conn.step(&rules, Event::ConnectFailed(Error::IoErr(IoKind::ConnectionRefused))) {
        Action::Close { reply, error } => {
            assert_eq!(reply, vec![0, 0x5b, 0, 0, 0, 0, 0, 0]);
            assert!(matches!(error, Some(Error::IoErr(IoKind::ConnectionRefused))));
        }
        other => panic!("{:?}", other),
    }
    let mut conn = client("");
    conn.run();
    conn.step(&rules, Event::Data(vec![4, 1, 0, 80, 1, 2, 3, 4, 0]));
    match conn.step(&rules, Event::ConnectFailed(Error::ConnectTimeout)) {
        Action::Close { reply, .. } => assert_eq!(reply, vec![0, 0x5c, 0, 0, 0, 0, 0, 0]),
        other => panic!("{:?}", other),
    }
}

#[test]
fn the_end_of_the_stream() {
    let rules = RuleStore::new();
    let mut conn = client("");
    conn.run();
    match conn.step(&rules, Event::Eof) {
        Action::Close { reply, error } => {
            assert!(reply.is_empty());
            assert!(error.is_none());
        }
        other => panic!("{:?}", other),
    }
    let mut conn = client("");
    conn.run();
    assert_eq!(show(&conn.step(&rules, Event::Data(vec![5]))), read(&[]));
    match conn.step(&rules, Event::Eof) {
        Action::Close { reply, error } => {
            assert_eq!(reply, vec![5, 5, 0, 1, 0, 0, 0, 0, 0, 0]);
            assert!(matches!(error, Some(Error::IoErr(IoKind::ConnectionReset))));
        }
        other => panic!("{:?}", other),
    }
}

#[test]
fn a_read_that_times_out_ends_the_connection() {
    let rules = RuleStore::new();
    let mut conn = client("");
    conn.run();
    match conn.step(&rules, Event::ReadTimeout) {
        Action::Close { reply, error } => {
            assert_eq!(reply, vec![5, 1, 0, 1, 0, 0, 0, 0, 0, 0]);
            assert!(matches!(error, Some(Error::ReadTimeout)));
        }
        other => panic!("{:?}", other),
    }
}

#[test]
fn an_event_out_of_turn_ends_the_connection() {
    let rules = RuleStore::new();
    let mut conn = client("");
    assert!(matches!(
        conn.step(&rules, Event::Connected),
        Action::Close { error: Some(Error::Unexpected), .. }
    ));
    let mut conn = client("");
    conn.run();
    assert!(matches!(
        conn.step(&rules, Event::Country(None)),
        Action::Close { error: Some(Error::Unexpected), .. }
    ));
    assert!(matches!(
        conn.step(&rules, Event::Data(vec![5, 1, 0])),
        Action::Close { error: Some(Error::Unexpected), .. }
    ));
}

#[test]
fn frames_arrive_in_pieces() {
    let rules = store(&["IP-CIDR,192.168.0.0/16,DIRECT"]);
    let mut conn = client("");
    conn.run();
    assert_eq!(show(&conn.step(&rules, Event::Data(vec![5]))), read(&[]));
    assert_eq!(show(&conn.step(&rules, Event::Data(vec![1]))), read(&[]));
    assert_eq!(show(&conn.step(&rules, Event::Data(vec![0]))), read(&[5, 0]));
    assert_eq!(show(&conn.step(&rules, Event::Data(vec![5, 1, 0, 1, 192]))), read(&[]));
    assert!(matches!(
        conn.step(&rules, Event::Data(vec![168, 1, 1, 0, 80])),
        Action::DialDirect { .. }
    ));
}

#[test]
fn each_connection_has_an_identifier() {
    let a = Connection::new(None);
    let b = Connection::new(None);
    assert!(!a.id().is_empty());
    assert_ne!(a.id(), b.id());
}

#[test]
fn a_bad_http_request_gets_an_http_answer() {
    let rules = RuleStore::new();
    let mut conn = client("");
    conn.run();
    match conn.step(&rules, Event::Data(b"CONNECT nexel.cc:443 HTTP/1.0\r\n\r\n".to_vec())) {
        Action::Close { reply, error } => {
            assert_eq!(reply, b"HTTP/1.1 400 Connection Failed\r\n\r\n".to_vec());
            assert!(matches!(error, Some(Error::BadRequest)));
        }
        other => panic!("{:?}", other),
    }
    let mut conn = client("");
    conn.run();
    match conn.step(&rules, Event::Data(b"CONNECT nexel.cc:443 HTTP/1.1\rX".to_vec())) {
        Action::Close { reply, error } => {
            assert_eq!(reply, b"HTTP/1.1 400 Connection Failed\r\n\r\n".to_vec());
            assert!(matches!(error, Some(Error::BrokenLine)));
        }
        other => panic!("{:?}", other),
    }
    let mut conn = client("");
    conn.run();
    match conn.step(&rules, Event::Data(vec![4, 7, 0, 80, 1, 2, 3, 4, 0])) {
        Action::Close { reply, error } => {
            assert_eq!(reply, vec![5, 7, 0, 1, 0, 0, 0, 0, 0, 0]);
            assert!(matches!(error, Some(Error::UnknownCmd(7))));
        }
        other => panic!("{:?}", other),
    }
}
