use nexel::addr::IpAddress;
use nexel::connection::Connection;
use nexel::protocol::socks::{NVer, Reply, ReplyCmd};
use nexel::protocol::{socks, v4, v5, AType, ReqCmd, Request, Ver};

#[test]
fn addresses_as_text() {
    assert_eq!(IpAddress::from_octets(192, 168, 1, 1).to_text(), "192.168.1.1");
    assert_eq!(IpAddress::V4(0).to_text(), "0.0.0.0");
    assert_eq!(IpAddress::V4(u32::MAX).to_text(), "255.255.255.255");
    assert_eq!(IpAddress::V4(0x7f000001).to_text(), "127.0.0.1");
    assert_eq!(IpAddress::V6(1).to_text(), "::1");
    assert_eq!(IpAddress::V6(0).to_text(), "::");
    assert_eq!(IpAddress::V6(0x20010db8_00000000_00000000_00000001).to_text(), "2001:db8::1");
    assert_eq!(
        IpAddress::V6(0x00010002_00030004_00050006_00070008).to_text(),
        "1:2:3:4:5:6:7:8"
    );
}

#[test]
fn a_request_in_one_line() {
    let r = Request {
        ver: Ver::V5,
        cmd: ReqCmd::Connect,
        rsv: 0,
        dst_domain: Some("nexel.cc".to_string()),
        dst_addr: None,
        dst_port: 443,
        a_type: AType::Domain,
        raw: vec![],
    };
    assert_eq!(
        r.to_text(),
        "version: V5, cmd: Connect, dst_domain: Some(\"nexel.cc\"), dst_addr: None, dst_port: 443"
    );
    let r = Request {
        ver: Ver::Http,
        cmd: ReqCmd::Bind,
        rsv: 0,
        dst_domain: None,
        dst_addr: Some(IpAddress::from_octets(192, 168, 1, 1)),
        dst_port: 8899,
        a_type: AType::Ipv4,
        raw: vec![],
    };
    assert_eq!(
        r.to_text(),
        "version: Http, cmd: Bind, dst_domain: None, dst_addr: Some(192.168.1.1), dst_port: 8899"
    );
    let r = Request {
        ver: Ver::V4,
        cmd: ReqCmd::Udp,
        rsv: 0,
        dst_domain: Some("a\"b\n".to_string()),
        dst_addr: Some(IpAddress::V6(1)),
        dst_port: 0,
        a_type: AType::Ipv6,
        raw: vec![],
    };
    assert_eq!(
        r.to_text(),
        "version: V4, cmd: Udp, dst_domain: Some(\"a\\\"b\\n\"), dst_addr: Some(::1), dst_port: 0"
    );
}

#[test]
fn socks_messages_in_one_line() {
    let req = socks::Request {
        ver: NVer::V4,
        cmd: ReqCmd::Connect,
        dst_ip: Some(IpAddress::from_octets(192, 168, 1, 1)),
        dst_port: 443,
        user_id: Some("ABC".into()),
        rsv: 0,
        domain: None,
    };
    assert_eq!(
        req.to_text(),
        "vn: V4, cmd: Connect, dst_ip: 192.168.1.1, domain: , dst_port: 443, user_id: ABC"
    );
    let req = socks::Request {
        ver: NVer::V5,
        cmd: ReqCmd::Bind,
        dst_ip: None,
        dst_port: 6379,
        user_id: None,
        rsv: 0,
        domain: Some("www.google.com".into()),
    };
    assert_eq!(
        req.to_text(),
        "vn: V5, cmd: Bind, dst_ip: , domain: www.google.com, dst_port: 6379, user_id: "
    );
    let reply = Reply {
        ver: NVer::V5,
        cmd: ReplyCmd::V5(v5::ReplyCmd::HostUnreachable),
        rsv: 0,
        bind_addr: None,
        domain: Some("nexel.cc".into()),
        bind_port: 443,
    };
    assert_eq!(reply.to_text(), "vn: V5, cmd: V5(HostUnreachable), dst_ip: , dst_port: 443");
    let reply = Reply {
        ver: NVer::V4,
        cmd: ReplyCmd::V4(v4::ReplyCmd::ConnectionFailedWithUserId),
        rsv: 0,
        bind_addr: Some(IpAddress::from_octets(10, 0, 0, 1)),
        domain: None,
        bind_port: 1080,
    };
    assert_eq!(
        reply.to_text(),
        "vn: V4, cmd: V4(ConnectionFailedWithUserId), dst_ip: 10.0.0.1, dst_port: 1080"
    );
}

#[test]
fn an_identifier_has_36_characters() {
    let c = Connection::new(None);
    assert_eq!(c.id().len(), 36);
    assert_eq!(c.id().matches('-').count(), 4);
}
