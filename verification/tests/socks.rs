use nexel::addr::IpAddress;
use nexel::error::Error;
use nexel::protocol::cursor::Cursor;
use nexel::protocol::socks::{get_u8, NVer, ReqCmd, Request};
use nexel::protocol::{v4, v5};

#[test]
fn v4_test_parse() {
    let origin: Vec<u8> =
        vec![0x04, 0x01, 0x01, 0xbb, 0xc0, 0xa8, 0x01, 0x01, 0x41, 0x42, 0x43, 0x00];
    let mut buf = Cursor::new(&origin[..]);
    get_u8(&mut buf).unwrap();
    assert_eq!(
        v4::parse_req(&mut buf).unwrap(),
        Request {
            ver: NVer::V4,
            cmd: ReqCmd::Connect,
            dst_ip: Some(IpAddress::from_octets(192, 168, 1, 1)),
            dst_port: 443,
            user_id: Some("ABC".into()),
            rsv: 0,
            domain: None,
        }
    );
}

#[test]
fn test_cmd() {}

#[test]
fn v4_test_parse_with_incomplete() {
    let origin: Vec<u8> = vec![0x04, 0x01, 0x01, 0xbb, 0xc0, 0xa8, 0x01, 0x01, 0x41, 0x42, 0x43];
    let mut buf = Cursor::new(&origin[..]);
    get_u8(&mut buf).unwrap();
    let ret = v4::parse_req(&mut buf);
    assert!(ret.is_err());
    if let Err(e) = ret {
        match e {
            Error::Incomplete => {}
            _ => assert!(false),
        }
    }
}

#[test]
fn v5_test_parse() {
    let origin: Vec<u8> = vec![
        0x05, 0x02, 0x00, 0x03, 0x0e, 0x77, 0x77, 0x77, 0x2e, 0x67, 0x6f, 0x6f, 0x67, 0x6c, 0x65,
        0x2e, 0x63, 0x6f, 0x6d, 0x18, 0xeb,
    ];
    let mut buf = Cursor::new(&origin[..]);
    let ver = get_u8(&mut buf).unwrap();
    _ = ver;
    assert_eq!(
        v5::parse_req(&mut buf).unwrap(),
        Request {
            ver: NVer::V5,
            cmd: ReqCmd::Bind,
            dst_ip: None,
            domain: Some("www.google.com".to_string()),
            dst_port: 6379,
            user_id: None,
            rsv: 0,
        }
    );
}

#[test]
fn v5_test_parse_with_incomplete() {
    let origin: Vec<u8> = vec![
        0x05, 0x02, 0x00, 0x03, 0x0e, 0x77, 0x77, 0x77, 0x2e, 0x67, 0x6f, 0x6f, 0x67, 0x6c, 0x65,
        0x2e, 0x63, 0x6f, 0x6d, 0x18,
    ];
    let mut buf = Cursor::new(&origin[..]);
    let ver = get_u8(&mut buf).unwrap();
    _ = ver;
    let ret = v5::parse_req(&mut buf);
    assert!(ret.is_err());
    if let Err(e) = ret {
        match e {
            Error::Incomplete => {}
            _ => assert!(false),
        }
    }
}

use nexel::protocol::cursor::{get_n_bytes, get_u128, get_u16, get_u32, get_until};
use nexel::protocol::socks::{parse_auth_req, parse_req, Method, Reply, ReplyAuth, ReplyCmd, ReqAuth};

#[test]
fn fixed_width_reads_are_big_endian() {
    let data: Vec<u8> = (1u8..=32).collect();
    let mut c = Cursor::new(&data);
    assert_eq!(get_u8(&mut c).unwrap(), 1);
    assert_eq!(get_u16(&mut c).unwrap(), 0x0203);
    assert_eq!(get_u32(&mut c).unwrap(), 0x04050607);
    assert_eq!(get_u128(&mut c).unwrap(), 0x08090a0b0c0d0e0f1011121314151617);
    assert_eq!(c.position(), 23);
    assert_eq!(c.remaining(), 9);
    assert!(c.has_remaining());
    assert!(matches!(get_u128(&mut c), Err(Error::Incomplete)));
    assert_eq!(c.position(), 23);
    assert_eq!(get_n_bytes(&mut c, 2).unwrap(), vec![24, 25]);
    assert!(matches!(get_n_bytes(&mut c, 8), Err(Error::Incomplete)));
    assert_eq!(get_n_bytes(&mut c, 4).unwrap(), vec![26, 27, 28, 29]);
    assert!(matches!(get_until(&mut c, 0), Err(Error::Incomplete)));
    assert_eq!(c.position(), 32);
    assert!(!c.has_remaining());
    assert!(matches!(get_until(&mut c, 0), Err(Error::Incomplete)));
    assert_eq!(c.position(), 32);
    assert!(matches!(get_u8(&mut c), Err(Error::Incomplete)));
    assert!(matches!(get_u16(&mut c), Err(Error::Incomplete)));
    assert!(matches!(get_u32(&mut c), Err(Error::Incomplete)));
    assert_eq!(get_n_bytes(&mut c, 0).unwrap(), Vec::<u8>::new());
}

#[test]
fn an_ipv6_address_needs_sixteen_bytes_not_more() {
    let data: Vec<u8> = vec![0xff; 16];
    let mut c = Cursor::new(&data);
    assert_eq!(get_u128(&mut c).unwrap(), u128::MAX);
    let data: Vec<u8> = vec![0xff; 15];
    let mut c = Cursor::new(&data);
    assert!(matches!(get_u128(&mut c), Err(Error::Incomplete)));
}

#[test]
fn methods_by_range() {
    assert_eq!(Method::from_u8(0), Some(Method::NoAuth));
    assert_eq!(Method::from_u8(1), Some(Method::GssApi));
    assert_eq!(Method::from_u8(2), Some(Method::UserVerify));
    assert_eq!(Method::from_u8(3), Some(Method::IanaAssigned));
    assert_eq!(Method::from_u8(0x7f), Some(Method::IanaAssigned));
    assert_eq!(Method::from_u8(0x80), Some(Method::Private));
    assert_eq!(Method::from_u8(0xfe), Some(Method::Private));
    assert_eq!(Method::from_u8(0xff), None);
    assert_eq!(Method::Private.as_u8(), 0x80);
    assert_eq!(ReplyAuth { method: Method::UserVerify }.send(), vec![5, 2]);
}

#[test]
fn reply_codes_of_each_version() {
    assert_eq!(v4::ReplyCmd::from_u8(90), Some(v4::ReplyCmd::Successful));
    assert_eq!(v4::ReplyCmd::from_u8(93), Some(v4::ReplyCmd::ConnectionFailedWithUserId));
    assert_eq!(v4::ReplyCmd::from_u8(89), None);
    assert_eq!(v4::ReplyCmd::from_u8(94), None);
    assert_eq!(v5::ReplyCmd::from_u8(0), Some(v5::ReplyCmd::Successful));
    assert_eq!(v5::ReplyCmd::from_u8(7), Some(v5::ReplyCmd::CmdUnsupported));
    assert_eq!(v5::ReplyCmd::from_u8(8), Some(v5::ReplyCmd::AddrTypeUnsupported));
    assert_eq!(v5::ReplyCmd::from_u8(9), None);
    assert_eq!(ReplyCmd::V4(v4::ReplyCmd::ConnectionRefused).unwrap_v4().unwrap(), v4::ReplyCmd::ConnectionRefused);
    assert_eq!(ReplyCmd::V5(v5::ReplyCmd::TtlExpired).unwrap_v5().unwrap(), v5::ReplyCmd::TtlExpired);
    match ReplyCmd::V5(v5::ReplyCmd::TtlExpired).unwrap_v4() {
        Err(Error::Other(m)) => assert_eq!(m, "invalid cmd"),
        _ => panic!("an error was expected"),
    }
    match ReplyCmd::V4(v4::ReplyCmd::Successful).unwrap_v5() {
        Err(Error::Other(m)) => assert_eq!(m, "invalid cmd"),
        _ => panic!("an error was expected"),
    }
}

#[test]
fn method_negotiation_of_a_client() {
    let data = [2u8, 0, 1, 9];
    let mut c = Cursor::new(&data);
    assert_eq!(parse_auth_req(&mut c).unwrap(), ReqAuth { methods: Some(vec![0, 1]) });
    assert_eq!(c.position(), 3);
    let data = [0u8, 1];
    let mut c = Cursor::new(&data);
    assert_eq!(v5::parse_auth_req(&mut c).unwrap(), ReqAuth { methods: None });
    assert_eq!(c.position(), 1);
    let data = [3u8, 0, 1];
    let mut c = Cursor::new(&data);
    assert!(matches!(v5::parse_auth_req(&mut c), Err(Error::Incomplete)));
    assert_eq!(c.position(), 1);
    let data: [u8; 0] = [];
    let mut c = Cursor::new(&data);
    assert!(matches!(v5::parse_auth_req(&mut c), Err(Error::Incomplete)));
    assert_eq!(c.position(), 0);
}

#[test]
fn method_selection_of_a_server() {
    let data = [2u8];
    let mut c = Cursor::new(&data);
    assert_eq!(v5::parse_auth_reply(&mut c).unwrap(), ReplyAuth { method: Method::UserVerify });
    let data = [0xffu8];
    let mut c = Cursor::new(&data);
    assert!(matches!(v5::parse_auth_reply(&mut c), Err(Error::ServerRefusedAuth)));
    assert_eq!(c.position(), 1);
    let data: [u8; 0] = [];
    let mut c = Cursor::new(&data);
    assert!(matches!(v5::parse_auth_reply(&mut c), Err(Error::Incomplete)));
}

#[test]
fn requests_by_version() {
    let data = [1u8, 0x01, 0xbb, 192, 168, 1, 1, 0];
    let mut c = Cursor::new(&data);
    let r = parse_req(&mut c, NVer::V4).unwrap();
    assert_eq!(r.ver, NVer::V4);
    assert_eq!(r.user_id, Some(String::new()));
    let data = [1u8, 0, 4, 0, 0, 0, 0, 0, 0, 0, 0, 0, 0, 0, 0, 0, 0, 0, 1, 0, 80];
    let mut c = Cursor::new(&data);
    let r = parse_req(&mut c, NVer::V5).unwrap();
    assert_eq!(r.dst_ip, Some(IpAddress::V6(1)));
    assert_eq!(r.dst_port, 80);
    assert_eq!(c.position(), 21);
    let data = [9u8, 0, 1, 0, 0, 0, 0, 0, 80];
    let mut c = Cursor::new(&data);
    assert!(matches!(parse_req(&mut c, NVer::V5), Err(Error::UnknownCmd(9))));
    let data = [1u8, 0, 5, 0, 0, 0, 0, 0, 80];
    let mut c = Cursor::new(&data);
    assert!(matches!(parse_req(&mut c, NVer::V5), Err(Error::AddrTypeUnsupported)));
    assert_eq!(c.position(), 3);
    let data = [1u8, 0, 3, 1, 0xff, 0, 80];
    let mut c = Cursor::new(&data);
    match parse_req(&mut c, NVer::V5) {
        Err(Error::Other(m)) => assert_eq!(m, "invalid utf-8 sequence of 1 bytes from index 0"),
        _ => panic!("an error was expected"),
    }
    let data = [1u8, 0, 80, 1, 2, 3, 4, 0xff, 0];
    let mut c = Cursor::new(&data);
    match parse_req(&mut c, NVer::V4) {
        Err(Error::Other(m)) => assert_eq!(m, "invalid utf-8 sequence of 1 bytes from index 0"),
        _ => panic!("an error was expected"),
    }
}

#[test]
fn a_request_of_version_4_in_bytes() {
    let req = Request {
        ver: NVer::V4,
        cmd: ReqCmd::Connect,
        dst_ip: Some(IpAddress::from_octets(192, 168, 1, 1)),
        dst_port: 443,
        user_id: Some("ABC".into()),
        rsv: 0,
        domain: None,
    };
    assert_eq!(
        v4::send_req(req).unwrap(),
        vec![0x04, 0x01, 0x01, 0xbb, 0xc0, 0xa8, 0x01, 0x01, 0x41, 0x42, 0x43, 0x00]
    );
    let req = Request {
        ver: NVer::V4,
        cmd: ReqCmd::Bind,
        dst_ip: Some(IpAddress::V4(1)),
        dst_port: 1,
        user_id: None,
        rsv: 0,
        domain: None,
    };
    assert_eq!(v4::send_req(req).unwrap(), vec![4, 2, 0, 1, 0, 0, 0, 1]);
    let req = Request {
        ver: NVer::V4,
        cmd: ReqCmd::Bind,
        dst_ip: Some(IpAddress::V6(1)),
        dst_port: 1,
        user_id: None,
        rsv: 0,
        domain: None,
    };
    match v4::send_req(req) {
        Err(Error::Other(m)) => assert_eq!(m, "the ip_addr type was not a IpAddr::V4"),
        _ => panic!("an error was expected"),
    }
}

#[test]
fn replies_in_bytes_and_back() {
    let reply = Reply {
        ver: NVer::V4,
        cmd: ReplyCmd::V4(v4::ReplyCmd::Successful),
        rsv: 0,
        bind_addr: Some(IpAddress::from_octets(10, 0, 0, 1)),
        domain: None,
        bind_port: 1080,
    };
    let bytes = reply.send().unwrap();
    assert_eq!(bytes, vec![0, 90, 0x04, 0x38, 10, 0, 0, 1]);
    let mut c = Cursor::new(&bytes[1..]);
    assert_eq!(v4::parse_reply(&mut c).unwrap(), reply);

    let reply = Reply {
        ver: NVer::V5,
        cmd: ReplyCmd::V5(v5::ReplyCmd::HostUnreachable),
        rsv: 0,
        bind_addr: None,
        domain: Some("nexel.cc".into()),
        bind_port: 443,
    };
    let bytes = reply.send().unwrap();
    assert_eq!(bytes, vec![5, 4, 0, 3, 8, b'n', b'e', b'x', b'e', b'l', b'.', b'c', b'c', 1, 0xbb]);
    let mut c = Cursor::new(&bytes[1..]);
    assert_eq!(v5::parse_reply(&mut c).unwrap(), reply);

    let reply = Reply {
        ver: NVer::V5,
        cmd: ReplyCmd::V5(v5::ReplyCmd::Successful),
        rsv: 0,
        bind_addr: Some(IpAddress::V6(0x00010002_00030004_00050006_00070008)),
        domain: None,
        bind_port: 80,
    };
    let bytes = v5::send_reply(&reply).unwrap();
    assert_eq!(bytes, vec![5, 0, 0, 4, 0, 1, 0, 2, 0, 3, 0, 4, 0, 5, 0, 6, 0, 7, 0, 8, 0, 80]);
    let mut c = Cursor::new(&bytes[1..]);
    assert_eq!(v5::parse_reply(&mut c).unwrap(), reply);
}

#[test]
fn replies_that_cannot_be_put_into_bytes() {
    let mut reply = Reply {
        ver: NVer::V5,
        cmd: ReplyCmd::V4(v4::ReplyCmd::Successful),
        rsv: 0,
        bind_addr: Some(IpAddress::V4(1)),
        domain: None,
        bind_port: 1,
    };
    match reply.send() {
        Err(Error::Other(m)) => assert_eq!(m, "the cmd type was not a v5::ReplyCmd"),
        _ => panic!("an error was expected"),
    }
    reply.cmd = ReplyCmd::V5(v5::ReplyCmd::Successful);
    reply.bind_addr = None;
    assert!(matches!(reply.send(), Err(Error::AddrTypeUnsupported)));
    reply.ver = NVer::V4;
    assert!(matches!(reply.send(), Err(Error::Other(_))));
    reply.cmd = ReplyCmd::V4(v4::ReplyCmd::Successful);
    assert!(matches!(v4::send_reply(&reply), Err(Error::Other(_))));
    let data = [89u8, 0, 0, 0, 0, 0, 0];
    let mut c = Cursor::new(&data);
    assert!(matches!(v4::parse_reply(&mut c), Err(Error::UnknownCmd(89))));
    let data = [90u8, 0, 0, 0, 0, 0];
    let mut c = Cursor::new(&data);
    assert!(matches!(v4::parse_reply(&mut c), Err(Error::Incomplete)));
    let data = [0u8, 80, 1, 2, 3, 4];
    let mut c = Cursor::new(&data);
    assert_eq!(v4::parse_addr(&mut c).unwrap(), (80, 0x01020304));
}

#[test]
fn a_field_that_a_zero_byte_ends() {
    let data = [b'A', b'B', 0, b'C', 7, 0, 9];
    let mut c = Cursor::new(&data);
    assert_eq!(get_until(&mut c, 0).unwrap(), vec![b'A', b'B']);
    assert_eq!(c.position(), 3);
    assert!(matches!(get_until(&mut c, 7), Err(Error::Incomplete)));
    assert_eq!(c.position(), 5);
    assert_eq!(get_until(&mut c, 0).unwrap(), Vec::<u8>::new());
    assert_eq!(c.position(), 6);
    assert!(matches!(get_until(&mut c, 0), Err(Error::Incomplete)));
    assert_eq!(c.position(), 7);
    let data = [1u8, 2, 0];
    let mut c = Cursor::new(&data);
    assert_eq!(get_until(&mut c, 9).unwrap(), vec![1, 2]);
    assert_eq!(c.position(), 3);
}

#[test]
fn a_read_that_fails_leaves_the_cursor_behind_what_it_has_read() {
    let at = |data: &[u8], read: &dyn Fn(&mut Cursor) -> bool| {
        let mut c = Cursor::new(data);
        assert!(read(&mut c));
        c.position()
    };
    let v4_req = |c: &mut Cursor| v4::parse_req(c).is_err();
    assert_eq!(at(&[], &v4_req), 0);
    assert_eq!(at(&[9, 0, 80, 1, 2, 3, 4, 0], &v4_req), 1);
    assert_eq!(at(&[1, 0], &v4_req), 1);
    assert_eq!(at(&[1, 0, 80, 1, 2, 3], &v4_req), 3);
    assert_eq!(at(&[1, 0, 80, 1, 2, 3, 4], &v4_req), 7);
    assert_eq!(at(&[1, 0x01, 0xbb, 0xc0, 0xa8, 0x01, 0x01, 0x41, 0x42, 0x43], &v4_req), 10);
    assert_eq!(at(&[1, 0, 80, 1, 2, 3, 4, 0xff, 0, 5], &v4_req), 9);
    let v4_reply = |c: &mut Cursor| v4::parse_reply(c).is_err();
    assert_eq!(at(&[], &v4_reply), 0);
    assert_eq!(at(&[89, 0, 0, 0, 0, 0, 0], &v4_reply), 1);
    assert_eq!(at(&[90, 0], &v4_reply), 1);
    assert_eq!(at(&[90, 0, 0, 0, 0, 0], &v4_reply), 3);
    let v4_addr = |c: &mut Cursor| v4::parse_addr(c).is_err();
    assert_eq!(at(&[0], &v4_addr), 0);
    assert_eq!(at(&[0, 80, 1, 2, 3], &v4_addr), 2);
    let v5_addr = |c: &mut Cursor| v5::get_addr(c).is_err();
    assert_eq!(at(&[], &v5_addr), 0);
    assert_eq!(at(&[1, 1, 2, 3], &v5_addr), 1);
    assert_eq!(at(&[3], &v5_addr), 1);
    assert_eq!(at(&[3, 4, b'a'], &v5_addr), 2);
    assert_eq!(at(&[3, 2, 0xff, 0xfe, 9], &v5_addr), 4);
    assert_eq!(at(&[4, 0, 0, 0, 0, 0, 0, 0, 0, 0, 0, 0, 0, 0, 0, 0], &v5_addr), 1);
    assert_eq!(at(&[5, 0, 0], &v5_addr), 1);
    let v5_req = |c: &mut Cursor| v5::parse_req(c).is_err();
    assert_eq!(at(&[], &v5_req), 0);
    assert_eq!(at(&[9, 0, 1], &v5_req), 1);
    assert_eq!(at(&[1], &v5_req), 1);
    assert_eq!(at(&[1, 0], &v5_req), 2);
    assert_eq!(at(&[1, 0, 1, 1, 2], &v5_req), 3);
    assert_eq!(at(&[1, 0, 1, 1, 2, 3, 4, 0], &v5_req), 7);
    assert_eq!(at(&[1, 0, 3, 1, b'a', 0], &v5_req), 5);
    let v5_reply = |c: &mut Cursor| v5::parse_reply(c).is_err();
    assert_eq!(at(&[9, 0, 1], &v5_reply), 1);
    assert_eq!(at(&[0, 0, 1, 1, 2, 3, 4, 0], &v5_reply), 7);
    let ok = |c: &mut Cursor| v5::get_addr(c).is_ok();
    assert_eq!(at(&[3, 1, b'a', 9], &ok), 3);
    assert_eq!(at(&[1, 1, 2, 3, 4, 9], &ok), 5);
}
