use nexel::addr::IpAddress;
use nexel::error::{Error, IoKind};
use nexel::protocol::{recv_and_parse_req, AType, Input, ReqCmd, ReqFrame, Received, Request, Ver};

fn feed(parts: &[&[u8]], authorized: bool) -> Received {
    let mut buffer: Vec<u8> = Vec::new();
    let mut last = Received::More;
    for part in parts {
        last = recv_and_parse_req(&mut buffer, authorized, Input::Data(part.to_vec()));
        if !matches!(last, Received::More) {
            return last;
        }
    }
    last
}

#[test]
fn poll_read_with_socks_v4() {
    let ret = feed(&[&[4, 1, 0x22, 0xc3, 0xc0], &[0xa8, 1, 1, 0], &[]], true);
    match ret {
        Received::Frame(frame) => assert_eq!(
            frame,
            ReqFrame::Req(Request {
                ver: Ver::V4,
                cmd: ReqCmd::Connect,
                rsv: 0,
                dst_domain: None,
                dst_addr: Some(IpAddress::from_octets(192, 168, 1, 1)),
                dst_port: 8899,
                a_type: AType::Ipv4,
                raw: vec![4, 1, 0x22, 0xc3, 0xc0, 0xa8, 1, 1, 0],
            })
        ),
        other => panic!("{:?}", other),
    }
}

#[test]
fn poll_read_with_http() {
    let req1 = "CONNECT nexel.cc:443 HTTP/1.1\r";
    let req2 = "\nHost: nexel.cc:443\r\n";
    let req3 = "\r\n";
    let ret = feed(&[req1.as_bytes(), req2.as_bytes(), req3.as_bytes()], true);
    let mut raw: Vec<u8> = vec![];
    raw.extend_from_slice(req1.as_bytes());
    raw.extend_from_slice(req2.as_bytes());
    raw.extend_from_slice(req3.as_bytes());
    match ret {
        Received::Frame(frame) => assert_eq!(
            frame,
            ReqFrame::Req(Request {
                ver: Ver::Http,
                cmd: ReqCmd::Connect,
                rsv: 0,
                dst_domain: Some(String::from("nexel.cc")),
                dst_addr: None,
                dst_port: 443,
                a_type: AType::Domain,
                raw,
            })
        ),
        other => panic!("{:?}", other),
    }
}

#[test]
fn end_of_stream_before_and_inside_a_frame() {
    let mut buffer: Vec<u8> = Vec::new();
    assert!(matches!(recv_and_parse_req(&mut buffer, false, Input::Eof), Received::Closed));
    let mut buffer: Vec<u8> = Vec::new();
    assert!(matches!(
        recv_and_parse_req(&mut buffer, true, Input::Data(vec![5, 1])),
        Received::More
    ));
    assert_eq!(buffer, vec![5, 1]);
    assert!(matches!(
        recv_and_parse_req(&mut buffer, true, Input::Eof),
        Received::Failed(Error::IoErr(IoKind::ConnectionReset))
    ));
}

#[test]
fn timeout_and_socket_failure() {
    let mut buffer: Vec<u8> = vec![5];
    assert!(matches!(
        recv_and_parse_req(&mut buffer, true, Input::Timeout),
        Received::Failed(Error::ReadTimeout)
    ));
    assert!(matches!(
        recv_and_parse_req(&mut buffer, true, Input::Failed(IoKind::Other)),
        Received::Failed(Error::IoErr(IoKind::Other))
    ));
    assert_eq!(buffer, vec![5]);
}

#[test]
fn the_buffer_is_empty_after_a_frame() {
    let mut buffer: Vec<u8> = Vec::new();
    let r = recv_and_parse_req(&mut buffer, false, Input::Data(vec![5, 1, 0, 9, 9]));
    assert!(matches!(r, Received::Frame(ReqFrame::Auth(_))));
    assert!(buffer.is_empty());
}

#[test]
fn a_frame_that_cannot_be_read_fails() {
    let mut buffer: Vec<u8> = Vec::new();
    assert!(matches!(
        recv_and_parse_req(&mut buffer, false, Input::Data(vec![0xff])),
        Received::Failed(Error::VnUnsupported(0xff))
    ));
}
