use nexel::connection::ProxyCfg;
use nexel::error::{Error, IoKind};
use nexel::protocol::socks::NVer;
use nexel::protocol::{v4, v5, ReqCmd};

#[test]
fn split() {
    let mut str = "nexel.cc".split(':');
    assert_eq!(str.next(), Some("nexel.cc"));
    assert_eq!(str.next(), None);

    let mut str = "nexel.cc:".split(':');
    assert_eq!(str.next(), Some("nexel.cc"));
    assert_eq!(str.next(), Some(""));
}

fn call_printer<F>(f: F, n: i32) -> i32
where
    F: Fn(i32) -> i32,
{
    f(n)
}

fn show_i32(n: i32) -> i32 {
    n
}

#[test]
fn test_closure() {
    let res = call_printer(show_i32, 10);
    assert_eq!(res, 10);
}

#[test]
fn proxy_cfg_addr_joins_host_and_port() {
    let cfg = ProxyCfg::new("nexel.cc", 6789, "");
    assert_eq!(cfg.addr(), "nexel.cc:6789");
    assert_eq!(cfg.host(), "nexel.cc");
    assert_eq!(cfg.cert(), "");
    assert_eq!(ProxyCfg::new("h", 0, "c").addr(), "h:0");
    assert_eq!(ProxyCfg::new("h", 65535, "c").addr(), "h:65535");
}

#[test]
fn the_remote_server_of_the_build() {
    let cfg = nexel::env::config();
    assert_eq!(cfg.domain(), "nexel.cc");
    assert_eq!(cfg.uri(), "nexel.cc:6789");
    assert_eq!(nexel::env::env(), nexel::env::Env::Online(nexel::env::config()));
    assert_eq!(nexel::text::to_decimal(0), "0");
    assert_eq!(nexel::text::to_decimal(9), "9");
    assert_eq!(nexel::text::to_decimal(10), "10");
    assert_eq!(nexel::text::to_decimal(8899), "8899");
    assert_eq!(nexel::text::to_decimal(65535), "65535");
}

#[test]
fn bytes_are_found_and_compared() {
    assert!(nexel::text::contains(b"google.com", b"gle"));
    assert!(nexel::text::contains(b"google.com", b""));
    assert!(nexel::text::contains(b"", b""));
    assert!(!nexel::text::contains(b"google.com", b"glee"));
    assert!(!nexel::text::contains(b"ab", b"abc"));
    assert!(nexel::text::contains(b"abc", b"bc"));
    assert!(nexel::text::bytes_eq(b"abc", b"abc"));
    assert!(!nexel::text::bytes_eq(b"abc", b"abd"));
    assert!(!nexel::text::bytes_eq(b"abc", b"ab"));
    assert!(nexel::text::has_at(b"abc", 1, b"bc"));
    assert!(!nexel::text::has_at(b"abc", 2, b"bc"));
    assert!(nexel::text::has_at(b"abc", 3, b""));
    assert!(!nexel::text::has_at(b"abc", 4, b""));
}

#[test]
fn errors_in_words() {
    assert_eq!(Error::Incomplete.message(), "the frame that read from socket was incomplete");
    assert_eq!(Error::VnUnsupported(255).message(), "the number 255 of version was not supported");
    assert_eq!(Error::VnUnsupported(0).message(), "the number 0 of version was not supported");
    assert_eq!(Error::UnknownCmd(9).message(), "the cmd 9 was not supported");
    assert_eq!(Error::AddrTypeUnsupported.message(), "the addr type was invalid");
    assert_eq!(Error::NotImplemented.message(), "protocol was not implemented");
    assert_eq!(Error::ServerRefusedAuth.message(), "server has refused the client auth");
    assert_eq!(Error::Other("unknown routing".into()).message(), "unknown routing");
    assert_eq!(Error::IoErr(IoKind::ConnectionReset).message(), "connection reset");
    assert_eq!(Error::BadRequest.message(), "Bad Request");
    assert_eq!(Error::BrokenLine.message(), "broken line");
}

#[test]
fn names_of_commands_and_codes() {
    assert_eq!(ReqCmd::Connect.name(), "CONNECT");
    assert_eq!(ReqCmd::Bind.name(), "BIND");
    assert_eq!(ReqCmd::Udp.name(), "UDP");
    assert_eq!(NVer::V4.name(), "V4");
    assert_eq!(NVer::V5.as_u8(), 5);
    assert_eq!(v4::ReplyCmd::ConnectionFailedWithUserId.name(), "CONNECTION_FAILED_WITH_USER_ID");
    assert_eq!(v5::ReplyCmd::TtlExpired.name(), "TTL_EXPIRED");
    assert_eq!(v5::ReplyCmd::AddrTypeUnsupported.as_u8(), 8);
    assert_eq!(v4::ReplyCmd::ConnectionFailed.as_u8(), 92);
}
