//! The inbound handshakes: SOCKS4, SOCKS5 and HTTP CONNECT on one port.

pub mod cursor;
pub mod frame;
pub mod http;
pub mod reply;
pub mod socks;
pub mod theorems;
pub mod v4;
pub mod v5;

pub use crate::protocol::reply::Reply;

use vstd::prelude::*;
use vstd::utf8::{decode_utf8, valid_utf8};
use crate::addr::IpAddress;
use crate::error::{Error, IoKind};
use crate::protocol::cursor::{be_value, lemma_scan, lemma_scan_skip, scan, Cursor};
use crate::protocol::frame::{lemma_stands, lemma_stands_on, lemma_took, stands, BufReader};
use crate::protocol::http::{http_body, parse_req_http_connect};
use vstd::string::StringExecFns;
use crate::text::{debug_of, debug_text, decimal, to_decimal, utf8_fault, utf8_string};

verus! {

/// The dialect a client speaks.
#[derive(Copy, Clone, Debug, PartialEq, Eq, Structural)]
pub enum Ver {
    V4,
    V5,
    Http,
}

impl Ver {
    /// The name of the dialect: `V4`, `V5` or `Http`.
    pub open spec fn label(self) -> Seq<char> {
        match self {
            Ver::V4 => "V4"@,
            Ver::V5 => "V5"@,
            Ver::Http => "Http"@,
        }
    }

    /// The name of the dialect.
    pub fn name(&self) -> (r: &'static str)
        ensures
            r@ == self.label(),
    {
        match self {
            Ver::V4 => "V4",
            Ver::V5 => "V5",
            Ver::Http => "Http",
        }
    }
}

/// What a client asks for.
#[derive(Copy, Clone, Debug, PartialEq, Eq, Structural)]
pub enum ReqCmd {
    Connect,
    Bind,
    Udp,
}

impl ReqCmd {
    /// The command that a wire byte names: 1, 2, 3 in the order of the variants.
    pub open spec fn of_byte(n: u8) -> Option<ReqCmd> {
        if n == 1 {
            Some(ReqCmd::Connect)
        } else if n == 2 {
            Some(ReqCmd::Bind)
        } else if n == 3 {
            Some(ReqCmd::Udp)
        } else {
            None
        }
    }

    /// The wire byte of a command.
    pub open spec fn byte(self) -> u8 {
        match self {
            ReqCmd::Connect => 1,
            ReqCmd::Bind => 2,
            ReqCmd::Udp => 3,
        }
    }

    pub fn from_u8(n: u8) -> (r: Option<ReqCmd>)
        ensures
            r == ReqCmd::of_byte(n),
    {
        match n {
            1 => Some(ReqCmd::Connect),
            2 => Some(ReqCmd::Bind),
            3 => Some(ReqCmd::Udp),
            _ => None,
        }
    }

    pub fn as_u8(&self) -> (r: u8)
        ensures
            r == self.byte(),
    {
        match self {
            ReqCmd::Connect => 1,
            ReqCmd::Bind => 2,
            ReqCmd::Udp => 3,
        }
    }

    /// The name of the command: `CONNECT`, `BIND` or `UDP`.
    pub open spec fn label(self) -> Seq<char> {
        match self {
            ReqCmd::Connect => "CONNECT"@,
            ReqCmd::Bind => "BIND"@,
            ReqCmd::Udp => "UDP"@,
        }
    }

    /// The name of the command.
    pub fn name(&self) -> (r: &'static str)
        ensures
            r@ == self.label(),
    {
        match self {
            ReqCmd::Connect => "CONNECT",
            ReqCmd::Bind => "BIND",
            ReqCmd::Udp => "UDP",
        }
    }

    /// The name of the variant: `Connect`, `Bind` or `Udp`.
    pub open spec fn variant(self) -> Seq<char> {
        match self {
            ReqCmd::Connect => "Connect"@,
            ReqCmd::Bind => "Bind"@,
            ReqCmd::Udp => "Udp"@,
        }
    }

    /// The name of the variant.
    pub fn variant_name(&self) -> (r: &'static str)
        ensures
            r@ == self.variant(),
    {
        match self {
            ReqCmd::Connect => "Connect",
            ReqCmd::Bind => "Bind",
            ReqCmd::Udp => "Udp",
        }
    }

    /// A command's wire byte names that command, and no other byte does.
    pub proof fn lemma_byte_round_trip(n: u8, c: ReqCmd)
        ensures
            ReqCmd::of_byte(c.byte()) == Some(c),
            ReqCmd::of_byte(n) == Some(c) ==> n == c.byte(),
    {
    }
}

/// Which of the two address fields of a request is filled.
#[derive(Debug, PartialEq, Eq, Copy, Clone, Structural)]
pub enum AType {
    Ipv4,
    Domain,
    Ipv6,
}

impl AType {
    /// The SOCKS5 wire byte of an address type: 1, 3, 4.
    pub open spec fn byte(self) -> u8 {
        match self {
            AType::Ipv4 => 1,
            AType::Domain => 3,
            AType::Ipv6 => 4,
        }
    }

    pub fn as_u8(&self) -> (r: u8)
        ensures
            r == self.byte(),
    {
        match self {
            AType::Ipv4 => 1,
            AType::Domain => 3,
            AType::Ipv6 => 4,
        }
    }
}

/// The outcome reported to a client.
#[derive(Copy, Clone, Debug, PartialEq, Eq, Structural)]
pub enum ReplyCmd {
    Successful,
    ServerError,
    RulesNotAllowed,
    NetworkUnreachable,
    HostUnreachable,
    ConnectionRefused,
    TtlExpired,
    CmdTypeUnsupported,
    AddrTypeUnsupported,
}

impl ReplyCmd {
    /// The SOCKS5 wire byte: 0 to 8 in the order of the variants.
    pub open spec fn v5_byte(self) -> u8 {
        match self {
            ReplyCmd::Successful => 0,
            ReplyCmd::ServerError => 1,
            ReplyCmd::RulesNotAllowed => 2,
            ReplyCmd::NetworkUnreachable => 3,
            ReplyCmd::HostUnreachable => 4,
            ReplyCmd::ConnectionRefused => 5,
            ReplyCmd::TtlExpired => 6,
            ReplyCmd::CmdTypeUnsupported => 7,
            ReplyCmd::AddrTypeUnsupported => 8,
        }
    }

    /// The SOCKS4 wire byte: 90 for success, 91 for a refused connection,
    /// 92 for every other failure.
    pub open spec fn v4_byte(self) -> u8 {
        match self {
            ReplyCmd::Successful => 90,
            ReplyCmd::ConnectionRefused => 91,
            _ => 92,
        }
    }

    /// The wire byte in a dialect. HTTP has no reply byte: it gives 0.
    pub open spec fn byte(self, ver: Ver) -> u8 {
        match ver {
            Ver::V4 => self.v4_byte(),
            Ver::V5 => self.v5_byte(),
            Ver::Http => 0,
        }
    }

    pub fn as_u8(&self, ver: Ver) -> (r: u8)
        ensures
            r == self.byte(ver),
    {
        match ver {
            Ver::V4 => match self {
                ReplyCmd::Successful => 90,
                ReplyCmd::ConnectionRefused => 91,
                _ => 92,
            },
            Ver::V5 => match self {
                ReplyCmd::Successful => 0,
                ReplyCmd::ServerError => 1,
                ReplyCmd::RulesNotAllowed => 2,
                ReplyCmd::NetworkUnreachable => 3,
                ReplyCmd::HostUnreachable => 4,
                ReplyCmd::ConnectionRefused => 5,
                ReplyCmd::TtlExpired => 6,
                ReplyCmd::CmdTypeUnsupported => 7,
                ReplyCmd::AddrTypeUnsupported => 8,
            },
            Ver::Http => 0,
        }
    }
}

/// The methods a SOCKS5 client offers before its request.
#[derive(Debug, PartialEq)]
pub struct AuthReq {
    pub methods: Vec<u8>,
}

/// A destination, whatever dialect named it.
#[derive(Debug, PartialEq, Clone)]
pub struct Request {
    pub ver: Ver,
    pub cmd: ReqCmd,
    pub rsv: u8,
    pub dst_domain: Option<String>,
    pub dst_addr: Option<IpAddress>,
    pub dst_port: u16,
    pub a_type: AType,
    /// The exact bytes that were read from the client to produce this request.
    pub raw: Vec<u8>,
}

/// What a `Request` holds, as mathematical values.
pub struct RequestView {
    pub ver: Ver,
    pub cmd: ReqCmd,
    pub rsv: u8,
    pub dst_domain: Option<Seq<char>>,
    pub dst_addr: Option<IpAddress>,
    pub dst_port: u16,
    pub a_type: AType,
    pub raw: Seq<u8>,
}

impl RequestView {
    /// Exactly the address field that the type names is filled, with an
    /// address of that family.
    pub open spec fn wf(self) -> bool {
        match self.a_type {
            AType::Ipv4 => self.dst_domain is None && self.dst_addr is Some
                && self.dst_addr->0 is V4,
            AType::Ipv6 => self.dst_domain is None && self.dst_addr is Some
                && self.dst_addr->0 is V6,
            AType::Domain => self.dst_domain is Some && self.dst_addr is None,
        }
    }
}

impl RequestView {
    /// The request in one line, for a log: dialect, command, domain name,
    /// address and port. Name and address are written as std writes an
    /// optional value for a programmer.
    pub open spec fn text(self) -> Seq<char> {
        "version: "@ + self.ver.label() + ", cmd: "@ + self.cmd.variant() + ", dst_domain: "@
            + debug_of(self.dst_domain) + ", dst_addr: "@ + crate::addr::debug_text(self.dst_addr)
            + ", dst_port: "@ + decimal(self.dst_port as nat)
    }
}

impl View for Request {
    type V = RequestView;

    open spec fn view(&self) -> RequestView {
        RequestView {
            ver: self.ver,
            cmd: self.cmd,
            rsv: self.rsv,
            dst_domain: match self.dst_domain {
                Some(d) => Some(d@),
                None => None,
            },
            dst_addr: self.dst_addr,
            dst_port: self.dst_port,
            a_type: self.a_type,
            raw: self.raw@,
        }
    }
}

impl Request {
    /// The request in one line, for a log.
    pub fn to_text(&self) -> (r: String)
        ensures
            r@ == self@.text(),
    {
        let mut s: String = String::from_str("version: ");
        s.append(self.ver.name());
        s.append(", cmd: ");
        s.append(self.cmd.variant_name());
        s.append(", dst_domain: ");
        let domain: String = debug_text(&self.dst_domain);
        s.append(domain.as_str());
        s.append(", dst_addr: ");
        let addr: String = crate::addr::debug_string(&self.dst_addr);
        s.append(addr.as_str());
        s.append(", dst_port: ");
        let port: String = to_decimal(self.dst_port);
        s.append(port.as_str());
        s
    }

    /// The exact bytes that were read from the client to produce this request.
    pub fn raw(&self) -> (r: &[u8])
        ensures
            r@ == self@.raw,
    {
        self.raw.as_slice()
    }
}

/// One frame of a handshake.
#[derive(Debug, PartialEq)]
pub enum ReqFrame {
    Auth(AuthReq),
    Req(Request),
}

/// What a `ReqFrame` holds, as mathematical values.
pub enum FrameView {
    Auth(Seq<u8>),
    Req(RequestView),
}

impl FrameView {
    /// How many bytes of input spelled the frame.
    pub open spec fn len(self) -> nat {
        match self {
            FrameView::Auth(methods) => 2 + methods.len(),
            FrameView::Req(r) => r.raw.len(),
        }
    }
}

impl View for ReqFrame {
    type V = FrameView;

    open spec fn view(&self) -> FrameView {
        match self {
            ReqFrame::Auth(a) => FrameView::Auth(a.methods@),
            ReqFrame::Req(r) => FrameView::Req(r@),
        }
    }
}

/// What a SOCKS5 method negotiation holds after its first byte, and how
/// many bytes reading it takes: a count, and as many method bytes. The
/// count is taken before the methods are looked for.
pub open spec fn auth_body(s: Seq<u8>) -> (Result<Seq<u8>, Error>, int) {
    if s.len() < 1 {
        (Err(Error::Incomplete), 0)
    } else if s.len() < 1 + s[0] {
        (Err(Error::Incomplete), 1)
    } else {
        (Ok(s.subrange(1, 1 + s[0])), 1 + s[0])
    }
}

/// What a SOCKS4 request holds after its first byte, and how many bytes
/// reading it takes: the command, the port, the IPv4 address and a user id
/// that ends with a zero byte. `record` is what was read before; the
/// request's `raw` is `record` and the bytes taken. Each field is taken
/// before the next is looked for.
pub open spec fn v4_body(s: Seq<u8>, record: Seq<u8>) -> (Result<RequestView, Error>, int) {
    if s.len() < 1 {
        (Err(Error::Incomplete), 0)
    } else if ReqCmd::of_byte(s[0]) is None {
        (Err(Error::UnknownCmd(s[0])), 1)
    } else if s.len() < 3 {
        (Err(Error::Incomplete), 1)
    } else if s.len() < 7 {
        (Err(Error::Incomplete), 3)
    } else if scan(s, 7, 0) >= s.len() {
        (Err(Error::Incomplete), 7)
    } else {
        (
            Ok(
                RequestView {
                    ver: Ver::V4,
                    cmd: ReqCmd::of_byte(s[0])->0,
                    rsv: 0,
                    dst_domain: None,
                    dst_addr: Some(IpAddress::V4(be_value(s.subrange(3, 7)) as u32)),
                    dst_port: be_value(s.subrange(1, 3)) as u16,
                    a_type: AType::Ipv4,
                    raw: record + s.subrange(0, scan(s, 7, 0) + 1),
                },
            ),
            scan(s, 7, 0) + 1,
        )
    }
}

/// The address of a SOCKS5 request, as read from the wire.
pub struct AddrView {
    pub dst_addr: Option<IpAddress>,
    pub dst_domain: Option<Seq<char>>,
    pub a_type: AType,
}

/// The address that starts `s`, and how many bytes reading it takes: the
/// type and, after it, four bytes of IPv4, a length and as many bytes of a
/// UTF-8 domain name, or sixteen bytes of IPv6. Each field is taken before
/// the next is looked for, and the name before it is judged. A name that
/// is not UTF-8 is an error in the words of std.
pub open spec fn v5_addr(s: Seq<u8>) -> (Result<AddrView, Error>, int) {
    if s.len() < 1 {
        (Err(Error::Incomplete), 0)
    } else if s[0] == 1 {
        if s.len() < 5 {
            (Err(Error::Incomplete), 1)
        } else {
            (
                Ok(
                    AddrView {
                        dst_addr: Some(IpAddress::V4(be_value(s.subrange(1, 5)) as u32)),
                        dst_domain: None,
                        a_type: AType::Ipv4,
                    },
                ),
                5,
            )
        }
    } else if s[0] == 3 {
        if s.len() < 2 {
            (Err(Error::Incomplete), 1)
        } else if s.len() < 2 + s[1] {
            (Err(Error::Incomplete), 2)
        } else if !valid_utf8(s.subrange(2, 2 + s[1])) {
            (Err(Error::Other(utf8_fault(s.subrange(2, 2 + s[1])))), 2 + s[1])
        } else {
            (
                Ok(
                    AddrView {
                        dst_addr: None,
                        dst_domain: Some(decode_utf8(s.subrange(2, 2 + s[1]))),
                        a_type: AType::Domain,
                    },
                ),
                2 + s[1],
            )
        }
    } else if s[0] == 4 {
        if s.len() < 17 {
            (Err(Error::Incomplete), 1)
        } else {
            (
                Ok(
                    AddrView {
                        dst_addr: Some(IpAddress::V6(be_value(s.subrange(1, 17)) as u128)),
                        dst_domain: None,
                        a_type: AType::Ipv6,
                    },
                ),
                17,
            )
        }
    } else {
        (Err(Error::AddrTypeUnsupported), 1)
    }
}

/// What a SOCKS5 request holds after its first byte, and how many bytes
/// reading it takes: the command, a reserved byte, the address and the
/// port. `record` is what was read before; the request's `raw` is `record`
/// and the bytes taken. Each field is taken before the next is looked for.
pub open spec fn v5_body(s: Seq<u8>, record: Seq<u8>) -> (Result<RequestView, Error>, int) {
    if s.len() < 1 {
        (Err(Error::Incomplete), 0)
    } else if ReqCmd::of_byte(s[0]) is None {
        (Err(Error::UnknownCmd(s[0])), 1)
    } else if s.len() < 2 {
        (Err(Error::Incomplete), 1)
    } else {
        let n = 2 + v5_addr(s.skip(2)).1;
        match v5_addr(s.skip(2)).0 {
            Err(e) => (Err(e), n),
            Ok(a) => if s.len() < n + 2 {
                (Err(Error::Incomplete), n)
            } else {
                (
                    Ok(
                        RequestView {
                            ver: Ver::V5,
                            cmd: ReqCmd::of_byte(s[0])->0,
                            rsv: s[1],
                            dst_domain: a.dst_domain,
                            dst_addr: a.dst_addr,
                            dst_port: be_value(s.subrange(n, n + 2)) as u16,
                            a_type: a.a_type,
                            raw: record + s.subrange(0, n + 2),
                        },
                    ),
                    n + 2,
                )
            },
        }
    }
}

/// What a SOCKS5 method negotiation holds. `s` starts with the byte 5.
pub open spec fn auth_frame(s: Seq<u8>) -> Result<FrameView, Error> {
    match auth_body(s.skip(1)).0 {
        Ok(methods) => Ok(FrameView::Auth(methods)),
        Err(e) => Err(e),
    }
}

/// What a SOCKS4 request holds. `s` starts with the byte 4.
pub open spec fn v4_frame(s: Seq<u8>) -> Result<RequestView, Error> {
    v4_body(s.skip(1), s.subrange(0, 1)).0
}

/// What a SOCKS5 request holds. `s` starts with the byte 5.
pub open spec fn v5_frame(s: Seq<u8>) -> Result<RequestView, Error> {
    v5_body(s.skip(1), s.subrange(0, 1)).0
}

/// What an HTTP CONNECT frame holds. `s` starts with the letter `C`.
pub open spec fn http_frame(s: Seq<u8>) -> Result<RequestView, Error> {
    http_body(s.skip(1), s.subrange(0, 1)).0
}

/// The letter `C`, with which an HTTP CONNECT starts.
pub const HTTP_FIRST: u8 = 67;

/// The frame at the start of `s`. The first byte names the dialect: 4 for
/// SOCKS4, 5 for SOCKS5 (a method negotiation until the connection is
/// `authorized`, a request after), `C` for HTTP CONNECT.
pub open spec fn frame_of(s: Seq<u8>, authorized: bool) -> Result<FrameView, Error> {
    if s.len() < 1 {
        Err(Error::Incomplete)
    } else if s[0] == 4 {
        match v4_frame(s) {
            Ok(r) => Ok(FrameView::Req(r)),
            Err(e) => Err(e),
        }
    } else if s[0] == 5 {
        if !authorized {
            auth_frame(s)
        } else {
            match v5_frame(s) {
                Ok(r) => Ok(FrameView::Req(r)),
                Err(e) => Err(e),
            }
        }
    } else if s[0] == HTTP_FIRST {
        match http_frame(s) {
            Ok(r) => Ok(FrameView::Req(r)),
            Err(e) => Err(e),
        }
    } else {
        Err(Error::VnUnsupported(s[0]))
    }
}

/// Reads a SOCKS5 method negotiation whose first byte has been taken. A
/// read that fails leaves cursor and record behind what it has read.
pub fn parse_auth(src: &mut Cursor, buf_reader: &mut BufReader) -> (r: Result<AuthReq, Error>)
    ensures
        stands(
            *final(src),
            final(buf_reader)@,
            *old(src),
            old(buf_reader)@,
            auth_body(old(src).rest()).1,
        ),
        match r {
            Ok(a) => auth_body(old(src).rest()).0 == Ok::<Seq<u8>, Error>(a.methods@),
            Err(e) => auth_body(old(src).rest()).0 == Err::<Seq<u8>, Error>(e),
        },
{
    let ghost start = *src;
    let ghost r0 = buf_reader@;
    proof {
        start.lemma_bounds();
        assert(r0 =~= r0 + start.rest().subrange(0, 0));
    }
    let n_methods: u8 = match buf_reader.get_u8(src) {
        Ok(n) => n,
        Err(e) => {
            return Err(e);
        },
    };
    proof {
        lemma_took(start, r0, 0, start, *src, r0, buf_reader@, 1);
    }
    let ghost c1 = *src;
    let ghost r1 = buf_reader@;
    match buf_reader.get_n_bytes(src, n_methods as usize) {
        Ok(methods) => {
            proof {
                lemma_took(start, r0, 1, c1, *src, r1, buf_reader@, n_methods as int);
            }
            Ok(AuthReq { methods })
        },
        Err(e) => Err(e),
    }
}

/// Reads a SOCKS4 request whose first byte has been taken; `buf_reader`
/// holds what was read before. A read that fails leaves the cursor behind
/// what it has read.
pub fn parse_req_v4(src: &mut Cursor, buf_reader: BufReader) -> (r: Result<Request, Error>)
    ensures
        final(src).bytes() == old(src).bytes(),
        final(src).consumed() == old(src).consumed() + v4_body(old(src).rest(), buf_reader@).1,
        match r {
            Ok(req) => v4_body(old(src).rest(), buf_reader@).0 == Ok::<RequestView, Error>(req@)
                && req@.wf(),
            Err(e) => v4_body(old(src).rest(), buf_reader@).0 == Err::<RequestView, Error>(e),
        },
{
    let mut buf_reader = buf_reader;
    let ghost start = *src;
    let ghost r0 = buf_reader@;
    let ghost s = src.rest();
    proof {
        start.lemma_bounds();
        assert(r0 =~= r0 + s.subrange(0, 0));
    }
    let n_cmd: u8 = match buf_reader.get_u8(src) {
        Ok(n) => n,
        Err(e) => {
            return Err(e);
        },
    };
    proof {
        lemma_took(start, r0, 0, start, *src, r0, buf_reader@, 1);
    }
    let cmd: ReqCmd = match ReqCmd::from_u8(n_cmd) {
        Some(c) => c,
        None => {
            return Err(Error::UnknownCmd(n_cmd));
        },
    };
    let ghost c1 = *src;
    let ghost r1 = buf_reader@;
    let port: u16 = match buf_reader.get_u16(src) {
        Ok(p) => p,
        Err(e) => {
            return Err(e);
        },
    };
    proof {
        lemma_took(start, r0, 1, c1, *src, r1, buf_reader@, 2);
    }
    let ghost c2 = *src;
    let ghost r2 = buf_reader@;
    let ipv4: u32 = match buf_reader.get_u32(src) {
        Ok(a) => a,
        Err(e) => {
            return Err(e);
        },
    };
    proof {
        lemma_took(start, r0, 3, c2, *src, r2, buf_reader@, 4);
    }
    let ghost c3 = *src;
    let ghost r3 = buf_reader@;
    proof {
        lemma_scan_skip(s, 7, 0);
        lemma_scan(s, 7, 0);
    }
    match buf_reader.get_until(src, 0) {
        Ok(_) => {
            proof {
                lemma_took(start, r0, 7, c3, *src, r3, buf_reader@, scan(c3.rest(), 0, 0) + 1);
            }
            Ok(
                Request {
                    ver: Ver::V4,
                    cmd,
                    rsv: 0,
                    dst_domain: None,
                    dst_addr: Some(IpAddress::V4(ipv4)),
                    dst_port: port,
                    a_type: AType::Ipv4,
                    raw: buf_reader.into_inner(),
                },
            )
        },
        Err(e) => Err(e),
    }
}

/// Reads the address of a SOCKS5 request. A read that fails leaves cursor
/// and record behind what it has read.
pub fn get_addr(src: &mut Cursor, buf_reader: &mut BufReader) -> (r: Result<
    (Option<IpAddress>, Option<String>, AType),
    Error,
>)
    ensures
        stands(
            *final(src),
            final(buf_reader)@,
            *old(src),
            old(buf_reader)@,
            v5_addr(old(src).rest()).1,
        ),
        match r {
            Ok((addr, domain, a_type)) => v5_addr(old(src).rest()).0 == Ok::<AddrView, Error>(
                AddrView {
                    dst_addr: addr,
                    dst_domain: match domain {
                        Some(d) => Some(d@),
                        None => None,
                    },
                    a_type,
                },
            ),
            Err(e) => v5_addr(old(src).rest()).0 == Err::<AddrView, Error>(e),
        },
{
    let ghost start = *src;
    let ghost r0 = buf_reader@;
    proof {
        start.lemma_bounds();
        assert(r0 =~= r0 + start.rest().subrange(0, 0));
    }
    let n_type: u8 = match buf_reader.get_u8(src) {
        Ok(n) => n,
        Err(e) => {
            return Err(e);
        },
    };
    proof {
        lemma_took(start, r0, 0, start, *src, r0, buf_reader@, 1);
    }
    let ghost c1 = *src;
    let ghost r1 = buf_reader@;
    if n_type == 1 {
        match buf_reader.get_u32(src) {
            Ok(a) => {
                proof {
                    lemma_took(start, r0, 1, c1, *src, r1, buf_reader@, 4);
                }
                Ok((Some(IpAddress::V4(a)), None, AType::Ipv4))
            },
            Err(e) => Err(e),
        }
    } else if n_type == 3 {
        let a_len: u8 = match buf_reader.get_u8(src) {
            Ok(n) => n,
            Err(e) => {
                return Err(e);
            },
        };
        proof {
            lemma_took(start, r0, 1, c1, *src, r1, buf_reader@, 1);
        }
        let ghost c2 = *src;
        let ghost r2 = buf_reader@;
        let name: Vec<u8> = match buf_reader.get_n_bytes(src, a_len as usize) {
            Ok(b) => b,
            Err(e) => {
                return Err(e);
            },
        };
        proof {
            lemma_took(start, r0, 2, c2, *src, r2, buf_reader@, a_len as int);
        }
        match utf8_string(name) {
            Ok(d) => Ok((None, Some(d), AType::Domain)),
            Err(m) => Err(Error::Other(m)),
        }
    } else if n_type == 4 {
        match buf_reader.get_u128(src) {
            Ok(a) => {
                proof {
                    lemma_took(start, r0, 1, c1, *src, r1, buf_reader@, 16);
                }
                Ok((Some(IpAddress::V6(a)), None, AType::Ipv6))
            },
            Err(e) => Err(e),
        }
    } else {
        Err(Error::AddrTypeUnsupported)
    }
}

/// Reads a SOCKS5 request whose first byte has been taken; `buf_reader`
/// holds what was read before. A read that fails leaves the cursor behind
/// what it has read.
pub fn parse_req_v5(src: &mut Cursor, buf_reader: BufReader) -> (r: Result<Request, Error>)
    ensures
        final(src).bytes() == old(src).bytes(),
        final(src).consumed() == old(src).consumed() + v5_body(old(src).rest(), buf_reader@).1,
        match r {
            Ok(req) => v5_body(old(src).rest(), buf_reader@).0 == Ok::<RequestView, Error>(req@)
                && req@.wf(),
            Err(e) => v5_body(old(src).rest(), buf_reader@).0 == Err::<RequestView, Error>(e),
        },
{
    let mut buf_reader = buf_reader;
    let ghost start = *src;
    let ghost r0 = buf_reader@;
    let ghost s = src.rest();
    proof {
        start.lemma_bounds();
        assert(r0 =~= r0 + s.subrange(0, 0));
    }
    let n_cmd: u8 = match buf_reader.get_u8(src) {
        Ok(n) => n,
        Err(e) => {
            return Err(e);
        },
    };
    proof {
        lemma_took(start, r0, 0, start, *src, r0, buf_reader@, 1);
    }
    let cmd: ReqCmd = match ReqCmd::from_u8(n_cmd) {
        Some(c) => c,
        None => {
            return Err(Error::UnknownCmd(n_cmd));
        },
    };
    let ghost c1 = *src;
    let ghost r1 = buf_reader@;
    let rsv: u8 = match buf_reader.get_u8(src) {
        Ok(n) => n,
        Err(e) => {
            return Err(e);
        },
    };
    proof {
        lemma_took(start, r0, 1, c1, *src, r1, buf_reader@, 1);
    }
    let ghost c2 = *src;
    let ghost r2 = buf_reader@;
    let ghost n = 2 + v5_addr(s.skip(2)).1;
    let got = get_addr(src, &mut buf_reader);
    proof {
        lemma_stands(c2, r2, start, r0, 2);
        lemma_stands_on(start, r0, 2, c2, r2, *src, buf_reader@, n - 2);
    }
    let (dst_addr, dst_domain, a_type) = match got {
        Ok(a) => a,
        Err(e) => {
            return Err(e);
        },
    };
    let ghost c3 = *src;
    let ghost r3 = buf_reader@;
    let dst_port: u16 = match buf_reader.get_u16(src) {
        Ok(p) => p,
        Err(e) => {
            return Err(e);
        },
    };
    proof {
        lemma_took(start, r0, n, c3, *src, r3, buf_reader@, 2);
    }
    Ok(
        Request {
            ver: Ver::V5,
            cmd,
            rsv,
            dst_domain,
            dst_addr,
            dst_port,
            a_type,
            raw: buf_reader.into_inner(),
        },
    )
}

/// Reads the frame at the start of `input`. Until the connection is
/// `authorized` a first byte 5 starts a SOCKS5 method negotiation, after
/// that a SOCKS5 request. The `raw` bytes of a request are exactly the bytes
/// of `input` that the frame takes.
pub fn parse_req(input: &[u8], authorized: bool) -> (r: Result<ReqFrame, Error>)
    ensures
        match r {
            Ok(frame) => frame_of(input@, authorized) == Ok::<FrameView, Error>(frame@)
                && frame@.len() <= input@.len() && (frame@ matches FrameView::Req(req)
                ==> req.wf() && req.raw == input@.subrange(0, req.raw.len() as int)),
            Err(e) => frame_of(input@, authorized) == Err::<FrameView, Error>(e),
        },
{
    let mut src = Cursor::new(input);
    let mut buf_reader = BufReader::with_capacity(64);
    let ghost c0 = src;
    proof {
        c0.lemma_bounds();
        assert(c0.rest() =~= input@);
        assert(buf_reader@ =~= buf_reader@ + input@.subrange(0, 0));
    }
    let n_ver: u8 = match buf_reader.get_u8(&mut src) {
        Ok(n) => n,
        Err(e) => {
            return Err(e);
        },
    };
    proof {
        lemma_took(c0, Seq::<u8>::empty(), 0, c0, src, Seq::<u8>::empty(), buf_reader@, 1);
        src.lemma_bounds();
        assert(buf_reader@ =~= input@.subrange(0, 1));
        assert(src.rest() =~= input@.skip(1));
        if frame_of(input@, authorized) is Ok {
            theorems::lemma_raw_is_prefix(input@, authorized);
        }
    }
    if n_ver == 4 {
        match parse_req_v4(&mut src, buf_reader) {
            Ok(req) => Ok(ReqFrame::Req(req)),
            Err(e) => Err(e),
        }
    } else if n_ver == 5 {
        if !authorized {
            match parse_auth(&mut src, &mut buf_reader) {
                Ok(a) => Ok(ReqFrame::Auth(a)),
                Err(e) => Err(e),
            }
        } else {
            match parse_req_v5(&mut src, buf_reader) {
                Ok(req) => Ok(ReqFrame::Req(req)),
                Err(e) => Err(e),
            }
        }
    } else if n_ver == HTTP_FIRST {
        match parse_req_http_connect(&mut src, buf_reader) {
            Ok(req) => Ok(ReqFrame::Req(req)),
            Err(e) => Err(e),
        }
    } else {
        Err(Error::VnUnsupported(n_ver))
    }
}

/// What a read on the client's socket gave.
#[derive(Debug)]
pub enum Input {
    /// Some bytes.
    Data(Vec<u8>),
    /// The end of the stream.
    Eof,
    /// Nothing within the time allowed.
    Timeout,
    /// A failure of the socket.
    Failed(IoKind),
}

/// What an `Input` holds, as mathematical values.
pub enum InputView {
    Data(Seq<u8>),
    Eof,
    Timeout,
    Failed(IoKind),
}

impl View for Input {
    type V = InputView;

    open spec fn view(&self) -> InputView {
        match self {
            Input::Data(d) => InputView::Data(d@),
            Input::Eof => InputView::Eof,
            Input::Timeout => InputView::Timeout,
            Input::Failed(k) => InputView::Failed(*k),
        }
    }
}

/// Where the reading of a frame stands after a read.
#[derive(Debug)]
pub enum Received {
    /// No whole frame yet: read on.
    More,
    /// A frame.
    Frame(ReqFrame),
    /// The client left before it sent anything.
    Closed,
    /// The frame cannot be read.
    Failed(Error),
}

/// What a `Received` holds, as mathematical values.
pub enum ReceivedView {
    More,
    Frame(FrameView),
    Closed,
    Failed(Error),
}

impl View for Received {
    type V = ReceivedView;

    open spec fn view(&self) -> ReceivedView {
        match self {
            Received::More => ReceivedView::More,
            Received::Frame(f) => ReceivedView::Frame(f@),
            Received::Closed => ReceivedView::Closed,
            Received::Failed(e) => ReceivedView::Failed(*e),
        }
    }
}

/// Where the reading of a frame stands once `input` has arrived, `buffer`
/// being what was read before. Bytes are parsed as soon as they arrive. The
/// end of the stream is a clean close before the first byte and a reset
/// connection after it.
pub open spec fn received(buffer: Seq<u8>, authorized: bool, input: InputView) -> ReceivedView {
    match input {
        InputView::Data(d) => match frame_of(buffer + d, authorized) {
            Ok(f) => ReceivedView::Frame(f),
            Err(Error::Incomplete) => ReceivedView::More,
            Err(e) => ReceivedView::Failed(e),
        },
        InputView::Eof => if buffer.len() == 0 {
            ReceivedView::Closed
        } else {
            ReceivedView::Failed(Error::IoErr(IoKind::ConnectionReset))
        },
        InputView::Timeout => ReceivedView::Failed(Error::ReadTimeout),
        InputView::Failed(k) => ReceivedView::Failed(Error::IoErr(k)),
    }
}

/// What is kept for the next read: nothing once a frame has been read,
/// everything otherwise.
pub open spec fn kept_bytes(buffer: Seq<u8>, authorized: bool, input: InputView) -> Seq<u8> {
    match input {
        InputView::Data(d) => match frame_of(buffer + d, authorized) {
            Ok(f) => Seq::empty(),
            _ => buffer + d,
        },
        _ => buffer,
    }
}

/// A parse of what has been read so far: a frame, or nothing while the
/// frame is incomplete.
pub fn pre_check_parsing(input: &[u8], authorized: bool) -> (r: Result<Option<ReqFrame>, Error>)
    ensures
        match r {
            Ok(Some(frame)) => frame_of(input@, authorized) == Ok::<FrameView, Error>(frame@)
                && frame@.len() <= input@.len() && (frame@ matches FrameView::Req(req)
                ==> req.wf() && req.raw == input@.subrange(0, req.raw.len() as int)),
            Ok(None) => frame_of(input@, authorized) == Err::<FrameView, Error>(Error::Incomplete),
            Err(e) => frame_of(input@, authorized) == Err::<FrameView, Error>(e) && e
                != Error::Incomplete,
        },
{
    match parse_req(input, authorized) {
        Ok(req) => Ok(Some(req)),
        Err(err) => match err {
            Error::Incomplete => Ok(None),
            _ => Err(err),
        },
    }
}

/// Takes what a read on the client's socket gave and says where the
/// reading of a frame stands. `buffer` holds the bytes of the frame read
/// so far.
pub fn recv_and_parse_req(buffer: &mut Vec<u8>, authorized: bool, input: Input) -> (r: Received)
    ensures
        r@ == received(old(buffer)@, authorized, input@),
        final(buffer)@ == kept_bytes(old(buffer)@, authorized, input@),
        r@ matches ReceivedView::Frame(FrameView::Req(req)) ==> req.wf(),
{
    match input {
        Input::Data(d) => {
            buffer.extend_from_slice(d.as_slice());
            assert(buffer@ =~= old(buffer)@ + d@);
            match pre_check_parsing(buffer.as_slice(), authorized) {
                Ok(Some(frame)) => {
                    buffer.clear();
                    Received::Frame(frame)
                },
                Ok(None) => Received::More,
                Err(e) => Received::Failed(e),
            }
        },
        Input::Eof => if buffer.len() == 0 {
            Received::Closed
        } else {
            Received::Failed(Error::IoErr(IoKind::ConnectionReset))
        },
        Input::Timeout => Received::Failed(Error::ReadTimeout),
        Input::Failed(k) => Received::Failed(Error::IoErr(k)),
    }
}

} // verus!
