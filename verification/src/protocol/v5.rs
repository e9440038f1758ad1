//! SOCKS version 5, field by field.

use vstd::prelude::*;
use vstd::slice::slice_subrange;
use vstd::string::StringExecFns;
use vstd::utf8::{decode_utf8, encode_utf8, valid_utf8};
use crate::addr::IpAddress;
use crate::error::Error;
use crate::protocol::cursor::{be_value, get_n_bytes, get_u128, get_u16, get_u32, get_u8, Cursor};
use crate::protocol::reply::{be_bytes, put_be};
use crate::protocol::socks::{
    moved, sent, Method, NVer, Reply, ReplyAuth, ReplyView, ReqAuth, Request, RequestView, SendFault,
};
use crate::protocol::ReqCmd;
use crate::text::{utf8_fault, utf8_string};

verus! {

/// The outcome in a reply of version 5.
#[derive(Debug, PartialEq, Eq, Copy, Clone, Structural)]
pub enum ReplyCmd {
    Successful,
    ServerError,
    RulesNotAllowed,
    NetworkUnreachable,
    HostUnreachable,
    ConnectionRefused,
    TtlExpired,
    CmdUnsupported,
    AddrTypeUnsupported,
}

impl ReplyCmd {
    /// The wire byte of a code: 0 to 8 in the order of the variants.
    pub open spec fn byte(self) -> u8 {
        match self {
            ReplyCmd::Successful => 0,
            ReplyCmd::ServerError => 1,
            ReplyCmd::RulesNotAllowed => 2,
            ReplyCmd::NetworkUnreachable => 3,
            ReplyCmd::HostUnreachable => 4,
            ReplyCmd::ConnectionRefused => 5,
            ReplyCmd::TtlExpired => 6,
            ReplyCmd::CmdUnsupported => 7,
            ReplyCmd::AddrTypeUnsupported => 8,
        }
    }

    /// The code of a wire byte.
    pub open spec fn of_byte(byte: u8) -> Option<ReplyCmd> {
        if byte == 0 {
            Some(ReplyCmd::Successful)
        } else if byte == 1 {
            Some(ReplyCmd::ServerError)
        } else if byte == 2 {
            Some(ReplyCmd::RulesNotAllowed)
        } else if byte == 3 {
            Some(ReplyCmd::NetworkUnreachable)
        } else if byte == 4 {
            Some(ReplyCmd::HostUnreachable)
        } else if byte == 5 {
            Some(ReplyCmd::ConnectionRefused)
        } else if byte == 6 {
            Some(ReplyCmd::TtlExpired)
        } else if byte == 7 {
            Some(ReplyCmd::CmdUnsupported)
        } else if byte == 8 {
            Some(ReplyCmd::AddrTypeUnsupported)
        } else {
            None
        }
    }

    pub fn from_u8(byte: u8) -> (r: Option<ReplyCmd>)
        ensures
            r == ReplyCmd::of_byte(byte),
    {
        match byte {
            0 => Some(ReplyCmd::Successful),
            1 => Some(ReplyCmd::ServerError),
            2 => Some(ReplyCmd::RulesNotAllowed),
            3 => Some(ReplyCmd::NetworkUnreachable),
            4 => Some(ReplyCmd::HostUnreachable),
            5 => Some(ReplyCmd::ConnectionRefused),
            6 => Some(ReplyCmd::TtlExpired),
            7 => Some(ReplyCmd::CmdUnsupported),
            8 => Some(ReplyCmd::AddrTypeUnsupported),
            _ => None,
        }
    }

    pub fn as_u8(&self) -> (r: u8)
        ensures
            r == self.byte(),
    {
        match self {
            ReplyCmd::Successful => 0,
            ReplyCmd::ServerError => 1,
            ReplyCmd::RulesNotAllowed => 2,
            ReplyCmd::NetworkUnreachable => 3,
            ReplyCmd::HostUnreachable => 4,
            ReplyCmd::ConnectionRefused => 5,
            ReplyCmd::TtlExpired => 6,
            ReplyCmd::CmdUnsupported => 7,
            ReplyCmd::AddrTypeUnsupported => 8,
        }
    }

    /// The name of the code.
    pub open spec fn label(self) -> Seq<char> {
        match self {
            ReplyCmd::Successful => "SUCCESSFUL"@,
            ReplyCmd::ServerError => "SERVER_ERROR"@,
            ReplyCmd::RulesNotAllowed => "RULES_NOT_ALLOWED"@,
            ReplyCmd::NetworkUnreachable => "NETWORK_UNREACHABLE"@,
            ReplyCmd::HostUnreachable => "HOST_UNREACHABLE"@,
            ReplyCmd::ConnectionRefused => "CONNECTION_REFUSED"@,
            ReplyCmd::TtlExpired => "TTL_EXPIRED"@,
            ReplyCmd::CmdUnsupported => "CMD_UNSUPPORTED"@,
            ReplyCmd::AddrTypeUnsupported => "ADDR_TYPE_UNSUPPORTED"@,
        }
    }

    /// The name of the code.
    pub fn name(&self) -> (r: &'static str)
        ensures
            r@ == self.label(),
    {
        match self {
            ReplyCmd::Successful => "SUCCESSFUL",
            ReplyCmd::ServerError => "SERVER_ERROR",
            ReplyCmd::RulesNotAllowed => "RULES_NOT_ALLOWED",
            ReplyCmd::NetworkUnreachable => "NETWORK_UNREACHABLE",
            ReplyCmd::HostUnreachable => "HOST_UNREACHABLE",
            ReplyCmd::ConnectionRefused => "CONNECTION_REFUSED",
            ReplyCmd::TtlExpired => "TTL_EXPIRED",
            ReplyCmd::CmdUnsupported => "CMD_UNSUPPORTED",
            ReplyCmd::AddrTypeUnsupported => "ADDR_TYPE_UNSUPPORTED",
        }
    }

    /// The name of the variant.
    pub open spec fn variant(self) -> Seq<char> {
        match self {
            ReplyCmd::Successful => "Successful"@,
            ReplyCmd::ServerError => "ServerError"@,
            ReplyCmd::RulesNotAllowed => "RulesNotAllowed"@,
            ReplyCmd::NetworkUnreachable => "NetworkUnreachable"@,
            ReplyCmd::HostUnreachable => "HostUnreachable"@,
            ReplyCmd::ConnectionRefused => "ConnectionRefused"@,
            ReplyCmd::TtlExpired => "TtlExpired"@,
            ReplyCmd::CmdUnsupported => "CmdUnsupported"@,
            ReplyCmd::AddrTypeUnsupported => "AddrTypeUnsupported"@,
        }
    }

    /// The name of the variant.
    pub fn variant_name(&self) -> (r: &'static str)
        ensures
            r@ == self.variant(),
    {
        match self {
            ReplyCmd::Successful => "Successful",
            ReplyCmd::ServerError => "ServerError",
            ReplyCmd::RulesNotAllowed => "RulesNotAllowed",
            ReplyCmd::NetworkUnreachable => "NetworkUnreachable",
            ReplyCmd::HostUnreachable => "HostUnreachable",
            ReplyCmd::ConnectionRefused => "ConnectionRefused",
            ReplyCmd::TtlExpired => "TtlExpired",
            ReplyCmd::CmdUnsupported => "CmdUnsupported",
            ReplyCmd::AddrTypeUnsupported => "AddrTypeUnsupported",
        }
    }

    /// The wire byte of a code names that code.
    pub proof fn lemma_byte_round_trip(c: ReplyCmd)
        ensures
            ReplyCmd::of_byte(c.byte()) == Some(c),
    {
    }
}

/// The bytes of an address and a port: for a domain name the type 3, a
/// length and at most 255 bytes of the name; else for an IPv4 address the
/// type 1 and four bytes, for an IPv6 address the type 4 and sixteen bytes.
pub open spec fn addr_bytes(ip: Option<IpAddress>, domain: Option<Seq<u8>>, port: u16) -> Result<
    Seq<u8>,
    SendFault,
> {
    match domain {
        Some(d) => Ok(
            if d.len() <= 255 {
                seq![3u8, d.len() as u8] + d
            } else {
                seq![3u8, 255u8] + d.subrange(0, 255)
            } + be_bytes(port as nat, 2),
        ),
        None => match ip {
            None => Err(SendFault::NoAddress),
            Some(IpAddress::V4(a)) => Ok(
                seq![1u8] + be_bytes(a as nat, 4) + be_bytes(port as nat, 2),
            ),
            Some(IpAddress::V6(a)) => Ok(
                seq![4u8] + be_bytes(a as nat, 16) + be_bytes(port as nat, 2),
            ),
        },
    }
}

/// The UTF-8 bytes of optional characters.
pub open spec fn name_bytes(name: Option<Seq<char>>) -> Option<Seq<u8>> {
    match name {
        Some(n) => Some(encode_utf8(n)),
        None => None,
    }
}

/// Appends an address and a port. It fails where there is neither a
/// domain name nor an address.
pub fn send_addr(out: &mut Vec<u8>, addr: (&Option<IpAddress>, &Option<String>), port: u16) -> (r:
    Result<(), Error>)
    ensures
        match addr_bytes(
            *addr.0,
            match *addr.1 {
                Some(d) => Some(encode_utf8(d@)),
                None => None,
            },
            port,
        ) {
            Ok(bytes) => r is Ok && final(out)@ == old(out)@ + bytes,
            Err(f) => r == Err::<(), Error>(Error::AddrTypeUnsupported) && final(out)@ == old(
                out,
            )@,
        },
{
    let (ip_addr, domain) = addr;
    match domain {
        Some(d) => {
            let bytes: &[u8] = d.as_str().as_bytes();
            let len: usize = if bytes.len() <= 255 {
                bytes.len()
            } else {
                255
            };
            out.push(3);
            out.push(len as u8);
            out.extend_from_slice(slice_subrange(bytes, 0, len));
        },
        None => match ip_addr {
            None => {
                return Err(Error::AddrTypeUnsupported);
            },
            Some(IpAddress::V4(a)) => {
                out.push(1);
                put_be(out, *a as u128, 4);
            },
            Some(IpAddress::V6(a)) => {
                out.push(4);
                put_be(out, *a, 16);
            },
        },
    }
    put_be(out, port as u128, 2);
    assert(final(out)@ =~= old(out)@ + addr_bytes(
        *addr.0,
        match *addr.1 {
            Some(d) => Some(encode_utf8(d@)),
            None => None,
        },
        port,
    )->Ok_0);
    Ok(())
}

/// The bytes of a reply: the version, the code, a reserved zero byte,
/// the bound address and the port.
pub open spec fn reply_bytes(reply: ReplyView) -> Result<Seq<u8>, SendFault> {
    match reply.cmd {
        crate::protocol::socks::ReplyCmd::V4(_) => Err(
            SendFault::Said("the cmd type was not a v5::ReplyCmd"@),
        ),
        crate::protocol::socks::ReplyCmd::V5(cmd) => match addr_bytes(
            reply.bind_addr,
            name_bytes(reply.domain),
            reply.bind_port,
        ) {
            Ok(bytes) => Ok(seq![5u8, cmd.byte(), 0u8] + bytes),
            Err(f) => Err(f),
        },
    }
}

/// Whether `r` is what sending a reply of version 5 gives.
pub open spec fn reply_sent(reply: ReplyView, r: Result<Vec<u8>, Error>) -> bool {
    sent(reply_bytes(reply), r)
}

/// The bytes of a reply of version 5. It fails where the code is one of
/// version 4 or the reply holds no address.
pub fn send_reply(reply: &Reply) -> (r: Result<Vec<u8>, Error>)
    ensures
        reply_sent(reply@, r),
{
    let cmd: ReplyCmd = match reply.cmd {
        crate::protocol::socks::ReplyCmd::V5(cmd) => cmd,
        _ => {
            return Err(Error::Other(String::from_str("the cmd type was not a v5::ReplyCmd")));
        },
    };
    let mut out: Vec<u8> = vec![5u8, cmd.as_u8(), 0u8];
    match send_addr(&mut out, (&reply.bind_addr, &reply.domain), reply.bind_port) {
        Ok(()) => Ok(out),
        Err(e) => Err(e),
    }
}

/// What a method negotiation holds after its version byte, and how many
/// bytes reading it takes: a count and as many methods; no methods at all
/// where the count is zero. The count is taken before the methods are
/// looked for.
pub open spec fn auth_req_of(s: Seq<u8>) -> (Result<Option<Seq<u8>>, Error>, int) {
    if s.len() < 1 {
        (Err(Error::Incomplete), 0)
    } else if s[0] == 0 {
        (Ok(None), 1)
    } else if s.len() < 1 + s[0] {
        (Err(Error::Incomplete), 1)
    } else {
        (Ok(Some(s.subrange(1, 1 + s[0]))), 1 + s[0])
    }
}

/// Whether `r` and the cursor are what reading a method negotiation
/// gives. A read that fails leaves the cursor behind what it has read.
pub open spec fn auth_req_read(old_src: Cursor, new_src: Cursor, r: Result<ReqAuth, Error>) -> bool {
    &&& moved(old_src, new_src, auth_req_of(old_src.rest()).1)
    &&& match auth_req_of(old_src.rest()).0 {
        Ok(methods) => r is Ok && (match r->Ok_0.methods {
            Some(m) => Some(m@),
            None => None,
        }) == methods,
        Err(e) => r == Err::<ReqAuth, Error>(e),
    }
}

/// Reads the methods that a client offers; the version byte has been read.
pub fn parse_auth_req(src: &mut Cursor) -> (r: Result<ReqAuth, Error>)
    ensures
        auth_req_read(*old(src), *final(src), r),
{
    let ghost s = src.rest();
    proof {
        src.lemma_bounds();
    }
    let n_methods: u8 = match get_u8(src) {
        Ok(n) => n,
        Err(e) => {
            return Err(e);
        },
    };
    proof {
        src.lemma_bounds();
        assert(src.rest() =~= s.skip(1));
        if 1 + n_methods <= s.len() {
            assert(src.rest().subrange(0, n_methods as int) =~= s.subrange(1, 1 + n_methods));
        }
    }
    if n_methods > 0 {
        let methods: Vec<u8> = match get_n_bytes(src, n_methods as usize) {
            Ok(m) => m,
            Err(e) => {
                return Err(e);
            },
        };
        Ok(ReqAuth { methods: Some(methods) })
    } else {
        Ok(ReqAuth { methods: None })
    }
}

/// Whether `r` and the cursor are what reading a method selection gives:
/// one byte that names the method. The byte is taken before it is judged:
/// 0xff names no method, the server has refused, and the cursor stands
/// behind that byte all the same. Only where no byte is left does the
/// cursor stay.
pub open spec fn auth_reply_read(old_src: Cursor, new_src: Cursor, r: Result<ReplyAuth, Error>) -> bool {
    let s = old_src.rest();
    if s.len() < 1 {
        r == Err::<ReplyAuth, Error>(Error::Incomplete) && moved(old_src, new_src, 0)
    } else {
        &&& moved(old_src, new_src, 1)
        &&& match Method::of_byte(s[0]) {
            Some(method) => r == Ok::<ReplyAuth, Error>(ReplyAuth { method }),
            None => r == Err::<ReplyAuth, Error>(Error::ServerRefusedAuth),
        }
    }
}

/// Reads the method that a server selects; the version byte has been read.
pub fn parse_auth_reply(src: &mut Cursor) -> (r: Result<ReplyAuth, Error>)
    ensures
        auth_reply_read(*old(src), *final(src), r),
{
    proof {
        src.lemma_bounds();
    }
    let byte: u8 = match get_u8(src) {
        Ok(b) => b,
        Err(e) => {
            return Err(e);
        },
    };
    match Method::from_u8(byte) {
        Some(method) => Ok(ReplyAuth { method }),
        None => Err(Error::ServerRefusedAuth),
    }
}

/// The address that starts `s`, and how many bytes reading it takes: the
/// type and, after it, four bytes of IPv4, a length and as many bytes of a
/// UTF-8 domain name, or sixteen bytes of IPv6. Each field is taken before
/// the next is looked for: the type before the address, the length before
/// the name, and the name before it is judged. A name that is not UTF-8
/// is an error in the words of std.
pub open spec fn addr_of(s: Seq<u8>) -> (Result<(Option<IpAddress>, Option<Seq<char>>), Error>, int) {
    if s.len() < 1 {
        (Err(Error::Incomplete), 0)
    } else if s[0] == 1 {
        if s.len() < 5 {
            (Err(Error::Incomplete), 1)
        } else {
            (Ok((Some(IpAddress::V4(be_value(s.subrange(1, 5)) as u32)), None)), 5)
        }
    } else if s[0] == 3 {
        if s.len() < 2 {
            (Err(Error::Incomplete), 1)
        } else if s.len() < 2 + s[1] {
            (Err(Error::Incomplete), 2)
        } else if !valid_utf8(s.subrange(2, 2 + s[1])) {
            (Err(Error::Other(utf8_fault(s.subrange(2, 2 + s[1])))), 2 + s[1])
        } else {
            (Ok((None, Some(decode_utf8(s.subrange(2, 2 + s[1]))))), 2 + s[1])
        }
    } else if s[0] == 4 {
        if s.len() < 17 {
            (Err(Error::Incomplete), 1)
        } else {
            (Ok((Some(IpAddress::V6(be_value(s.subrange(1, 17)) as u128)), None)), 17)
        }
    } else {
        (Err(Error::AddrTypeUnsupported), 1)
    }
}

/// Reads an address. A read that fails leaves the cursor behind what it
/// has read.
pub fn get_addr(src: &mut Cursor) -> (r: Result<(Option<IpAddress>, Option<String>), Error>)
    ensures
        moved(*old(src), *final(src), addr_of(old(src).rest()).1),
        match r {
            Ok((ip, domain)) => addr_of(old(src).rest()).0 == Ok::<
                (Option<IpAddress>, Option<Seq<char>>),
                Error,
            >(
                (
                    ip,
                    match domain {
                        Some(d) => Some(d@),
                        None => None,
                    },
                ),
            ),
            Err(e) => addr_of(old(src).rest()).0 == Err::<
                (Option<IpAddress>, Option<Seq<char>>),
                Error,
            >(e),
        },
{
    let ghost s = src.rest();
    proof {
        src.lemma_bounds();
    }
    let n_type: u8 = match get_u8(src) {
        Ok(n) => n,
        Err(e) => {
            return Err(e);
        },
    };
    proof {
        src.lemma_bounds();
        assert(src.rest() =~= s.skip(1));
        if 5 <= s.len() {
            assert(src.rest().subrange(0, 4) =~= s.subrange(1, 5));
        }
        if 17 <= s.len() {
            assert(src.rest().subrange(0, 16) =~= s.subrange(1, 17));
        }
    }
    if n_type == 1 {
        match get_u32(src) {
            Ok(a) => Ok((Some(IpAddress::V4(a)), None)),
            Err(e) => Err(e),
        }
    } else if n_type == 3 {
        let a_len: u8 = match get_u8(src) {
            Ok(n) => n,
            Err(e) => {
                return Err(e);
            },
        };
        proof {
            src.lemma_bounds();
            assert(src.rest() =~= s.skip(2));
            if 2 + a_len <= s.len() {
                assert(src.rest().subrange(0, a_len as int) =~= s.subrange(2, 2 + a_len));
            }
        }
        let name: Vec<u8> = match get_n_bytes(src, a_len as usize) {
            Ok(n) => n,
            Err(e) => {
                return Err(e);
            },
        };
        match utf8_string(name) {
            Ok(d) => Ok((None, Some(d))),
            Err(m) => Err(Error::Other(m)),
        }
    } else if n_type == 4 {
        match get_u128(src) {
            Ok(a) => Ok((Some(IpAddress::V6(a)), None)),
            Err(e) => Err(e),
        }
    } else {
        Err(Error::AddrTypeUnsupported)
    }
}

/// What follows the two first bytes of a request or a reply, and how
/// many bytes reading it takes: the address and the port. The address is
/// taken before the port is looked for.
pub open spec fn tail_of(s: Seq<u8>) -> (
    Result<(Option<IpAddress>, Option<Seq<char>>, u16), Error>,
    int,
) {
    let n = addr_of(s).1;
    match addr_of(s).0 {
        Err(e) => (Err(e), n),
        Ok((ip, domain)) => if s.len() < n + 2 {
            (Err(Error::Incomplete), n)
        } else {
            (Ok((ip, domain, be_value(s.subrange(n, n + 2)) as u16)), n + 2)
        },
    }
}

/// Reads an address and a port.
fn get_tail(src: &mut Cursor) -> (r: Result<(Option<IpAddress>, Option<String>, u16), Error>)
    ensures
        moved(*old(src), *final(src), tail_of(old(src).rest()).1),
        match r {
            Ok((ip, domain, port)) => tail_of(old(src).rest()).0 == Ok::<
                (Option<IpAddress>, Option<Seq<char>>, u16),
                Error,
            >(
                (
                    ip,
                    match domain {
                        Some(d) => Some(d@),
                        None => None,
                    },
                    port,
                ),
            ),
            Err(e) => tail_of(old(src).rest()).0 == Err::<
                (Option<IpAddress>, Option<Seq<char>>, u16),
                Error,
            >(e),
        },
{
    let ghost s = src.rest();
    let (ip, domain) = match get_addr(src) {
        Ok(a) => a,
        Err(e) => {
            return Err(e);
        },
    };
    proof {
        old(src).lemma_bounds();
        src.lemma_bounds();
        let n = addr_of(s).1;
        assert(src.rest() =~= s.skip(n));
        if n + 2 <= s.len() {
            assert(src.rest().subrange(0, 2) =~= s.subrange(n, n + 2));
        }
    }
    let port: u16 = match get_u16(src) {
        Ok(p) => p,
        Err(e) => {
            return Err(e);
        },
    };
    Ok((ip, domain, port))
}

/// What a request holds after its version byte, and how many bytes
/// reading it takes: the command, a reserved byte, the address and the
/// port. Each field is taken before the next is looked for; an unknown
/// command is found once its byte is taken.
pub open spec fn req_of(s: Seq<u8>) -> (Result<RequestView, Error>, int) {
    if s.len() < 1 {
        (Err(Error::Incomplete), 0)
    } else if ReqCmd::of_byte(s[0]) is None {
        (Err(Error::UnknownCmd(s[0])), 1)
    } else if s.len() < 2 {
        (Err(Error::Incomplete), 1)
    } else {
        match tail_of(s.skip(2)).0 {
            Err(e) => (Err(e), 2 + tail_of(s.skip(2)).1),
            Ok((ip, domain, port)) => (
                Ok(
                    RequestView {
                        ver: NVer::V5,
                        cmd: ReqCmd::of_byte(s[0])->0,
                        dst_ip: ip,
                        dst_port: port,
                        user_id: None,
                        rsv: s[1],
                        domain,
                    },
                ),
                2 + tail_of(s.skip(2)).1,
            ),
        }
    }
}

/// Whether `r` and the cursor are what reading a request of version 5
/// gives. A read that fails leaves the cursor behind what it has read.
pub open spec fn req_read(old_src: Cursor, new_src: Cursor, r: Result<Request, Error>) -> bool {
    &&& moved(old_src, new_src, req_of(old_src.rest()).1)
    &&& match req_of(old_src.rest()).0 {
        Ok(req) => r is Ok && r->Ok_0@ == req,
        Err(e) => r == Err::<Request, Error>(e),
    }
}

/// Reads a request of version 5; the version byte has been read.
pub fn parse_req(src: &mut Cursor) -> (r: Result<Request, Error>)
    ensures
        req_read(*old(src), *final(src), r),
{
    let ghost s = src.rest();
    proof {
        src.lemma_bounds();
    }
    let n_cmd: u8 = match get_u8(src) {
        Ok(n) => n,
        Err(e) => {
            return Err(e);
        },
    };
    let cmd: ReqCmd = match ReqCmd::from_u8(n_cmd) {
        Some(cmd) => cmd,
        None => {
            return Err(Error::UnknownCmd(n_cmd));
        },
    };
    proof {
        src.lemma_bounds();
        assert(src.rest() =~= s.skip(1));
    }
    let rsv: u8 = match get_u8(src) {
        Ok(n) => n,
        Err(e) => {
            return Err(e);
        },
    };
    proof {
        src.lemma_bounds();
        assert(src.rest() =~= s.skip(2));
    }
    let (dst_ip, domain, dst_port) = match get_tail(src) {
        Ok(a) => a,
        Err(e) => {
            return Err(e);
        },
    };
    Ok(Request { ver: NVer::V5, cmd, dst_ip, domain, dst_port, user_id: None, rsv })
}

/// What a reply holds after its version byte, and how many bytes reading
/// it takes: the code, a reserved byte, the bound address and the port.
/// Each field is taken before the next is looked for; an unknown code is
/// found once its byte is taken.
pub open spec fn reply_of(s: Seq<u8>) -> (Result<ReplyView, Error>, int) {
    if s.len() < 1 {
        (Err(Error::Incomplete), 0)
    } else if ReplyCmd::of_byte(s[0]) is None {
        (Err(Error::UnknownCmd(s[0])), 1)
    } else if s.len() < 2 {
        (Err(Error::Incomplete), 1)
    } else {
        match tail_of(s.skip(2)).0 {
            Err(e) => (Err(e), 2 + tail_of(s.skip(2)).1),
            Ok((ip, domain, port)) => (
                Ok(
                    ReplyView {
                        ver: NVer::V5,
                        cmd: crate::protocol::socks::ReplyCmd::V5(ReplyCmd::of_byte(s[0])->0),
                        rsv: s[1],
                        bind_addr: ip,
                        domain,
                        bind_port: port,
                    },
                ),
                2 + tail_of(s.skip(2)).1,
            ),
        }
    }
}

/// Whether `r` and the cursor are what reading a reply of version 5
/// gives. A read that fails leaves the cursor behind what it has read.
pub open spec fn reply_read(old_src: Cursor, new_src: Cursor, r: Result<Reply, Error>) -> bool {
    &&& moved(old_src, new_src, reply_of(old_src.rest()).1)
    &&& match reply_of(old_src.rest()).0 {
        Ok(reply) => r is Ok && r->Ok_0@ == reply,
        Err(e) => r == Err::<Reply, Error>(e),
    }
}

/// Reads a reply of version 5; the version byte has been read.
pub fn parse_reply(src: &mut Cursor) -> (r: Result<Reply, Error>)
    ensures
        reply_read(*old(src), *final(src), r),
{
    let ghost s = src.rest();
    proof {
        src.lemma_bounds();
    }
    let n_cmd: u8 = match get_u8(src) {
        Ok(n) => n,
        Err(e) => {
            return Err(e);
        },
    };
    let cmd: ReplyCmd = match ReplyCmd::from_u8(n_cmd) {
        Some(cmd) => cmd,
        None => {
            return Err(Error::UnknownCmd(n_cmd));
        },
    };
    proof {
        src.lemma_bounds();
        assert(src.rest() =~= s.skip(1));
    }
    let rsv: u8 = match get_u8(src) {
        Ok(n) => n,
        Err(e) => {
            return Err(e);
        },
    };
    proof {
        src.lemma_bounds();
        assert(src.rest() =~= s.skip(2));
    }
    let (bind_addr, domain, port) = match get_tail(src) {
        Ok(a) => a,
        Err(e) => {
            return Err(e);
        },
    };
    Ok(
        Reply {
            ver: NVer::V5,
            cmd: crate::protocol::socks::ReplyCmd::V5(cmd),
            bind_addr,
            domain,
            bind_port: port,
            rsv,
        },
    )
}

} // verus!
