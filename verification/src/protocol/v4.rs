//! SOCKS version 4, field by field.

use vstd::prelude::*;
use vstd::string::StringExecFns;
use vstd::utf8::{decode_utf8, encode_utf8, valid_utf8};
use crate::addr::IpAddress;
use crate::error::Error;
use crate::protocol::cursor::{
    be_value, get_u16, get_u32, get_u8, get_until, until_len, until_of, Cursor,
};
use crate::protocol::reply::{be_bytes, put_be};
use crate::protocol::socks::{moved, sent, NVer, Reply, ReplyView, Request, RequestView, SendFault};
use crate::protocol::ReqCmd;
use crate::text::{utf8_fault, utf8_string};

verus! {

/// The outcome in a reply of version 4.
#[derive(Debug, PartialEq, Eq, Copy, Clone, Structural)]
pub enum ReplyCmd {
    Successful,
    ConnectionRefused,
    ConnectionFailed,
    ConnectionFailedWithUserId,
}

impl ReplyCmd {
    /// The code of a wire byte: 90 to 93 in the order of the variants.
    pub open spec fn of_byte(byte: u8) -> Option<ReplyCmd> {
        if byte == 90 {
            Some(ReplyCmd::Successful)
        } else if byte == 91 {
            Some(ReplyCmd::ConnectionRefused)
        } else if byte == 92 {
            Some(ReplyCmd::ConnectionFailed)
        } else if byte == 93 {
            Some(ReplyCmd::ConnectionFailedWithUserId)
        } else {
            None
        }
    }

    /// The wire byte of a code.
    pub open spec fn byte(self) -> u8 {
        match self {
            ReplyCmd::Successful => 90,
            ReplyCmd::ConnectionRefused => 91,
            ReplyCmd::ConnectionFailed => 92,
            ReplyCmd::ConnectionFailedWithUserId => 93,
        }
    }

    pub fn from_u8(byte: u8) -> (r: Option<ReplyCmd>)
        ensures
            r == ReplyCmd::of_byte(byte),
    {
        match byte {
            90 => Some(ReplyCmd::Successful),
            91 => Some(ReplyCmd::ConnectionRefused),
            92 => Some(ReplyCmd::ConnectionFailed),
            93 => Some(ReplyCmd::ConnectionFailedWithUserId),
            _ => None,
        }
    }

    pub fn as_u8(&self) -> (r: u8)
        ensures
            r == self.byte(),
    {
        match self {
            ReplyCmd::Successful => 90,
            ReplyCmd::ConnectionRefused => 91,
            ReplyCmd::ConnectionFailed => 92,
            ReplyCmd::ConnectionFailedWithUserId => 93,
        }
    }

    /// The name of the code.
    pub open spec fn label(self) -> Seq<char> {
        match self {
            ReplyCmd::Successful => "SUCCESSFUL"@,
            ReplyCmd::ConnectionRefused => "CONNECTION_REFUSED"@,
            ReplyCmd::ConnectionFailed => "CONNECTION_FAILED"@,
            ReplyCmd::ConnectionFailedWithUserId => "CONNECTION_FAILED_WITH_USER_ID"@,
        }
    }

    /// The name of the code.
    pub fn name(&self) -> (r: &'static str)
        ensures
            r@ == self.label(),
    {
        match self {
            ReplyCmd::Successful => "SUCCESSFUL",
            ReplyCmd::ConnectionRefused => "CONNECTION_REFUSED",
            ReplyCmd::ConnectionFailed => "CONNECTION_FAILED",
            ReplyCmd::ConnectionFailedWithUserId => "CONNECTION_FAILED_WITH_USER_ID",
        }
    }

    /// The name of the variant.
    pub open spec fn variant(self) -> Seq<char> {
        match self {
            ReplyCmd::Successful => "Successful"@,
            ReplyCmd::ConnectionRefused => "ConnectionRefused"@,
            ReplyCmd::ConnectionFailed => "ConnectionFailed"@,
            ReplyCmd::ConnectionFailedWithUserId => "ConnectionFailedWithUserId"@,
        }
    }

    /// The name of the variant.
    pub fn variant_name(&self) -> (r: &'static str)
        ensures
            r@ == self.variant(),
    {
        match self {
            ReplyCmd::Successful => "Successful",
            ReplyCmd::ConnectionRefused => "ConnectionRefused",
            ReplyCmd::ConnectionFailed => "ConnectionFailed",
            ReplyCmd::ConnectionFailedWithUserId => "ConnectionFailedWithUserId",
        }
    }

    /// The wire byte of a code names that code.
    pub proof fn lemma_byte_round_trip(c: ReplyCmd)
        ensures
            ReplyCmd::of_byte(c.byte()) == Some(c),
    {
    }
}

/// The bytes of a request: version, command, port, IPv4 address and,
/// where there is a user id, its bytes and a zero byte.
pub open spec fn req_bytes(req: RequestView) -> Result<Seq<u8>, SendFault> {
    match req.dst_ip {
        Some(IpAddress::V4(a)) => Ok(
            seq![4u8, req.cmd.byte()] + be_bytes(req.dst_port as nat, 2) + be_bytes(a as nat, 4)
                + match req.user_id {
                Some(u) => encode_utf8(u) + seq![0u8],
                None => Seq::empty(),
            },
        ),
        _ => Err(SendFault::Said("the ip_addr type was not a IpAddr::V4"@)),
    }
}

/// The bytes of a request of version 4. It fails where the destination
/// is no IPv4 address.
pub fn send_req(req: Request) -> (r: Result<Vec<u8>, Error>)
    ensures
        sent(req_bytes(req@), r),
{
    let ip: u32 = match req.dst_ip {
        Some(IpAddress::V4(a)) => a,
        _ => {
            return Err(
                Error::Other(String::from_str("the ip_addr type was not a IpAddr::V4")),
            );
        },
    };
    let mut out: Vec<u8> = vec![4u8, req.cmd.as_u8()];
    put_be(&mut out, req.dst_port as u128, 2);
    put_be(&mut out, ip as u128, 4);
    match &req.user_id {
        Some(user_id) => {
            out.extend_from_slice(user_id.as_str().as_bytes());
            out.push(0);
        },
        None => {},
    }
    assert(out@ =~= req_bytes(req@)->Ok_0);
    Ok(out)
}

/// The bytes of a reply: a zero byte, the code, the port and the IPv4 address.
pub open spec fn reply_bytes(reply: ReplyView) -> Result<Seq<u8>, SendFault> {
    match reply.cmd {
        crate::protocol::socks::ReplyCmd::V5(_) => Err(SendFault::Said("invalid cmd"@)),
        crate::protocol::socks::ReplyCmd::V4(cmd) => match reply.bind_addr {
            Some(IpAddress::V4(a)) => Ok(
                seq![0u8, cmd.byte()] + be_bytes(reply.bind_port as nat, 2) + be_bytes(
                    a as nat,
                    4,
                ),
            ),
            _ => Err(SendFault::Said("the ip_addr type was not a IpAddr::V4"@)),
        },
    }
}

/// Whether `r` is what sending a reply of version 4 gives.
pub open spec fn reply_sent(reply: ReplyView, r: Result<Vec<u8>, Error>) -> bool {
    sent(reply_bytes(reply), r)
}

/// The bytes of a reply of version 4. It fails where the code is one of
/// version 5 or the bound address is no IPv4 address.
pub fn send_reply(reply: &Reply) -> (r: Result<Vec<u8>, Error>)
    ensures
        reply_sent(reply@, r),
{
    let cmd: ReplyCmd = match reply.cmd.unwrap_v4() {
        Ok(c) => c,
        Err(e) => {
            return Err(e);
        },
    };
    let ip: u32 = match reply.bind_addr {
        Some(IpAddress::V4(a)) => a,
        _ => {
            return Err(
                Error::Other(String::from_str("the ip_addr type was not a IpAddr::V4")),
            );
        },
    };
    let mut out: Vec<u8> = vec![0u8, cmd.as_u8()];
    put_be(&mut out, reply.bind_port as u128, 2);
    put_be(&mut out, ip as u128, 4);
    Ok(out)
}

/// What reading the port and the IPv4 address gives, and how many bytes
/// it takes: the port is taken before the address is looked for.
pub open spec fn addr_of(s: Seq<u8>) -> (Result<(u16, u32), Error>, int) {
    if s.len() < 2 {
        (Err(Error::Incomplete), 0)
    } else if s.len() < 6 {
        (Err(Error::Incomplete), 2)
    } else {
        (Ok((be_value(s.subrange(0, 2)) as u16, be_value(s.subrange(2, 6)) as u32)), 6)
    }
}

/// Reads the port and the IPv4 address. A read that fails leaves the
/// cursor behind what it has read.
pub fn parse_addr(src: &mut Cursor) -> (r: Result<(u16, u32), Error>)
    ensures
        r == addr_of(old(src).rest()).0,
        moved(*old(src), *final(src), addr_of(old(src).rest()).1),
{
    proof {
        src.lemma_bounds();
    }
    let port: u16 = match get_u16(src) {
        Ok(p) => p,
        Err(e) => {
            return Err(e);
        },
    };
    proof {
        src.lemma_bounds();
        assert(src.rest() =~= old(src).rest().skip(2));
        if 6 <= old(src).rest().len() {
            assert(src.rest().subrange(0, 4) =~= old(src).rest().subrange(2, 6));
        }
    }
    let ipv4: u32 = match get_u32(src) {
        Ok(a) => a,
        Err(e) => {
            return Err(e);
        },
    };
    Ok((port, ipv4))
}

/// What a request holds after its version byte, and how many bytes
/// reading it takes: the command, the port, the IPv4 address and a UTF-8
/// user id that a zero byte ends. Each field is taken before the next is
/// looked for; an unknown command is found once its byte is taken, and a
/// user id without its zero byte is taken to the end. A user id that is
/// not UTF-8 is an error in the words of std.
pub open spec fn req_of(s: Seq<u8>) -> (Result<RequestView, Error>, int) {
    if s.len() < 1 {
        (Err(Error::Incomplete), 0)
    } else if ReqCmd::of_byte(s[0]) is None {
        (Err(Error::UnknownCmd(s[0])), 1)
    } else {
        match addr_of(s.skip(1)).0 {
            Err(e) => (Err(e), 1 + addr_of(s.skip(1)).1),
            Ok((port, ip)) => match until_of(s.skip(7), 0) {
                Err(e) => (Err(e), 7 + until_len(s.skip(7), 0)),
                Ok(name) => (
                    if valid_utf8(name) {
                        Ok(
                            RequestView {
                                ver: NVer::V4,
                                cmd: ReqCmd::of_byte(s[0])->0,
                                dst_ip: Some(IpAddress::V4(ip)),
                                dst_port: port,
                                user_id: Some(decode_utf8(name)),
                                rsv: 0,
                                domain: None,
                            },
                        )
                    } else {
                        Err(Error::Other(utf8_fault(name)))
                    },
                    7 + until_len(s.skip(7), 0),
                ),
            },
        }
    }
}

/// Whether `r` and the cursor are what reading a request of version 4
/// gives. A read that fails leaves the cursor behind what it has read.
pub open spec fn req_read(old_src: Cursor, new_src: Cursor, r: Result<Request, Error>) -> bool {
    &&& moved(old_src, new_src, req_of(old_src.rest()).1)
    &&& match req_of(old_src.rest()).0 {
        Ok(req) => r is Ok && r->Ok_0@ == req,
        Err(e) => r == Err::<Request, Error>(e),
    }
}

/// Reads a request of version 4; the version byte has been read.
pub fn parse_req(src: &mut Cursor) -> (r: Result<Request, Error>)
    ensures
        req_read(*old(src), *final(src), r),
{
    let ghost s = src.rest();
    proof {
        src.lemma_bounds();
    }
    let n_cmd: u8 = match get_u8(src) {
        Ok(n) => n,
        Err(e) => {
            return Err(e);
        },
    };
    let cmd: ReqCmd = match ReqCmd::from_u8(n_cmd) {
        Some(cmd) => cmd,
        None => {
            return Err(Error::UnknownCmd(n_cmd));
        },
    };
    proof {
        src.lemma_bounds();
        assert(src.rest() =~= s.skip(1));
    }
    let (port, ipv4) = match parse_addr(src) {
        Ok(a) => a,
        Err(e) => {
            return Err(e);
        },
    };
    proof {
        src.lemma_bounds();
        assert(src.rest() =~= s.skip(7));
    }
    let name: Vec<u8> = match get_until(src, 0) {
        Ok(n) => n,
        Err(e) => {
            return Err(e);
        },
    };
    let user_id: String = match utf8_string(name) {
        Ok(u) => u,
        Err(m) => {
            return Err(Error::Other(m));
        },
    };
    Ok(
        Request {
            ver: NVer::V4,
            cmd,
            dst_ip: Some(IpAddress::V4(ipv4)),
            dst_port: port,
            user_id: Some(user_id),
            rsv: 0,
            domain: None,
        },
    )
}

/// What a reply holds after its first byte, and how many bytes reading
/// it takes: the code, the port and the IPv4 address. Each field is taken
/// before the next is looked for.
pub open spec fn reply_of(s: Seq<u8>) -> (Result<ReplyView, Error>, int) {
    if s.len() < 1 {
        (Err(Error::Incomplete), 0)
    } else if ReplyCmd::of_byte(s[0]) is None {
        (Err(Error::UnknownCmd(s[0])), 1)
    } else {
        match addr_of(s.skip(1)).0 {
            Err(e) => (Err(e), 1 + addr_of(s.skip(1)).1),
            Ok((port, ip)) => (
                Ok(
                    ReplyView {
                        ver: NVer::V4,
                        cmd: crate::protocol::socks::ReplyCmd::V4(ReplyCmd::of_byte(s[0])->0),
                        rsv: 0,
                        bind_addr: Some(IpAddress::V4(ip)),
                        domain: None,
                        bind_port: port,
                    },
                ),
                7,
            ),
        }
    }
}

/// Whether `r` and the cursor are what reading a reply of version 4
/// gives. A read that fails leaves the cursor behind what it has read.
pub open spec fn reply_read(old_src: Cursor, new_src: Cursor, r: Result<Reply, Error>) -> bool {
    &&& moved(old_src, new_src, reply_of(old_src.rest()).1)
    &&& match reply_of(old_src.rest()).0 {
        Ok(reply) => r is Ok && r->Ok_0@ == reply,
        Err(e) => r == Err::<Reply, Error>(e),
    }
}

/// Reads a reply of version 4; its first byte has been read.
pub fn parse_reply(src: &mut Cursor) -> (r: Result<Reply, Error>)
    ensures
        reply_read(*old(src), *final(src), r),
{
    let ghost s = src.rest();
    proof {
        src.lemma_bounds();
    }
    let n_cmd: u8 = match get_u8(src) {
        Ok(n) => n,
        Err(e) => {
            return Err(e);
        },
    };
    let cmd: ReplyCmd = match ReplyCmd::from_u8(n_cmd) {
        Some(cmd) => cmd,
        None => {
            return Err(Error::UnknownCmd(n_cmd));
        },
    };
    proof {
        src.lemma_bounds();
        assert(src.rest() =~= s.skip(1));
    }
    let (port, ipv4) = match parse_addr(src) {
        Ok(a) => a,
        Err(e) => {
            return Err(e);
        },
    };
    Ok(
        Reply {
            ver: NVer::V4,
            cmd: crate::protocol::socks::ReplyCmd::V4(cmd),
            bind_addr: Some(IpAddress::V4(ipv4)),
            domain: None,
            bind_port: port,
            rsv: 0,
        },
    )
}

} // verus!
