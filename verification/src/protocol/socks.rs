//! SOCKS messages of both sides, field by field: what a client sends and
//! what a server answers, in version 4 and version 5.

pub use crate::protocol::cursor::{get_n_bytes, get_u128, get_u16, get_u32, get_u8, get_until};
pub use crate::protocol::ReqCmd;

use vstd::prelude::*;
use vstd::string::StringExecFns;
use crate::addr::IpAddress;
use crate::error::Error;
use crate::text::{decimal, to_decimal};
use crate::protocol::cursor::Cursor;
use crate::protocol::{v4, v5};

verus! {

/// The methods a SOCKS5 client offers; nothing where it offers none.
#[derive(Debug, PartialEq)]
pub struct ReqAuth {
    pub methods: Option<Vec<u8>>,
}

/// The method a SOCKS5 server selects.
#[derive(Debug, PartialEq)]
pub struct ReplyAuth {
    pub method: Method,
}

impl ReplyAuth {
    /// The bytes of the selection: the version and the method.
    pub fn send(&self) -> (r: Vec<u8>)
        ensures
            r@ == seq![5u8, self.method.byte()],
    {
        vec![5u8, self.method.as_u8()]
    }
}

/// The authentication methods of SOCKS5, by range of their wire byte.
#[derive(Debug, PartialEq, Eq, Copy, Clone, Structural)]
pub enum Method {
    NoAuth,
    GssApi,
    UserVerify,
    IanaAssigned,
    Private,
}

impl Method {
    /// The method of a wire byte: 0, 1, 2, then 3 to 0x7f for methods that
    /// IANA assigns and 0x80 to 0xfe for private ones. 0xff is no method.
    pub open spec fn of_byte(byte: u8) -> Option<Method> {
        if byte == 0 {
            Some(Method::NoAuth)
        } else if byte == 1 {
            Some(Method::GssApi)
        } else if byte == 2 {
            Some(Method::UserVerify)
        } else if byte <= 0x7f {
            Some(Method::IanaAssigned)
        } else if byte <= 0xfe {
            Some(Method::Private)
        } else {
            None
        }
    }

    /// The wire byte of a method; the first of its range.
    pub open spec fn byte(self) -> u8 {
        match self {
            Method::NoAuth => 0,
            Method::GssApi => 1,
            Method::UserVerify => 2,
            Method::IanaAssigned => 3,
            Method::Private => 0x80,
        }
    }

    pub fn from_u8(byte: u8) -> (r: Option<Method>)
        ensures
            r == Method::of_byte(byte),
    {
        if byte == 0 {
            Some(Method::NoAuth)
        } else if byte == 1 {
            Some(Method::GssApi)
        } else if byte == 2 {
            Some(Method::UserVerify)
        } else if byte <= 0x7f {
            Some(Method::IanaAssigned)
        } else if byte <= 0xfe {
            Some(Method::Private)
        } else {
            None
        }
    }

    pub fn as_u8(&self) -> (r: u8)
        ensures
            r == self.byte(),
    {
        match self {
            Method::NoAuth => 0,
            Method::GssApi => 1,
            Method::UserVerify => 2,
            Method::IanaAssigned => 3,
            Method::Private => 0x80,
        }
    }

    /// The wire byte of a method names that method.
    pub proof fn lemma_byte_round_trip(m: Method)
        ensures
            Method::of_byte(m.byte()) == Some(m),
    {
    }
}

/// The version of SOCKS.
#[derive(Debug, PartialEq, Eq, Copy, Clone, Structural)]
pub enum NVer {
    V4,
    V5,
}

impl NVer {
    /// The wire byte: 4 or 5.
    pub open spec fn byte(self) -> u8 {
        match self {
            NVer::V4 => 4,
            NVer::V5 => 5,
        }
    }

    pub fn as_u8(&self) -> (r: u8)
        ensures
            r == self.byte(),
    {
        match self {
            NVer::V4 => 4,
            NVer::V5 => 5,
        }
    }

    /// The name of the version: `V4` or `V5`.
    pub open spec fn label(self) -> Seq<char> {
        match self {
            NVer::V4 => "V4"@,
            NVer::V5 => "V5"@,
        }
    }

    /// The name of the version.
    pub fn name(&self) -> (r: &'static str)
        ensures
            r@ == self.label(),
    {
        match self {
            NVer::V4 => "V4",
            NVer::V5 => "V5",
        }
    }
}

/// What a SOCKS client asks for.
#[derive(Debug, PartialEq)]
pub struct Request {
    pub ver: NVer,
    pub cmd: ReqCmd,
    pub dst_ip: Option<IpAddress>,
    pub dst_port: u16,
    pub user_id: Option<String>,
    pub rsv: u8,
    pub domain: Option<String>,
}

/// What a `Request` holds, as mathematical values.
pub struct RequestView {
    pub ver: NVer,
    pub cmd: ReqCmd,
    pub dst_ip: Option<IpAddress>,
    pub dst_port: u16,
    pub user_id: Option<Seq<char>>,
    pub rsv: u8,
    pub domain: Option<Seq<char>>,
}

/// An optional text as it stands, or nothing.
pub open spec fn or_empty(text: Option<Seq<char>>) -> Seq<char> {
    match text {
        Some(t) => t,
        None => Seq::empty(),
    }
}

impl RequestView {
    /// The request in one line, for a log. What it lacks is left empty.
    pub open spec fn text(self) -> Seq<char> {
        "vn: "@ + self.ver.label() + ", cmd: "@ + self.cmd.variant() + ", dst_ip: "@
            + crate::addr::plain_text(self.dst_ip) + ", domain: "@ + or_empty(self.domain)
            + ", dst_port: "@ + decimal(self.dst_port as nat) + ", user_id: "@ + or_empty(
            self.user_id,
        )
    }
}

impl Request {
    /// The request in one line, for a log.
    pub fn to_text(&self) -> (r: String)
        ensures
            r@ == self@.text(),
    {
        let mut s: String = String::from_str("vn: ");
        s.append(self.ver.name());
        s.append(", cmd: ");
        s.append(self.cmd.variant_name());
        s.append(", dst_ip: ");
        let ip: String = crate::addr::plain_string(&self.dst_ip);
        s.append(ip.as_str());
        s.append(", domain: ");
        match &self.domain {
            Some(d) => s.append(d.as_str()),
            None => {},
        }
        s.append(", dst_port: ");
        let port: String = to_decimal(self.dst_port);
        s.append(port.as_str());
        s.append(", user_id: ");
        match &self.user_id {
            Some(u) => s.append(u.as_str()),
            None => {},
        }
        assert(s@ =~= self@.text());
        s
    }
}

impl View for Request {
    type V = RequestView;

    open spec fn view(&self) -> RequestView {
        RequestView {
            ver: self.ver,
            cmd: self.cmd,
            dst_ip: self.dst_ip,
            dst_port: self.dst_port,
            user_id: match self.user_id {
                Some(u) => Some(u@),
                None => None,
            },
            rsv: self.rsv,
            domain: match self.domain {
                Some(d) => Some(d@),
                None => None,
            },
        }
    }
}

/// The outcome in a reply, in the codes of its version.
#[derive(Debug, PartialEq, Eq, Copy, Clone, Structural)]
pub enum ReplyCmd {
    V4(v4::ReplyCmd),
    V5(v5::ReplyCmd),
}

impl ReplyCmd {
    /// The code as written for a programmer: the version and, in
    /// brackets, the name of the variant.
    pub open spec fn variant(self) -> Seq<char> {
        match self {
            ReplyCmd::V4(c) => "V4("@ + c.variant() + ")"@,
            ReplyCmd::V5(c) => "V5("@ + c.variant() + ")"@,
        }
    }

    /// The code as written for a programmer.
    pub fn variant_name(&self) -> (r: String)
        ensures
            r@ == self.variant(),
    {
        let mut s: String = match self {
            ReplyCmd::V4(c) => {
                let mut s: String = String::from_str("V4(");
                s.append(c.variant_name());
                s
            },
            ReplyCmd::V5(c) => {
                let mut s: String = String::from_str("V5(");
                s.append(c.variant_name());
                s
            },
        };
        s.append(")");
        s
    }

    /// The version 4 code; an error that says `invalid cmd` for a code of version 5.
    pub fn unwrap_v4(&self) -> (r: Result<v4::ReplyCmd, Error>)
        ensures
            match r {
                Ok(c) => *self == ReplyCmd::V4(c),
                Err(e) => *self is V5 && (e matches Error::Other(m) && m@ == "invalid cmd"@),
            },
    {
        match self {
            ReplyCmd::V4(cmd) => Ok(*cmd),
            _ => Err(Error::Other(String::from_str("invalid cmd"))),
        }
    }

    /// The version 5 code; an error that says `invalid cmd` for a code of version 4.
    pub fn unwrap_v5(&self) -> (r: Result<v5::ReplyCmd, Error>)
        ensures
            match r {
                Ok(c) => *self == ReplyCmd::V5(c),
                Err(e) => *self is V4 && (e matches Error::Other(m) && m@ == "invalid cmd"@),
            },
    {
        match self {
            ReplyCmd::V5(cmd) => Ok(*cmd),
            _ => Err(Error::Other(String::from_str("invalid cmd"))),
        }
    }
}

/// What a SOCKS server answers.
#[derive(Debug, PartialEq)]
pub struct Reply {
    pub ver: NVer,
    pub cmd: ReplyCmd,
    pub rsv: u8,
    pub bind_addr: Option<IpAddress>,
    pub domain: Option<String>,
    pub bind_port: u16,
}

/// What a `Reply` holds, as mathematical values.
pub struct ReplyView {
    pub ver: NVer,
    pub cmd: ReplyCmd,
    pub rsv: u8,
    pub bind_addr: Option<IpAddress>,
    pub domain: Option<Seq<char>>,
    pub bind_port: u16,
}

impl View for Reply {
    type V = ReplyView;

    open spec fn view(&self) -> ReplyView {
        ReplyView {
            ver: self.ver,
            cmd: self.cmd,
            rsv: self.rsv,
            bind_addr: self.bind_addr,
            domain: match self.domain {
                Some(d) => Some(d@),
                None => None,
            },
            bind_port: self.bind_port,
        }
    }
}

impl ReplyView {
    /// The reply in one line, for a log. An address that it lacks is left empty.
    pub open spec fn text(self) -> Seq<char> {
        "vn: "@ + self.ver.label() + ", cmd: "@ + self.cmd.variant() + ", dst_ip: "@
            + crate::addr::plain_text(self.bind_addr) + ", dst_port: "@ + decimal(
            self.bind_port as nat,
        )
    }
}

impl Reply {
    /// The reply in one line, for a log.
    pub fn to_text(&self) -> (r: String)
        ensures
            r@ == self@.text(),
    {
        let mut s: String = String::from_str("vn: ");
        s.append(self.ver.name());
        s.append(", cmd: ");
        let cmd: String = self.cmd.variant_name();
        s.append(cmd.as_str());
        s.append(", dst_ip: ");
        let ip: String = crate::addr::plain_string(&self.bind_addr);
        s.append(ip.as_str());
        s.append(", dst_port: ");
        let port: String = to_decimal(self.bind_port);
        s.append(port.as_str());
        s
    }

    /// The bytes of the reply in the form of its version.
    pub fn send(&self) -> (r: Result<Vec<u8>, Error>)
        ensures
            match self.ver {
                NVer::V4 => v4::reply_sent(self@, r),
                NVer::V5 => v5::reply_sent(self@, r),
            },
    {
        match self.ver {
            NVer::V4 => v4::send_reply(self),
            NVer::V5 => v5::send_reply(self),
        }
    }
}

/// Why a message cannot be put into bytes.
pub enum SendFault {
    /// In words.
    Said(Seq<char>),
    /// The message holds no address.
    NoAddress,
}

/// What an error says of a fault.
pub open spec fn told(e: Error, f: SendFault) -> bool {
    match f {
        SendFault::Said(words) => e matches Error::Other(m) && m@ == words,
        SendFault::NoAddress => e == Error::AddrTypeUnsupported,
    }
}

/// Whether `r` is the bytes, or tells the fault, that `wanted` holds.
pub open spec fn sent(wanted: Result<Seq<u8>, SendFault>, r: Result<Vec<u8>, Error>) -> bool {
    match wanted {
        Ok(bytes) => r is Ok && r->Ok_0@ == bytes,
        Err(f) => r is Err && told(r->Err_0, f),
    }
}

/// Whether a read moved the cursor past `n` bytes of the same buffer.
pub open spec fn moved(old_src: Cursor, new_src: Cursor, n: int) -> bool {
    new_src.bytes() == old_src.bytes() && new_src.consumed() == old_src.consumed() + n
}

/// Reads the methods that a SOCKS5 client offers; the version byte has been read.
pub fn parse_auth_req(src: &mut Cursor) -> (r: Result<ReqAuth, Error>)
    ensures
        v5::auth_req_read(*old(src), *final(src), r),
{
    v5::parse_auth_req(src)
}

/// Reads a request of the version given; the version byte has been read.
pub fn parse_req(src: &mut Cursor, ver: NVer) -> (r: Result<Request, Error>)
    ensures
        match ver {
            NVer::V4 => v4::req_read(*old(src), *final(src), r),
            NVer::V5 => v5::req_read(*old(src), *final(src), r),
        },
{
    match ver {
        NVer::V4 => v4::parse_req(src),
        NVer::V5 => v5::parse_req(src),
    }
}

} // verus!
