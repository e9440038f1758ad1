//! The errors shared by the parser, the rule engine and the connection logic.

use vstd::prelude::*;
use vstd::string::StringExecFns;
use crate::text::{decimal, to_decimal};

verus! {

/// What went wrong on a socket, as far as the reply to the client depends on it.
#[derive(Debug, Clone, Copy, PartialEq, Eq, Structural)]
pub enum IoKind {
    /// The peer refused the connection.
    ConnectionRefused,
    /// The peer reset the connection, or closed it in the middle of a frame.
    ConnectionReset,
    /// Any other failure of the operating system.
    Other,
}

/// Every failure the library reports.
#[derive(Debug)]
pub enum Error {
    /// The bytes read so far do not hold a whole frame.
    Incomplete,
    /// The first byte of a frame names no known dialect.
    VnUnsupported(u8),
    /// The command byte of a SOCKS frame is none of CONNECT, BIND, UDP.
    UnknownCmd(u8),
    /// An IPv4 address was required.
    NotIpV4,
    /// An IPv6 address was required.
    NotIpV6,
    /// The address type of a SOCKS5 frame is none of IPv4, domain, IPv6,
    /// or an address does not fit the type it is sent under.
    AddrTypeUnsupported,
    /// The command is understood but not served.
    NotImplemented,
    /// The SOCKS5 server chose no authentication method.
    ServerRefusedAuth,
    /// A socket operation failed.
    IoErr(IoKind),
    /// A failure described in words.
    Other(String),
    /// The request line of an HTTP CONNECT is not well formed.
    BadRequest,
    /// A carriage return inside an HTTP header block is not followed by a line feed.
    BrokenLine,
    /// The rules send a destination through the remote proxy, and none is configured.
    ProxyNotConfigured,
    /// The rules reject the destination.
    Rejected,
    /// The client sent nothing for too long.
    ReadTimeout,
    /// The outbound connection was not established in time.
    ConnectTimeout,
    /// The network of a CIDR rule is not well formed.
    InvalidCidr,
    /// Something happened that a connection was not waiting for.
    Unexpected,
}

impl IoKind {
    /// The failure in words.
    pub open spec fn text(self) -> Seq<char> {
        match self {
            IoKind::ConnectionRefused => "connection refused"@,
            IoKind::ConnectionReset => "connection reset"@,
            IoKind::Other => "socket failure"@,
        }
    }

    /// The failure in words.
    pub fn message(&self) -> (r: &'static str)
        ensures
            r@ == self.text(),
    {
        match self {
            IoKind::ConnectionRefused => "connection refused",
            IoKind::ConnectionReset => "connection reset",
            IoKind::Other => "socket failure",
        }
    }
}

impl Error {
    /// The error in words.
    pub open spec fn text(self) -> Seq<char> {
        match self {
            Error::Incomplete => "the frame that read from socket was incomplete"@,
            Error::VnUnsupported(vn) => "the number "@ + decimal(vn as nat)
                + " of version was not supported"@,
            Error::UnknownCmd(cmd) => "the cmd "@ + decimal(cmd as nat) + " was not supported"@,
            Error::NotIpV4 => "the ipv4 address format was invalid"@,
            Error::NotIpV6 => "the ipv6 address format was invalid"@,
            Error::AddrTypeUnsupported => "the addr type was invalid"@,
            Error::NotImplemented => "protocol was not implemented"@,
            Error::ServerRefusedAuth => "server has refused the client auth"@,
            Error::IoErr(kind) => kind.text(),
            Error::Other(desc) => desc@,
            Error::BadRequest => "Bad Request"@,
            Error::BrokenLine => "broken line"@,
            Error::ProxyNotConfigured => "Proxy configuration not found"@,
            Error::Rejected => "the destination was rejected by rule"@,
            Error::ReadTimeout => "read from connection timeout"@,
            Error::ConnectTimeout => "connection timeout"@,
            Error::InvalidCidr => "the network of a rule was invalid"@,
            Error::Unexpected => "an event arrived out of turn"@,
        }
    }

    /// The error in words, for a log or a terminal.
    pub fn message(&self) -> (r: String)
        ensures
            r@ == self.text(),
    {
        match self {
            Error::Incomplete => String::from_str("the frame that read from socket was incomplete"),
            Error::VnUnsupported(vn) => {
                let mut s: String = String::from_str("the number ");
                let digits: String = to_decimal(*vn as u16);
                s.append(digits.as_str());
                s.append(" of version was not supported");
                s
            },
            Error::UnknownCmd(cmd) => {
                let mut s: String = String::from_str("the cmd ");
                let digits: String = to_decimal(*cmd as u16);
                s.append(digits.as_str());
                s.append(" was not supported");
                s
            },
            Error::NotIpV4 => String::from_str("the ipv4 address format was invalid"),
            Error::NotIpV6 => String::from_str("the ipv6 address format was invalid"),
            Error::AddrTypeUnsupported => String::from_str("the addr type was invalid"),
            Error::NotImplemented => String::from_str("protocol was not implemented"),
            Error::ServerRefusedAuth => String::from_str("server has refused the client auth"),
            Error::IoErr(kind) => String::from_str(kind.message()),
            Error::Other(desc) => desc.clone(),
            Error::BadRequest => String::from_str("Bad Request"),
            Error::BrokenLine => String::from_str("broken line"),
            Error::ProxyNotConfigured => String::from_str("Proxy configuration not found"),
            Error::Rejected => String::from_str("the destination was rejected by rule"),
            Error::ReadTimeout => String::from_str("read from connection timeout"),
            Error::ConnectTimeout => String::from_str("connection timeout"),
            Error::InvalidCidr => String::from_str("the network of a rule was invalid"),
            Error::Unexpected => String::from_str("an event arrived out of turn"),
        }
    }
}

} // verus!
