//! The replies to a client, in the dialect it spoke.

use vstd::prelude::*;
use vstd::slice::slice_subrange;
use vstd::utf8::encode_utf8;
use crate::addr::IpAddress;
use crate::error::{Error, IoKind};
use crate::protocol::cursor::be_value;
use crate::protocol::{AType, ReplyCmd, Ver};

verus! {

/// The `n` low bytes of `v`, most significant first.
pub open spec fn be_bytes(v: nat, n: nat) -> Seq<u8>
    decreases n,
{
    if n == 0 {
        Seq::<u8>::empty()
    } else {
        be_bytes(v / 256, (n - 1) as nat).push((v % 256) as u8)
    }
}

/// `HTTP/1.1 200 Connection Established`, and an empty line.
pub open spec fn http_established() -> Seq<u8> {
    seq![
        72u8, 84u8, 84u8, 80u8, 47u8, 49u8, 46u8, 49u8, 32u8, 50u8, 48u8, 48u8, 32u8, 67u8, 111u8,
        110u8, 110u8, 101u8, 99u8, 116u8, 105u8, 111u8, 110u8, 32u8, 69u8, 115u8, 116u8, 97u8,
        98u8, 108u8, 105u8, 115u8, 104u8, 101u8, 100u8, 13u8, 10u8, 13u8, 10u8,
    ]
}

/// `HTTP/1.1 400 Connection Failed`, and an empty line.
pub open spec fn http_failed() -> Seq<u8> {
    seq![
        72u8, 84u8, 84u8, 80u8, 47u8, 49u8, 46u8, 49u8, 32u8, 52u8, 48u8, 48u8, 32u8, 67u8, 111u8,
        110u8, 110u8, 101u8, 99u8, 116u8, 105u8, 111u8, 110u8, 32u8, 70u8, 97u8, 105u8, 108u8,
        101u8, 100u8, 13u8, 10u8, 13u8, 10u8,
    ]
}

/// The reply code that stands for an error: an unknown command or address
/// type is an unsupported command, a refused or reset connection is a
/// refused connection, everything else a server error.
pub open spec fn cmd_of_error(err: Error) -> ReplyCmd {
    match err {
        Error::AddrTypeUnsupported => ReplyCmd::CmdTypeUnsupported,
        Error::UnknownCmd(_) => ReplyCmd::CmdTypeUnsupported,
        Error::IoErr(IoKind::ConnectionRefused) => ReplyCmd::ConnectionRefused,
        Error::IoErr(IoKind::ConnectionReset) => ReplyCmd::ConnectionRefused,
        _ => ReplyCmd::ServerError,
    }
}

/// The failure reply in a dialect. The bound address is all zero.
pub open spec fn error_bytes(ver: Ver, err: Error) -> Seq<u8> {
    match ver {
        Ver::V4 => seq![0u8, cmd_of_error(err).v4_byte(), 0u8, 0u8, 0u8, 0u8, 0u8, 0u8],
        Ver::V5 => seq![5u8, cmd_of_error(err).v5_byte(), 0u8, 1u8, 0u8, 0u8, 0u8, 0u8, 0u8, 0u8],
        Ver::Http => http_failed(),
    }
}

/// The address of a SOCKS5 success reply: four bytes of IPv4, a length
/// byte and at most 255 bytes of a domain name, or sixteen bytes of IPv6.
/// Nothing where the address does not fit its type.
pub open spec fn addr_bytes(a_type: AType, ip: Option<IpAddress>, domain: Option<Seq<u8>>) -> Option<
    Seq<u8>,
> {
    match a_type {
        AType::Ipv4 => match ip {
            Some(IpAddress::V4(a)) => Some(be_bytes(a as nat, 4)),
            _ => None,
        },
        AType::Domain => match domain {
            Some(d) => if d.len() <= 255 {
                Some(seq![d.len() as u8] + d)
            } else {
                Some(seq![255u8] + d.subrange(0, 255))
            },
            None => None,
        },
        AType::Ipv6 => match ip {
            Some(IpAddress::V6(a)) => Some(be_bytes(a as nat, 16)),
            _ => None,
        },
    }
}

/// The success reply in a dialect. SOCKS4 carries an IPv4 address, zero
/// where the destination is none; SOCKS5 the destination as it was asked for.
pub open spec fn success_bytes(
    ver: Ver,
    a_type: AType,
    ip: Option<IpAddress>,
    domain: Option<Seq<u8>>,
    port: u16,
) -> Result<Seq<u8>, Error> {
    match ver {
        Ver::V4 => Ok(
            seq![0u8, 90u8] + be_bytes(port as nat, 2) + be_bytes(
                match ip {
                    Some(IpAddress::V4(a)) => a as nat,
                    _ => 0,
                },
                4,
            ),
        ),
        Ver::V5 => match addr_bytes(a_type, ip, domain) {
            Some(a) => Ok(seq![5u8, 0u8, 0u8, a_type.byte()] + a + be_bytes(port as nat, 2)),
            None => Err(Error::AddrTypeUnsupported),
        },
        Ver::Http => Ok(http_established()),
    }
}

/// `be_bytes(v, n)` has `n` bytes.
pub proof fn lemma_be_bytes_len(v: nat, n: nat)
    ensures
        be_bytes(v, n).len() == n,
    decreases n,
{
    if n > 0 {
        lemma_be_bytes_len(v / 256, (n - 1) as nat);
    }
}

/// 256 to the power `n`: one more than the largest number of `n` bytes.
pub open spec fn pow256(n: nat) -> nat
    decreases n,
{
    if n == 0 {
        1
    } else {
        256 * pow256((n - 1) as nat)
    }
}

/// What is written is what is read: the `n` bytes written for a number
/// that fits in them spell that number.
pub proof fn lemma_be_round_trip(v: nat, n: nat)
    requires
        v < pow256(n),
    ensures
        be_bytes(v, n).len() == n,
        be_value(be_bytes(v, n)) == v,
    decreases n,
{
    lemma_be_bytes_len(v, n);
    if n > 0 {
        let head = be_bytes(v / 256, (n - 1) as nat);
        lemma_be_round_trip(v / 256, (n - 1) as nat);
        assert(be_bytes(v, n).drop_last() =~= head);
        assert(be_bytes(v, n).last() == (v % 256) as u8);
    }
}

/// Appends the `n` low bytes of `v`, most significant first.
pub fn put_be(out: &mut Vec<u8>, v: u128, n: usize)
    ensures
        final(out)@ == old(out)@ + be_bytes(v as nat, n as nat),
    decreases n,
{
    if n > 0 {
        put_be(out, v / 256, n - 1);
        out.push((v % 256) as u8);
        assert(out@ =~= old(out)@ + be_bytes(v as nat, n as nat));
    } else {
        assert(out@ =~= old(out)@ + be_bytes(v as nat, n as nat));
    }
}

/// The UTF-8 bytes of an optional text.
pub open spec fn text_bytes(text: Option<String>) -> Option<Seq<u8>> {
    match text {
        Some(t) => Some(encode_utf8(t@)),
        None => None,
    }
}

/// Writes replies in one dialect.
pub struct Reply {
    pub ver: Ver,
}

impl Reply {
    /// A writer for SOCKS5, the dialect used while no request has been read.
    pub fn new() -> (r: Reply)
        ensures
            r.ver == Ver::V5,
    {
        Reply { ver: Ver::V5 }
    }

    pub fn set_ver(&mut self, ver: Ver)
        ensures
            final(self).ver == ver,
    {
        self.ver = ver;
    }

    /// The reply code that stands for an error.
    pub fn get_cmd_by_err(err: &Error) -> (r: ReplyCmd)
        ensures
            r == cmd_of_error(*err),
    {
        match err {
            Error::AddrTypeUnsupported => ReplyCmd::CmdTypeUnsupported,
            Error::UnknownCmd(_) => ReplyCmd::CmdTypeUnsupported,
            Error::IoErr(kind) => match kind {
                IoKind::ConnectionRefused => ReplyCmd::ConnectionRefused,
                IoKind::ConnectionReset => ReplyCmd::ConnectionRefused,
                IoKind::Other => ReplyCmd::ServerError,
            },
            _ => ReplyCmd::ServerError,
        }
    }

    /// The failure reply for `err`.
    pub fn error(&self, err: &Error) -> (r: Vec<u8>)
        ensures
            r@ == error_bytes(self.ver, *err),
    {
        let code: u8 = Reply::get_cmd_by_err(err).as_u8(self.ver);
        let out: Vec<u8> = match self.ver {
            Ver::V4 => vec![0u8, code, 0u8, 0u8, 0u8, 0u8, 0u8, 0u8],
            Ver::V5 => vec![5u8, code, 0u8, 1u8, 0u8, 0u8, 0u8, 0u8, 0u8, 0u8],
            Ver::Http => vec![
                72u8, 84u8, 84u8, 80u8, 47u8, 49u8, 46u8, 49u8, 32u8, 52u8, 48u8, 48u8, 32u8, 67u8,
                111u8, 110u8, 110u8, 101u8, 99u8, 116u8, 105u8, 111u8, 110u8, 32u8, 70u8, 97u8,
                105u8, 108u8, 101u8, 100u8, 13u8, 10u8, 13u8, 10u8,
            ],
        };
        assert(out@ =~= error_bytes(self.ver, *err));
        out
    }

    /// The success reply for a destination. In SOCKS5 it fails with
    /// `AddrTypeUnsupported` where the address does not fit its type.
    pub fn successful(&self, addr: (AType, Option<IpAddress>, Option<String>), port: u16) -> (r:
        Result<Vec<u8>, Error>)
        ensures
            match r {
                Ok(out) => success_bytes(self.ver, addr.0, addr.1, text_bytes(addr.2), port)
                    == Ok::<Seq<u8>, Error>(out@),
                Err(e) => success_bytes(self.ver, addr.0, addr.1, text_bytes(addr.2), port)
                    == Err::<Seq<u8>, Error>(e),
            },
    {
        match self.ver {
            Ver::V4 => {
                let mut out: Vec<u8> = vec![0u8, 90u8];
                put_be(&mut out, port as u128, 2);
                let ip: u32 = match addr.1 {
                    Some(IpAddress::V4(a)) => a,
                    _ => 0,
                };
                put_be(&mut out, ip as u128, 4);
                Ok(out)
            },
            Ver::V5 => {
                let mut out: Vec<u8> = vec![5u8, 0u8, 0u8, addr.0.as_u8()];
                match write_addr(&mut out, addr) {
                    Ok(()) => {},
                    Err(e) => {
                        return Err(e);
                    },
                }
                put_be(&mut out, port as u128, 2);
                Ok(out)
            },
            Ver::Http => {
                let out: Vec<u8> = vec![
                    72u8, 84u8, 84u8, 80u8, 47u8, 49u8, 46u8, 49u8, 32u8, 50u8, 48u8, 48u8, 32u8,
                    67u8, 111u8, 110u8, 110u8, 101u8, 99u8, 116u8, 105u8, 111u8, 110u8, 32u8, 69u8,
                    115u8, 116u8, 97u8, 98u8, 108u8, 105u8, 115u8, 104u8, 101u8, 100u8, 13u8, 10u8,
                    13u8, 10u8,
                ];
                assert(out@ =~= http_established());
                Ok(out)
            },
        }
    }

    /// The SOCKS5 reply that selects an authentication method.
    pub fn auth(&self, n_method: u8) -> (r: Vec<u8>)
        ensures
            r@ == seq![5u8, n_method],
    {
        vec![5u8, n_method]
    }
}

/// Appends the address of a SOCKS5 success reply.
pub fn write_addr(writer: &mut Vec<u8>, addr: (AType, Option<IpAddress>, Option<String>)) -> (r:
    Result<(), Error>)
    ensures
        match r {
            Ok(()) => addr_bytes(addr.0, addr.1, text_bytes(addr.2)) is Some && final(writer)@
                == old(writer)@ + addr_bytes(addr.0, addr.1, text_bytes(addr.2))->0,
            Err(e) => e == Error::AddrTypeUnsupported && addr_bytes(
                addr.0,
                addr.1,
                text_bytes(addr.2),
            ) is None && final(writer)@ == old(writer)@,
        },
{
    match addr.0 {
        AType::Ipv4 => match addr.1 {
            Some(IpAddress::V4(a)) => {
                put_be(writer, a as u128, 4);
                Ok(())
            },
            _ => Err(Error::AddrTypeUnsupported),
        },
        AType::Domain => match &addr.2 {
            Some(d) => {
                let bytes: &[u8] = d.as_str().as_bytes();
                let len: usize = if bytes.len() <= 255 {
                    bytes.len()
                } else {
                    255
                };
                writer.push(len as u8);
                writer.extend_from_slice(slice_subrange(bytes, 0, len));
                assert(final(writer)@ =~= old(writer)@ + addr_bytes(
                    addr.0,
                    addr.1,
                    text_bytes(addr.2),
                )->0);
                Ok(())
            },
            None => Err(Error::AddrTypeUnsupported),
        },
        AType::Ipv6 => match addr.1 {
            Some(IpAddress::V6(a)) => {
                put_be(writer, a, 16);
                Ok(())
            },
            _ => Err(Error::AddrTypeUnsupported),
        },
    }
}

} // verus!
