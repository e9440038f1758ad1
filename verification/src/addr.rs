//! IP addresses as plain numbers.

use vstd::prelude::*;
use vstd::string::StringExecFns;
use crate::text::{decimal, to_decimal};

verus! {

/// An IP address: the 32 bits of an IPv4 address or the 128 bits of an IPv6
/// address, most significant byte first.
#[derive(Debug, Clone, Copy, PartialEq, Eq, Structural)]
pub enum IpAddress {
    V4(u32),
    V6(u128),
}

/// The number that four bytes spell, most significant byte first.
pub open spec fn octets_value(a: u8, b: u8, c: u8, d: u8) -> int {
    a as int * 0x100_0000 + b as int * 0x1_0000 + c as int * 0x100 + d as int
}

/// How std writes the IPv6 address of these 128 bits: groups of
/// hexadecimal digits between colons, in the short form that std chooses.
pub uninterp spec fn ipv6_text(bits: u128) -> Seq<char>;

/// std's `Display` for an IPv6 address. The address is handed through
/// `ipnetwork::Ipv6Network::new` and `Ipv6Network::ip`, which keep it as
/// it is; a prefix of 128 is never refused.
#[verifier::external_body]
fn ipv6_string(bits: u128) -> (r: String)
    ensures
        r@ == ipv6_text(bits),
{
    match ipnetwork::Ipv6Network::new(bits.into(), 128) {
        Ok(net) => net.ip().to_string(),
        Err(_) => String::new(),
    }
}

/// An IPv4 address in dotted decimal: its four bytes, most significant
/// first, each in decimal, with dots between.
pub open spec fn ipv4_text(bits: u32) -> Seq<char> {
    decimal((bits / 0x100_0000) as nat) + seq!['.'] + decimal((bits / 0x1_0000 % 0x100) as nat)
        + seq!['.'] + decimal((bits / 0x100 % 0x100) as nat) + seq!['.'] + decimal(
        (bits % 0x100) as nat,
    )
}

/// An optional address as text: the address, or nothing.
pub open spec fn plain_text(ip: Option<IpAddress>) -> Seq<char> {
    match ip {
        Some(a) => a.text(),
        None => Seq::empty(),
    }
}

/// An optional address as text.
pub fn plain_string(ip: &Option<IpAddress>) -> (r: String)
    ensures
        r@ == plain_text(*ip),
{
    match ip {
        Some(a) => a.to_text(),
        None => String::new(),
    }
}

/// An optional address as written for a programmer: `None`, or `Some`
/// and the address in brackets.
pub open spec fn debug_text(ip: Option<IpAddress>) -> Seq<char> {
    match ip {
        Some(a) => "Some("@ + a.text() + ")"@,
        None => "None"@,
    }
}

/// An optional address as written for a programmer.
pub fn debug_string(ip: &Option<IpAddress>) -> (r: String)
    ensures
        r@ == debug_text(*ip),
{
    match ip {
        Some(a) => {
            let mut s: String = String::from_str("Some(");
            let t: String = a.to_text();
            s.append(t.as_str());
            s.append(")");
            s
        },
        None => String::from_str("None"),
    }
}

impl IpAddress {
    /// The address as text: dotted decimal for IPv4, and for IPv6 the
    /// form that std writes.
    pub open spec fn text(self) -> Seq<char> {
        match self {
            IpAddress::V4(a) => ipv4_text(a),
            IpAddress::V6(a) => ipv6_text(a),
        }
    }

    /// The address as text.
    pub fn to_text(&self) -> (r: String)
        ensures
            r@ == self.text(),
    {
        match self {
            IpAddress::V4(a) => {
                proof {
                    reveal_strlit(".");
                }
                let mut s: String = to_decimal((*a / 0x100_0000) as u16);
                s.append(".");
                let b: String = to_decimal((*a / 0x1_0000 % 0x100) as u16);
                s.append(b.as_str());
                s.append(".");
                let c: String = to_decimal((*a / 0x100 % 0x100) as u16);
                s.append(c.as_str());
                s.append(".");
                let d: String = to_decimal((*a % 0x100) as u16);
                s.append(d.as_str());
                assert("."@ =~= seq!['.']);
                assert(s@ =~= ipv4_text(*a));
                s
            },
            IpAddress::V6(a) => ipv6_string(*a),
        }
    }

    /// The IPv4 address `a.b.c.d`.
    pub fn from_octets(a: u8, b: u8, c: u8, d: u8) -> (r: IpAddress)
        ensures
            r == IpAddress::V4(octets_value(a, b, c, d) as u32),
            0 <= octets_value(a, b, c, d) <= u32::MAX,
    {
        let hi: u32 = a as u32 * 0x100_0000 + b as u32 * 0x1_0000;
        let lo: u32 = c as u32 * 0x100 + d as u32;
        IpAddress::V4(hi + lo)
    }

    /// Whether this is an IPv4 address.
    pub fn is_v4(&self) -> (r: bool)
        ensures
            r == (*self is V4),
    {
        match self {
            IpAddress::V4(_) => true,
            IpAddress::V6(_) => false,
        }
    }
}

} // verus!
