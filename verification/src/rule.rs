//! The routing rules: which destinations are reached directly and which
//! through the remote proxy.

use vstd::prelude::*;
use vstd::arithmetic::power2::pow2;
use vstd::string::StringExecFns;
use vstd::utf8::encode_utf8;
use crate::addr::IpAddress;
use crate::error::Error;
use vstd::slice::{slice_subrange, slice_to_vec};
use vstd::utf8::{decode_utf8, valid_utf8};
use crate::protocol::cursor::{scan, Cursor};
use crate::text::{bytes_eq, contains, contains_seq, has_at, utf8_string};

verus! {

/// Where a connection goes.
#[derive(Debug, Copy, Clone, Eq, PartialEq, Structural)]
pub enum Routing {
    Direct,
    Proxy,
    Reject,
}

/// `DIRECT`
pub open spec fn direct_word() -> Seq<u8> {
    seq![68u8, 73u8, 82u8, 69u8, 67u8, 84u8]
}

/// `PROXY`
pub open spec fn proxy_word() -> Seq<u8> {
    seq![80u8, 82u8, 79u8, 88u8, 89u8]
}

/// `REJECT`
pub open spec fn reject_word() -> Seq<u8> {
    seq![82u8, 69u8, 74u8, 69u8, 67u8, 84u8]
}

impl Routing {
    /// The verdict that a word of a rule names: `DIRECT`, `PROXY` or `REJECT`.
    pub open spec fn of_word(word: Seq<u8>) -> Option<Routing> {
        if word == direct_word() {
            Some(Routing::Direct)
        } else if word == proxy_word() {
            Some(Routing::Proxy)
        } else if word == reject_word() {
            Some(Routing::Reject)
        } else {
            None
        }
    }

    /// The verdict that a word names; any other word is an error that says
    /// `unknown routing`.
    pub fn try_from(value: &[u8]) -> (r: Result<Routing, Error>)
        ensures
            match r {
                Ok(v) => Routing::of_word(value@) == Some(v),
                Err(e) => Routing::of_word(value@) is None && (e matches Error::Other(m) && m@
                    == "unknown routing"@),
            },
    {
        let direct: Vec<u8> = vec![68u8, 73u8, 82u8, 69u8, 67u8, 84u8];
        let proxy: Vec<u8> = vec![80u8, 82u8, 79u8, 88u8, 89u8];
        let reject: Vec<u8> = vec![82u8, 69u8, 74u8, 69u8, 67u8, 84u8];
        assert(direct@ =~= direct_word());
        assert(proxy@ =~= proxy_word());
        assert(reject@ =~= reject_word());
        if bytes_eq(value, direct.as_slice()) {
            Ok(Routing::Direct)
        } else if bytes_eq(value, proxy.as_slice()) {
            Ok(Routing::Proxy)
        } else if bytes_eq(value, reject.as_slice()) {
            Ok(Routing::Reject)
        } else {
            Err(Error::Other(String::from_str("unknown routing")))
        }
    }
}

/// Whether two numbers of `bits` bits agree on their `prefix` leading
/// bits. No two agree on more bits than they have.
pub open spec fn same_leading_bits(a: nat, b: nat, bits: nat, prefix: nat) -> bool {
    prefix <= bits && a / pow2((bits - prefix) as nat) == b / pow2((bits - prefix) as nat)
}

/// A network: an address and how many of its leading bits count.
#[derive(Debug, Copy, Clone, Eq, PartialEq, Structural)]
pub enum Cidr {
    V4 { addr: u32, prefix: u8 },
    V6 { addr: u128, prefix: u8 },
}

impl Cidr {
    /// Whether an address lies in the network: it is of the network's
    /// family and agrees with the network's address on the leading bits.
    /// A prefix longer than an address makes no network: it holds nothing.
    pub open spec fn holds(self, ip: IpAddress) -> bool {
        match (self, ip) {
            (Cidr::V4 { addr, prefix }, IpAddress::V4(a)) => same_leading_bits(
                addr as nat,
                a as nat,
                32,
                prefix as nat,
            ),
            (Cidr::V6 { addr, prefix }, IpAddress::V6(a)) => same_leading_bits(
                addr as nat,
                a as nat,
                128,
                prefix as nat,
            ),
            _ => false,
        }
    }

    /// Whether an address lies in the network.
    pub fn contains(&self, ip: IpAddress) -> (r: bool)
        ensures
            r == self.holds(ip),
    {
        match (*self, ip) {
            (Cidr::V4 { addr, prefix }, IpAddress::V4(a)) => net_contains_v4(addr, prefix, a),
            (Cidr::V6 { addr, prefix }, IpAddress::V6(a)) => net_contains_v6(addr, prefix, a),
            _ => false,
        }
    }
}

/// `ipnetwork::Ipv4Network::contains`, on the network that
/// `Ipv4Network::new` makes of `addr` and `prefix`: whether `ip` and `addr`
/// agree on their `prefix` leading bits. `new` refuses a prefix over 32,
/// and the answer is no.
#[verifier::external_body]
fn net_contains_v4(addr: u32, prefix: u8, ip: u32) -> (r: bool)
    ensures
        r == same_leading_bits(addr as nat, ip as nat, 32, prefix as nat),
{
    match ipnetwork::Ipv4Network::new(addr.into(), prefix) {
        Ok(net) => net.contains(ip.into()),
        Err(_) => false,
    }
}

/// `ipnetwork::Ipv6Network::contains`, on the network that
/// `Ipv6Network::new` makes of `addr` and `prefix`: whether `ip` and `addr`
/// agree on their `prefix` leading bits. `new` refuses a prefix over 128,
/// and the answer is no.
#[verifier::external_body]
fn net_contains_v6(addr: u128, prefix: u8, ip: u128) -> (r: bool)
    ensures
        r == same_leading_bits(addr as nat, ip as nat, 128, prefix as nat),
{
    match ipnetwork::Ipv6Network::new(addr.into(), prefix) {
        Ok(net) => net.contains(ip.into()),
        Err(_) => false,
    }
}

/// `ipnetwork::IpNetworkError`: why a text spells no network. Nothing is
/// read from it.
#[verifier::external_type_specification]
#[verifier::external_body]
pub struct ExIpNetworkError(ipnetwork::IpNetworkError);

/// The network that the `ipnetwork` crate reads from a text such as
/// `10.0.0.0/8` or `fc00::/7`, or nothing where it takes the text for none.
pub uninterp spec fn cidr_parse(text: Seq<char>) -> Option<Cidr>;

/// `ipnetwork::IpNetwork::from_str`. The network it reads is named, not described.
#[verifier::external_body]
fn parse_network(text: &str) -> (r: Result<Cidr, ipnetwork::IpNetworkError>)
    ensures
        r is Ok == cidr_parse(text@) is Some,
        r matches Ok(c) ==> cidr_parse(text@) == Some(c),
{
    match text.parse::<ipnetwork::IpNetwork>()? {
        ipnetwork::IpNetwork::V4(n) => Ok(Cidr::V4 { addr: n.ip().into(), prefix: n.prefix() }),
        ipnetwork::IpNetwork::V6(n) => Ok(Cidr::V6 { addr: n.ip().into(), prefix: n.prefix() }),
    }
}

/// The dot that parts the labels of a domain name.
pub const DOT: u8 = 46;

/// Whether `domain` is `suffix`, or ends with a dot and `suffix`: `suffix`
/// is made of whole labels at the end of `domain`.
pub open spec fn label_suffix(domain: Seq<u8>, suffix: Seq<u8>) -> bool {
    domain == suffix || (domain.len() > suffix.len() && domain.subrange(
        domain.len() - suffix.len() - 1,
        domain.len() as int,
    ) == seq![DOT] + suffix)
}

/// Whether a domain name ends with a suffix on a label boundary.
pub fn ends_with_labels(domain: &[u8], suffix: &[u8]) -> (r: bool)
    ensures
        r == label_suffix(domain@, suffix@),
{
    let n: usize = suffix.len();
    let m: usize = domain.len();
    if n > m {
        return false;
    }
    if !has_at(domain, m - n, suffix) {
        proof {
            if label_suffix(domain@, suffix@) {
                if domain@ == suffix@ {
                    assert(domain@.subrange(0, m as int) =~= domain@);
                } else {
                    let tail = domain@.subrange(m - n - 1, m as int);
                    assert(domain@.subrange(m - n, m as int) =~= tail.subrange(1, n + 1));
                    assert(tail.subrange(1, n + 1) =~= suffix@);
                }
            }
        }
        return false;
    }
    if m == n {
        assert(domain@.subrange(0, m as int) =~= domain@);
        return true;
    }
    let r: bool = domain[m - n - 1] == DOT;
    proof {
        let tail = domain@.subrange(m - n - 1, m as int);
        assert(tail[0] == domain@[m - n - 1]);
        if r {
            assert(tail =~= seq![DOT] + suffix@) by {
                assert forall|i: int| 0 <= i < tail.len() implies tail[i] == (seq![DOT]
                    + suffix@)[i] by {
                    if i > 0 {
                        assert(domain@.subrange(m - n, m as int)[i - 1] == suffix@[i - 1]);
                    }
                }
            }
        } else {
            assert((seq![DOT] + suffix@)[0] == DOT);
        }
    }
    r
}

/// Whether a domain name ends with a suffix on a label boundary: `le.com`
/// is no suffix of `google.com`.
pub fn domain_ends_with(domain: &String, suffix: &String) -> (r: bool)
    ensures
        r == label_suffix(encode_utf8(domain@), encode_utf8(suffix@)),
{
    ends_with_labels(domain.as_str().as_bytes(), suffix.as_str().as_bytes())
}

/// The kinds of rule.
#[derive(Debug, Copy, Clone, Eq, PartialEq, Structural)]
pub enum RuleKind {
    /// The whole domain name.
    Domain,
    /// Whole labels at the end of the domain name.
    DomainSuffix,
    /// Any part of the domain name.
    DomainKeyword,
    /// A network of IPv4 addresses.
    IpCidr,
    /// A network of IPv6 addresses.
    IpCidr6,
}

/// A rule on domain names.
#[derive(Debug, Clone, PartialEq, Eq)]
pub struct DomainRule {
    pub pattern: Vec<u8>,
    pub routing: Routing,
}

/// A rule on addresses.
#[derive(Debug, Copy, Clone, PartialEq, Eq, Structural)]
pub struct CidrRule {
    pub net: Cidr,
    pub routing: Routing,
}

/// A list of domain rules as mathematical values, in the order they are tried.
pub open spec fn domain_rules(list: Seq<DomainRule>) -> Seq<(Seq<u8>, Routing)> {
    Seq::new(list.len(), |i: int| (list[i].pattern@, list[i].routing))
}

/// Whether a rule of a kind on domain names holds of a name.
pub open spec fn rule_matches(kind: RuleKind, pattern: Seq<u8>, domain: Seq<u8>) -> bool {
    match kind {
        RuleKind::Domain => pattern == domain,
        RuleKind::DomainSuffix => label_suffix(domain, pattern),
        RuleKind::DomainKeyword => contains_seq(domain, pattern),
        _ => false,
    }
}

/// The index of the first rule at or after `from` that holds of a name; the
/// length of the list if none does.
pub open spec fn first_rule(
    kind: RuleKind,
    list: Seq<(Seq<u8>, Routing)>,
    from: int,
    domain: Seq<u8>,
) -> int
    decreases list.len() - from,
{
    if from < 0 || from >= list.len() {
        list.len() as int
    } else if rule_matches(kind, list[from].0, domain) {
        from
    } else {
        first_rule(kind, list, from + 1, domain)
    }
}

/// The verdict of the first rule in a list that holds of a name.
pub open spec fn rule_verdict(kind: RuleKind, list: Seq<(Seq<u8>, Routing)>, domain: Seq<u8>) -> Option<
    Routing,
> {
    let i = first_rule(kind, list, 0, domain);
    if i < list.len() {
        Some(list[i].1)
    } else {
        None
    }
}

/// The index of the first network at or after `from` that holds an
/// address; the length of the list if none does.
pub open spec fn first_net(list: Seq<CidrRule>, from: int, ip: IpAddress) -> int
    decreases list.len() - from,
{
    if from < 0 || from >= list.len() {
        list.len() as int
    } else if list[from].net.holds(ip) {
        from
    } else {
        first_net(list, from + 1, ip)
    }
}

/// The verdict of the first network in a list that holds an address.
pub open spec fn net_verdict(list: Seq<CidrRule>, ip: IpAddress) -> Option<Routing> {
    let i = first_net(list, 0, ip);
    if i < list.len() {
        Some(list[i].routing)
    } else {
        None
    }
}

/// What a `RuleStore` holds: one list for each kind of rule, each in the
/// order in which its rules are tried.
pub struct StoreView {
    pub domains: Seq<(Seq<u8>, Routing)>,
    pub suffixes: Seq<(Seq<u8>, Routing)>,
    pub keywords: Seq<(Seq<u8>, Routing)>,
    pub cidrs: Seq<CidrRule>,
    pub cidrs6: Seq<CidrRule>,
}

impl StoreView {
    /// The store without a rule.
    pub open spec fn empty() -> StoreView {
        StoreView {
            domains: Seq::empty(),
            suffixes: Seq::empty(),
            keywords: Seq::empty(),
            cidrs: Seq::empty(),
            cidrs6: Seq::empty(),
        }
    }

    /// The store with one more rule on names.
    pub open spec fn with_rule(self, kind: RuleKind, pattern: Seq<u8>, routing: Routing) -> StoreView {
        match kind {
            RuleKind::Domain => StoreView {
                domains: put_rule(self.domains, pattern, routing),
                ..self
            },
            RuleKind::DomainSuffix => StoreView {
                suffixes: put_rule(self.suffixes, pattern, routing),
                ..self
            },
            RuleKind::DomainKeyword => StoreView {
                keywords: put_rule(self.keywords, pattern, routing),
                ..self
            },
            _ => self,
        }
    }

    /// The store with one more rule on addresses.
    pub open spec fn with_net(self, kind: RuleKind, net: Cidr, routing: Routing) -> StoreView {
        match kind {
            RuleKind::IpCidr => StoreView { cidrs: put_net(self.cidrs, net, routing), ..self },
            RuleKind::IpCidr6 => StoreView { cidrs6: put_net(self.cidrs6, net, routing), ..self },
            _ => self,
        }
    }

    /// What the rules say of a domain name: the whole name first, suffixes
    /// next, keywords last. Nothing where no rule holds of the name.
    pub open spec fn domain(self, name: Seq<u8>) -> Option<Routing> {
        match rule_verdict(RuleKind::Domain, self.domains, name) {
            Some(v) => Some(v),
            None => match rule_verdict(RuleKind::DomainSuffix, self.suffixes, name) {
                Some(v) => Some(v),
                None => rule_verdict(RuleKind::DomainKeyword, self.keywords, name),
            },
        }
    }

    /// What the rules say of an address: the first network of its family
    /// that holds it. Nothing where none does.
    pub open spec fn ip(self, ip: IpAddress) -> Option<Routing> {
        match ip {
            IpAddress::V4(_) => net_verdict(self.cidrs, ip),
            IpAddress::V6(_) => net_verdict(self.cidrs6, ip),
        }
    }
}

/// The ISO code `CN`.
pub open spec fn china() -> Seq<u8> {
    seq![67u8, 78u8]
}

/// What the country of an address says where no rule does: direct for
/// `CN`, through the proxy for any other country and where none is known.
pub open spec fn country_verdict(code: Option<Seq<u8>>) -> Routing {
    if code == Some(china()) {
        Routing::Direct
    } else {
        Routing::Proxy
    }
}

/// The verdict on an address: the rules first, the country next.
pub open spec fn ip_verdict(store: StoreView, ip: IpAddress, code: Option<Seq<u8>>) -> Routing {
    match store.ip(ip) {
        Some(v) => v,
        None => country_verdict(code),
    }
}

/// The verdict on a domain name: the rules on names first; next the first
/// address that the name resolves to, with its country; through the proxy
/// where the name resolves to nothing, be it that the lookup answers with
/// no address or that it fails.
pub open spec fn domain_verdict(
    store: StoreView,
    name: Seq<u8>,
    resolved: Option<IpAddress>,
    code: Option<Seq<u8>>,
) -> Routing {
    match store.domain(name) {
        Some(v) => v,
        None => match resolved {
            Some(ip) => ip_verdict(store, ip, code),
            None => Routing::Proxy,
        },
    }
}

/// The comma that parts the fields of a rule.
pub const COMMA: u8 = 44;

/// `_`, which stands for a field that a rule lacks.
pub open spec fn blank() -> Seq<u8> {
    seq![95u8]
}

/// The three fields of a rule `KIND,PATTERN,VERDICT`. A field that the
/// line lacks is `_`; what follows a third comma is not read.
pub open spec fn rule_fields(line: Seq<u8>) -> (Seq<u8>, Seq<u8>, Seq<u8>) {
    let c1 = scan(line, 0, COMMA);
    let c2 = scan(line, c1 + 1, COMMA);
    let c3 = scan(line, c2 + 1, COMMA);
    if c1 >= line.len() {
        (line.subrange(0, c1), blank(), blank())
    } else if c2 >= line.len() {
        (line.subrange(0, c1), line.subrange(c1 + 1, c2), blank())
    } else {
        (line.subrange(0, c1), line.subrange(c1 + 1, c2), line.subrange(c2 + 1, c3))
    }
}

/// `DOMAIN`
pub open spec fn domain_word() -> Seq<u8> {
    seq![68u8, 79u8, 77u8, 65u8, 73u8, 78u8]
}

/// `DOMAIN-SUFFIX`
pub open spec fn suffix_word() -> Seq<u8> {
    seq![68u8, 79u8, 77u8, 65u8, 73u8, 78u8, 45u8, 83u8, 85u8, 70u8, 70u8, 73u8, 88u8]
}

/// `DOMAIN-KEYWORD`
pub open spec fn keyword_word() -> Seq<u8> {
    seq![68u8, 79u8, 77u8, 65u8, 73u8, 78u8, 45u8, 75u8, 69u8, 89u8, 87u8, 79u8, 82u8, 68u8]
}

/// `IP-CIDR`
pub open spec fn cidr_word() -> Seq<u8> {
    seq![73u8, 80u8, 45u8, 67u8, 73u8, 68u8, 82u8]
}

/// `IP-CIDR6`
pub open spec fn cidr6_word() -> Seq<u8> {
    seq![73u8, 80u8, 45u8, 67u8, 73u8, 68u8, 82u8, 54u8]
}

impl RuleKind {
    /// The kind that the first field of a rule names, if any.
    pub open spec fn of_word(word: Seq<u8>) -> Option<RuleKind> {
        if word == domain_word() {
            Some(RuleKind::Domain)
        } else if word == suffix_word() {
            Some(RuleKind::DomainSuffix)
        } else if word == keyword_word() {
            Some(RuleKind::DomainKeyword)
        } else if word == cidr_word() {
            Some(RuleKind::IpCidr)
        } else if word == cidr6_word() {
            Some(RuleKind::IpCidr6)
        } else {
            None
        }
    }

    /// The kind that the first field of a rule names, if any.
    pub fn from_word(word: &[u8]) -> (r: Option<RuleKind>)
        ensures
            r == RuleKind::of_word(word@),
    {
        let w1: Vec<u8> = vec![68u8, 79u8, 77u8, 65u8, 73u8, 78u8];
        let w2: Vec<u8> = vec![
            68u8, 79u8, 77u8, 65u8, 73u8, 78u8, 45u8, 83u8, 85u8, 70u8, 70u8, 73u8, 88u8,
        ];
        let w3: Vec<u8> = vec![
            68u8, 79u8, 77u8, 65u8, 73u8, 78u8, 45u8, 75u8, 69u8, 89u8, 87u8, 79u8, 82u8, 68u8,
        ];
        let w4: Vec<u8> = vec![73u8, 80u8, 45u8, 67u8, 73u8, 68u8, 82u8];
        let w5: Vec<u8> = vec![73u8, 80u8, 45u8, 67u8, 73u8, 68u8, 82u8, 54u8];
        assert(w1@ =~= domain_word());
        assert(w2@ =~= suffix_word());
        assert(w3@ =~= keyword_word());
        assert(w4@ =~= cidr_word());
        assert(w5@ =~= cidr6_word());
        if bytes_eq(word, w1.as_slice()) {
            Some(RuleKind::Domain)
        } else if bytes_eq(word, w2.as_slice()) {
            Some(RuleKind::DomainSuffix)
        } else if bytes_eq(word, w3.as_slice()) {
            Some(RuleKind::DomainKeyword)
        } else if bytes_eq(word, w4.as_slice()) {
            Some(RuleKind::IpCidr)
        } else if bytes_eq(word, w5.as_slice()) {
            Some(RuleKind::IpCidr6)
        } else {
            None
        }
    }
}

/// The field of `line` that starts at `from`: the bytes up to the next
/// comma or the end, and the index of that comma or end.
fn next_field(line: &[u8], from: usize) -> (r: (Vec<u8>, usize))
    requires
        from <= line@.len(),
    ensures
        r.1 == scan(line@, from as int, COMMA),
        from <= r.1 <= line@.len(),
        r.0@ == line@.subrange(from as int, scan(line@, from as int, COMMA)),
{
    let rest: &[u8] = slice_subrange(line, from, line.len());
    let c = Cursor::new(rest);
    assert(c.rest() =~= rest@);
    let at: usize = c.find(COMMA);
    proof {
        assert(rest@ =~= line@.skip(from as int));
        crate::protocol::cursor::lemma_scan_skip(line@, from as int, COMMA);
        assert(line@.subrange(from as int, from + at) =~= rest@.subrange(0, at as int));
    }
    (slice_to_vec(slice_subrange(rest, 0, at)), from + at)
}

/// The three fields of a rule.
pub fn split_rule(line: &[u8]) -> (r: (Vec<u8>, Vec<u8>, Vec<u8>))
    ensures
        (r.0@, r.1@, r.2@) == rule_fields(line@),
{
    let (kind, a) = next_field(line, 0);
    if a >= line.len() {
        let r = (kind, vec![95u8], vec![95u8]);
        assert(r.1@ =~= blank());
        assert(r.2@ =~= blank());
        return r;
    }
    let (content, b) = next_field(line, a + 1);
    if b >= line.len() {
        let r = (kind, content, vec![95u8]);
        assert(r.2@ =~= blank());
        return r;
    }
    let (word, _) = next_field(line, b + 1);
    (kind, content, word)
}

/// The network that a field of a rule spells.
pub open spec fn cidr_of(field: Seq<u8>) -> Option<Cidr> {
    if valid_utf8(field) {
        cidr_parse(decode_utf8(field))
    } else {
        None
    }
}

/// The network that a field of a rule spells; `InvalidCidr` where it spells none.
pub fn read_cidr(field: Vec<u8>) -> (r: Result<Cidr, Error>)
    ensures
        match r {
            Ok(c) => cidr_of(field@) == Some(c),
            Err(e) => cidr_of(field@) is None && e == Error::InvalidCidr,
        },
{
    let text: String = match utf8_string(field) {
        Ok(t) => t,
        Err(_) => {
            return Err(Error::InvalidCidr);
        },
    };
    match parse_network(text.as_str()) {
        Ok(c) => Ok(c),
        Err(_) => Err(Error::InvalidCidr),
    }
}

/// A list of rules on names with one more rule: a rule with the same
/// pattern is replaced where it stands, a new pattern goes to the end.
pub open spec fn put_rule(list: Seq<(Seq<u8>, Routing)>, pattern: Seq<u8>, routing: Routing) -> Seq<
    (Seq<u8>, Routing),
> {
    let i = first_rule(RuleKind::Domain, list, 0, pattern);
    if i < list.len() {
        list.update(i, (pattern, routing))
    } else {
        list.push((pattern, routing))
    }
}

/// The index of the first rule at or after `from` on the network `net`;
/// the length of the list if there is none.
pub open spec fn net_index(list: Seq<CidrRule>, from: int, net: Cidr) -> int
    decreases list.len() - from,
{
    if from < 0 || from >= list.len() {
        list.len() as int
    } else if list[from].net == net {
        from
    } else {
        net_index(list, from + 1, net)
    }
}

/// A list of rules on addresses with one more rule: a rule on the same
/// network is replaced where it stands, a new network goes to the end.
pub open spec fn put_net(list: Seq<CidrRule>, net: Cidr, routing: Routing) -> Seq<CidrRule> {
    let i = net_index(list, 0, net);
    if i < list.len() {
        list.update(i, CidrRule { net, routing })
    } else {
        list.push(CidrRule { net, routing })
    }
}

/// Puts a rule on names into a list.
fn insert_rule(list: &mut Vec<DomainRule>, pattern: Vec<u8>, routing: Routing)
    ensures
        domain_rules(final(list)@) == put_rule(domain_rules(old(list)@), pattern@, routing),
{
    let ghost rules = domain_rules(list@);
    let mut i: usize = 0;
    while i < list.len()
        invariant
            i <= list@.len(),
            list@ == old(list)@,
            rules == domain_rules(list@),
            first_rule(RuleKind::Domain, rules, 0, pattern@) == first_rule(
                RuleKind::Domain,
                rules,
                i as int,
                pattern@,
            ),
        decreases list@.len() - i,
    {
        if bytes_eq(list[i].pattern.as_slice(), pattern.as_slice()) {
            list[i] = DomainRule { pattern, routing };
            assert(domain_rules(list@) =~= put_rule(rules, pattern@, routing));
            return ;
        }
        i = i + 1;
    }
    list.push(DomainRule { pattern, routing });
    assert(domain_rules(list@) =~= put_rule(rules, pattern@, routing));
}

/// Puts a rule on addresses into a list.
fn insert_net(list: &mut Vec<CidrRule>, net: Cidr, routing: Routing)
    ensures
        final(list)@ == put_net(old(list)@, net, routing),
{
    let mut i: usize = 0;
    while i < list.len()
        invariant
            i <= list@.len(),
            list@ == old(list)@,
            net_index(list@, 0, net) == net_index(list@, i as int, net),
        decreases list@.len() - i,
    {
        if list[i].net == net {
            list[i] = CidrRule { net, routing };
            assert(list@ =~= put_net(old(list)@, net, routing));
            return ;
        }
        i = i + 1;
    }
    list.push(CidrRule { net, routing });
    assert(list@ =~= put_net(old(list)@, net, routing));
}

/// The first rule that holds of a name is a rule that holds of it, and no
/// rule before it does; where no rule holds, there is no first.
pub proof fn lemma_first_rule(kind: RuleKind, list: Seq<(Seq<u8>, Routing)>, from: int, name: Seq<u8>)
    requires
        0 <= from <= list.len(),
    ensures
        from <= first_rule(kind, list, from, name) <= list.len(),
        first_rule(kind, list, from, name) < list.len() ==> rule_matches(
            kind,
            list[first_rule(kind, list, from, name)].0,
            name,
        ),
        forall|j: int|
            from <= j < first_rule(kind, list, from, name) ==> !rule_matches(
                kind,
                (#[trigger] list[j]).0,
                name,
            ),
    decreases list.len() - from,
{
    if from < list.len() && !rule_matches(kind, list[from].0, name) {
        lemma_first_rule(kind, list, from + 1, name);
    }
}

/// The first match wins, and the kinds are asked in order: a rule on the
/// whole name decides whatever the other rules say; a suffix rule decides
/// where no rule on the whole name holds, whatever the keyword rules say;
/// and what the rules on names decide, no address and no country changes.
pub proof fn lemma_first_match_wins(
    store: StoreView,
    name: Seq<u8>,
    resolved: Option<IpAddress>,
    code: Option<Seq<u8>>,
)
    ensures
        rule_verdict(RuleKind::Domain, store.domains, name) is Some ==> store.domain(name)
            == rule_verdict(RuleKind::Domain, store.domains, name),
        rule_verdict(RuleKind::Domain, store.domains, name) is None && rule_verdict(
            RuleKind::DomainSuffix,
            store.suffixes,
            name,
        ) is Some ==> store.domain(name) == rule_verdict(
            RuleKind::DomainSuffix,
            store.suffixes,
            name,
        ),
        store.domain(name) is Some ==> domain_verdict(store, name, resolved, code) == store.domain(
            name,
        )->0,
        forall|i: int|
            0 <= i < store.domains.len() && (#[trigger] store.domains[i]).0 == name
                ==> store.domain(name) is Some,
{
    lemma_first_rule(RuleKind::Domain, store.domains, 0, name);
}

/// A rule that holds decides where the rules that hold agree: if rule
/// `i` holds of a name, and every rule of the list that holds of the name
/// has the verdict of rule `i`, that verdict is the verdict of the list.
pub proof fn lemma_agreeing_rules(
    kind: RuleKind,
    list: Seq<(Seq<u8>, Routing)>,
    name: Seq<u8>,
    i: int,
)
    requires
        0 <= i < list.len(),
        rule_matches(kind, list[i].0, name),
        forall|j: int|
            0 <= j < list.len() && rule_matches(kind, (#[trigger] list[j]).0, name) ==> list[j].1
                == list[i].1,
    ensures
        rule_verdict(kind, list, name) == Some(list[i].1),
{
    lemma_first_rule(kind, list, 0, name);
    let f = first_rule(kind, list, 0, name);
    if f > i {
        assert(!rule_matches(kind, list[i].0, name));
    }
    assert(rule_matches(kind, list[f].0, name));
}

/// A suffix rule decides: where no rule on the whole name holds, a suffix
/// rule holds of the name, and the suffix rules that hold of it agree, the
/// verdict on the name is that of the suffix rule, whatever the keyword
/// rules say and whatever the name resolves to.
pub proof fn lemma_suffix_rule_decides(
    store: StoreView,
    name: Seq<u8>,
    i: int,
    resolved: Option<IpAddress>,
    code: Option<Seq<u8>>,
)
    requires
        rule_verdict(RuleKind::Domain, store.domains, name) is None,
        0 <= i < store.suffixes.len(),
        label_suffix(name, store.suffixes[i].0),
        forall|j: int|
            0 <= j < store.suffixes.len() && label_suffix(name, (#[trigger] store.suffixes[j]).0)
                ==> store.suffixes[j].1 == store.suffixes[i].1,
    ensures
        store.domain(name) == Some(store.suffixes[i].1),
        domain_verdict(store, name, resolved, code) == store.suffixes[i].1,
{
    lemma_agreeing_rules(RuleKind::DomainSuffix, store.suffixes, name, i);
}

/// A rule that is put into a list is found under its pattern, with its
/// verdict, and the list holds no pattern twice if it held none twice before.
pub proof fn lemma_put_rule(list: Seq<(Seq<u8>, Routing)>, pattern: Seq<u8>, routing: Routing)
    requires
        forall|i: int, j: int|
            0 <= i < j < list.len() ==> (#[trigger] list[i]).0 != (#[trigger] list[j]).0,
    ensures
        rule_verdict(RuleKind::Domain, put_rule(list, pattern, routing), pattern) == Some(routing),
        forall|i: int, j: int|
            0 <= i < j < put_rule(list, pattern, routing).len() ==> (#[trigger] put_rule(
                list,
                pattern,
                routing,
            )[i]).0 != (#[trigger] put_rule(list, pattern, routing)[j]).0,
{
    let i = first_rule(RuleKind::Domain, list, 0, pattern);
    lemma_first_rule(RuleKind::Domain, list, 0, pattern);
    let out = put_rule(list, pattern, routing);
    assert(out.len() > 0);
    let at = if i < list.len() {
        i
    } else {
        list.len() as int
    };
    assert(out[at] == (pattern, routing));
    assert forall|j: int| 0 <= j < at implies !rule_matches(
        RuleKind::Domain,
        (#[trigger] out[j]).0,
        pattern,
    ) by {
        assert(out[j] == list[j]);
    }
    lemma_first_rule(RuleKind::Domain, out, 0, pattern);
    let found = first_rule(RuleKind::Domain, out, 0, pattern);
    if found < at {
        assert(!rule_matches(RuleKind::Domain, out[found].0, pattern));
    }
    if found > at {
        assert(rule_matches(RuleKind::Domain, out[at].0, pattern));
    }
    assert forall|a: int, b: int| 0 <= a < b < out.len() implies (#[trigger] out[a]).0 != (
    #[trigger] out[b]).0 by {
        if i < list.len() {
            if a == i {
                assert(list[a].0 == pattern);
                assert(out[b] == list[b]);
                assert(list[a].0 != list[b].0);
            } else if b == i {
                assert(list[b].0 == pattern);
                assert(out[a] == list[a]);
                assert(list[a].0 != list[b].0);
            } else {
                assert(out[a] == list[a]);
                assert(out[b] == list[b]);
            }
        } else {
            if b == list.len() {
                assert(out[a] == list[a]);
                assert(!rule_matches(RuleKind::Domain, list[a].0, pattern));
            } else {
                assert(out[a] == list[a]);
                assert(out[b] == list[b]);
            }
        }
    }
}

/// A rule that is put into a list of rules on addresses is found under
/// its network, and the list holds no network twice if it held none twice
/// before.
pub proof fn lemma_put_net(list: Seq<CidrRule>, net: Cidr, routing: Routing)
    requires
        forall|i: int, j: int|
            0 <= i < j < list.len() ==> (#[trigger] list[i]).net != (#[trigger] list[j]).net,
    ensures
        net_index(put_net(list, net, routing), 0, net) < put_net(list, net, routing).len(),
        put_net(list, net, routing)[net_index(put_net(list, net, routing), 0, net)] == (CidrRule {
            net,
            routing,
        }),
        forall|i: int, j: int|
            0 <= i < j < put_net(list, net, routing).len() ==> (#[trigger] put_net(
                list,
                net,
                routing,
            )[i]).net != (#[trigger] put_net(list, net, routing)[j]).net,
{
    let i = net_index(list, 0, net);
    lemma_net_index(list, 0, net);
    let out = put_net(list, net, routing);
    let at = if i < list.len() {
        i
    } else {
        list.len() as int
    };
    assert(out[at] == CidrRule { net, routing });
    assert forall|j: int| 0 <= j < at implies (#[trigger] out[j]).net != net by {
        assert(out[j] == list[j]);
    }
    lemma_net_index(out, 0, net);
    let found = net_index(out, 0, net);
    if found < at {
        assert(out[found].net != net);
    }
    if found > at {
        assert(out[at].net == net);
    }
    assert forall|a: int, b: int| 0 <= a < b < out.len() implies (#[trigger] out[a]).net != (
    #[trigger] out[b]).net by {
        if i < list.len() {
            if a == i {
                assert(list[a].net == net);
                assert(out[b] == list[b]);
                assert(list[a].net != list[b].net);
            } else if b == i {
                assert(list[b].net == net);
                assert(out[a] == list[a]);
                assert(list[a].net != list[b].net);
            } else {
                assert(out[a] == list[a]);
                assert(out[b] == list[b]);
            }
        } else {
            if b == list.len() {
                assert(out[a] == list[a]);
                assert(list[a].net != net);
            } else {
                assert(out[a] == list[a]);
                assert(out[b] == list[b]);
            }
        }
    }
}

/// The first rule on a network is a rule on it, and no rule before it is.
pub proof fn lemma_net_index(list: Seq<CidrRule>, from: int, net: Cidr)
    requires
        0 <= from <= list.len(),
    ensures
        from <= net_index(list, from, net) <= list.len(),
        net_index(list, from, net) < list.len() ==> list[net_index(list, from, net)].net == net,
        forall|j: int| from <= j < net_index(list, from, net) ==> (#[trigger] list[j]).net != net,
    decreases list.len() - from,
{
    if from < list.len() && list[from].net != net {
        lemma_net_index(list, from + 1, net);
    }
}

/// No pattern stands twice in a list of rules on names.
pub open spec fn distinct_rules(list: Seq<(Seq<u8>, Routing)>) -> bool {
    forall|i: int, j: int|
        0 <= i < j < list.len() ==> (#[trigger] list[i]).0 != (#[trigger] list[j]).0
}

/// No network stands twice in a list of rules on addresses.
pub open spec fn distinct_nets(list: Seq<CidrRule>) -> bool {
    forall|i: int, j: int|
        0 <= i < j < list.len() ==> (#[trigger] list[i]).net != (#[trigger] list[j]).net
}

impl StoreView {
    /// Each of the five lists is a map: no pattern and no network stands
    /// twice in it.
    pub open spec fn distinct(self) -> bool {
        &&& distinct_rules(self.domains)
        &&& distinct_rules(self.suffixes)
        &&& distinct_rules(self.keywords)
        &&& distinct_nets(self.cidrs)
        &&& distinct_nets(self.cidrs6)
    }
}

/// Loading keeps every list a map: a store in which nothing stands
/// twice is one still after any lines have been loaded into it.
pub proof fn lemma_load_distinct(store: StoreView, lines: Seq<Seq<u8>>, from: int)
    requires
        store.distinct(),
        load(store, lines, from) is Ok,
    ensures
        load(store, lines, from)->Ok_0.distinct(),
    decreases lines.len() - from,
{
    if 0 <= from < lines.len() {
        let next = load_line(store, lines[from])->Ok_0;
        let (kind, content, word) = rule_fields(lines[from]);
        match RuleKind::of_word(kind) {
            None => {},
            Some(k) => {
                let v = Routing::of_word(word)->0;
                if k == RuleKind::IpCidr {
                    lemma_put_net(store.cidrs, cidr_of(content)->0, v);
                } else if k == RuleKind::IpCidr6 {
                    lemma_put_net(store.cidrs6, cidr_of(content)->0, v);
                } else if k == RuleKind::Domain {
                    lemma_put_rule(store.domains, content, v);
                } else if k == RuleKind::DomainSuffix {
                    lemma_put_rule(store.suffixes, content, v);
                } else {
                    lemma_put_rule(store.keywords, content, v);
                }
            },
        }
        lemma_load_distinct(next, lines, from + 1);
    }
}

/// The routing rules of a process: built once, read ever after.
pub struct RuleStore {
    domains: Vec<DomainRule>,
    suffixes: Vec<DomainRule>,
    keywords: Vec<DomainRule>,
    cidrs: Vec<CidrRule>,
    cidrs6: Vec<CidrRule>,
}

impl View for RuleStore {
    type V = StoreView;

    closed spec fn view(&self) -> StoreView {
        StoreView {
            domains: domain_rules(self.domains@),
            suffixes: domain_rules(self.suffixes@),
            keywords: domain_rules(self.keywords@),
            cidrs: self.cidrs@,
            cidrs6: self.cidrs6@,
        }
    }
}

/// The verdict of the first rule in a list that holds of a name.
fn search(kind: RuleKind, list: &Vec<DomainRule>, domain: &[u8]) -> (r: Option<Routing>)
    ensures
        r == rule_verdict(kind, domain_rules(list@), domain@),
{
    let ghost rules = domain_rules(list@);
    let mut i: usize = 0;
    while i < list.len()
        invariant
            i <= list@.len(),
            rules == domain_rules(list@),
            first_rule(kind, rules, 0, domain@) == first_rule(kind, rules, i as int, domain@),
        decreases list@.len() - i,
    {
        let rule: &DomainRule = &list[i];
        let hit: bool = match kind {
            RuleKind::Domain => bytes_eq(rule.pattern.as_slice(), domain),
            RuleKind::DomainSuffix => ends_with_labels(domain, rule.pattern.as_slice()),
            RuleKind::DomainKeyword => contains(domain, rule.pattern.as_slice()),
            _ => false,
        };
        assert(hit == rule_matches(kind, rules[i as int].0, domain@));
        if hit {
            return Some(rule.routing);
        }
        i = i + 1;
    }
    None
}

impl RuleStore {
    /// Each of the five lists is a map: no pattern and no network stands
    /// twice in it.
    #[verifier::type_invariant]
    spec fn inv(self) -> bool {
        self@.distinct()
    }

    /// A store without a rule.
    pub fn new() -> (r: RuleStore)
        ensures
            r@ == StoreView::empty(),
            r@.distinct(),
    {
        let r = RuleStore {
            domains: Vec::new(),
            suffixes: Vec::new(),
            keywords: Vec::new(),
            cidrs: Vec::new(),
            cidrs6: Vec::new(),
        };
        assert(r@.domains =~= Seq::empty());
        assert(r@.suffixes =~= Seq::empty());
        assert(r@.keywords =~= Seq::empty());
        r
    }

    /// The store with one more rule on names. A rule of the same kind
    /// with the same pattern is replaced where it stands; a new one is
    /// tried after those that are there. A kind that is none of the three
    /// kinds on names changes nothing.
    pub fn add_rule(self, kind: RuleKind, pattern: Vec<u8>, routing: Routing) -> (r: RuleStore)
        ensures
            r@ == self@.with_rule(kind, pattern@, routing),
            self@.distinct(),
            r@.distinct(),
    {
        proof {
            use_type_invariant(&self);
            lemma_put_rule(self@.domains, pattern@, routing);
            lemma_put_rule(self@.suffixes, pattern@, routing);
            lemma_put_rule(self@.keywords, pattern@, routing);
        }
        let RuleStore { mut domains, mut suffixes, mut keywords, cidrs, cidrs6 } = self;
        match kind {
            RuleKind::Domain => insert_rule(&mut domains, pattern, routing),
            RuleKind::DomainSuffix => insert_rule(&mut suffixes, pattern, routing),
            RuleKind::DomainKeyword => insert_rule(&mut keywords, pattern, routing),
            _ => {},
        }
        RuleStore { domains, suffixes, keywords, cidrs, cidrs6 }
    }

    /// The store with one more rule on addresses, among the rules on IPv6
    /// if `kind` is `IpCidr6`, among those on IPv4 if it is `IpCidr`. A
    /// rule on the same network is replaced where it stands; a new one is
    /// tried after those that are there. Any other kind changes nothing.
    pub fn add_net(self, kind: RuleKind, net: Cidr, routing: Routing) -> (r: RuleStore)
        ensures
            r@ == self@.with_net(kind, net, routing),
            self@.distinct(),
            r@.distinct(),
    {
        proof {
            use_type_invariant(&self);
            lemma_put_net(self@.cidrs, net, routing);
            lemma_put_net(self@.cidrs6, net, routing);
        }
        let RuleStore { domains, suffixes, keywords, mut cidrs, mut cidrs6 } = self;
        match kind {
            RuleKind::IpCidr => insert_net(&mut cidrs, net, routing),
            RuleKind::IpCidr6 => insert_net(&mut cidrs6, net, routing),
            _ => {},
        }
        RuleStore { domains, suffixes, keywords, cidrs, cidrs6 }
    }
}

/// Why a list of rules cannot be loaded.
pub enum Fault {
    /// The third field of a rule is none of `DIRECT`, `PROXY`, `REJECT`.
    UnknownRouting,
    /// The second field of a rule on addresses spells no network.
    InvalidCidr,
}

/// A store with the rule of one line put into it. A line of an unknown
/// kind changes nothing, whatever its other fields hold.
pub open spec fn load_line(store: StoreView, line: Seq<u8>) -> Result<StoreView, Fault> {
    let (kind, content, word) = rule_fields(line);
    match RuleKind::of_word(kind) {
        None => Ok(store),
        Some(k) => if k == RuleKind::IpCidr || k == RuleKind::IpCidr6 {
            match cidr_of(content) {
                None => Err(Fault::InvalidCidr),
                Some(net) => match Routing::of_word(word) {
                    None => Err(Fault::UnknownRouting),
                    Some(v) => Ok(store.with_net(k, net, v)),
                },
            }
        } else {
            match Routing::of_word(word) {
                None => Err(Fault::UnknownRouting),
                Some(v) => Ok(store.with_rule(k, content, v)),
            }
        },
    }
}

/// A store with the rules of the lines from `from` on put into it, in
/// order, up to the first line that cannot be loaded.
pub open spec fn load(store: StoreView, lines: Seq<Seq<u8>>, from: int) -> Result<StoreView, Fault>
    decreases lines.len() - from,
{
    if from < 0 || from >= lines.len() {
        Ok(store)
    } else {
        match load_line(store, lines[from]) {
            Err(f) => Err(f),
            Ok(next) => load(next, lines, from + 1),
        }
    }
}

/// The lines of a rule file as bytes.
pub open spec fn line_bytes(rules: Seq<String>) -> Seq<Seq<u8>> {
    Seq::new(rules.len(), |i: int| encode_utf8(rules[i]@))
}

/// What an error says of a fault.
pub open spec fn tells(e: Error, f: Fault) -> bool {
    match f {
        Fault::UnknownRouting => e matches Error::Other(m) && m@ == "unknown routing"@,
        Fault::InvalidCidr => e == Error::InvalidCidr,
    }
}

/// Builds the store from the lines of a rule file, each of the form
/// `KIND,PATTERN,VERDICT`. Lines of an unknown kind are passed over; the
/// first line with a verdict or a network that cannot be read ends the
/// loading with an error.
pub fn initial(rules: &Vec<String>) -> (r: Result<RuleStore, Error>)
    ensures
        match r {
            Ok(store) => load(StoreView::empty(), line_bytes(rules@), 0) == Ok::<
                StoreView,
                Fault,
            >(store@) && store@.distinct(),
            Err(e) => load(StoreView::empty(), line_bytes(rules@), 0) is Err && tells(
                e,
                load(StoreView::empty(), line_bytes(rules@), 0)->Err_0,
            ),
        },
{
    let mut store: RuleStore = RuleStore::new();
    let ghost lines = line_bytes(rules@);
    let ghost goal = load(StoreView::empty(), lines, 0);
    let mut i: usize = 0;
    while i < rules.len()
        invariant
            i <= rules@.len(),
            lines == line_bytes(rules@),
            goal == load(StoreView::empty(), lines, 0),
            goal == load(store@, lines, i as int),
        decreases rules@.len() - i,
    {
        let line: &[u8] = rules[i].as_str().as_bytes();
        assert(line@ == lines[i as int]);
        let (kind, content, word) = split_rule(line);
        match RuleKind::from_word(kind.as_slice()) {
            None => {},
            Some(k) => {
                let on_addresses: bool = match k {
                    RuleKind::IpCidr => true,
                    RuleKind::IpCidr6 => true,
                    _ => false,
                };
                if on_addresses {
                    let net: Cidr = match read_cidr(content) {
                        Ok(n) => n,
                        Err(e) => {
                            return Err(e);
                        },
                    };
                    let v: Routing = match Routing::try_from(word.as_slice()) {
                        Ok(v) => v,
                        Err(e) => {
                            return Err(e);
                        },
                    };
                    store = store.add_net(k, net, v);
                } else {
                    let v: Routing = match Routing::try_from(word.as_slice()) {
                        Ok(v) => v,
                        Err(e) => {
                            return Err(e);
                        },
                    };
                    store = store.add_rule(k, content, v);
                }
            },
        }
        i = i + 1;
    }
    proof {
        use_type_invariant(&store);
    }
    Ok(store)
}

/// What the rules say of a domain name: the whole name first, suffixes
/// next, keywords last. Nothing where no rule holds of the name: its
/// address decides.
pub fn domain(store: &RuleStore, host: &str) -> (r: Option<Routing>)
    ensures
        r == store@.domain(encode_utf8(host@)),
        store@.distinct(),
{
    proof {
        use_type_invariant(store);
    }
    let name: &[u8] = host.as_bytes();
    match search(RuleKind::Domain, &store.domains, name) {
        Some(v) => Some(v),
        None => match search(RuleKind::DomainSuffix, &store.suffixes, name) {
            Some(v) => Some(v),
            None => search(RuleKind::DomainKeyword, &store.keywords, name),
        },
    }
}

/// What the rules say of an address: the first network of its family that
/// holds it. Nothing where none does: its country decides.
pub fn ip(store: &RuleStore, addr: IpAddress) -> (r: Option<Routing>)
    ensures
        r == store@.ip(addr),
        store@.distinct(),
{
    proof {
        use_type_invariant(store);
    }
    let list: &Vec<CidrRule> = match addr {
        IpAddress::V4(_) => &store.cidrs,
        IpAddress::V6(_) => &store.cidrs6,
    };
    let mut i: usize = 0;
    while i < list.len()
        invariant
            i <= list@.len(),
            store@.ip(addr) == net_verdict(list@, addr),
            store@.distinct(),
            first_net(list@, 0, addr) == first_net(list@, i as int, addr),
        decreases list@.len() - i,
    {
        let rule: CidrRule = list[i];
        if rule.net.contains(addr) {
            return Some(rule.routing);
        }
        i = i + 1;
    }
    None
}

/// What the country of an address says where no rule does. `code` is the
/// ISO code that the GeoIP database gives for the address, if any.
pub fn geo(code: Option<&str>) -> (r: Routing)
    ensures
        r == country_verdict(
            match code {
                Some(c) => Some(encode_utf8(c@)),
                None => None,
            },
        ),
{
    let cn: Vec<u8> = vec![67u8, 78u8];
    assert(cn@ =~= china());
    match code {
        Some(c) => if bytes_eq(c.as_bytes(), cn.as_slice()) {
            Routing::Direct
        } else {
            Routing::Proxy
        },
        None => Routing::Proxy,
    }
}

} // verus!
