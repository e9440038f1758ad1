//! The HTTP CONNECT handshake.

use vstd::prelude::*;
use vstd::string::StringExecFns;
use vstd::utf8::{decode_utf8, valid_utf8};
use crate::addr::IpAddress;
use crate::error::Error;
use crate::protocol::cursor::{lemma_scan, lemma_scan_skip, scan, Cursor};
use crate::protocol::frame::{lemma_stands, lemma_took, line_of, stands, BufReader, CR, LF};
use crate::protocol::{AType, ReqCmd, Request, RequestView, Ver};
use crate::text::{has_at, utf8_string};

verus! {

/// The host of a URL.
#[derive(Debug, Clone, PartialEq, Eq)]
pub enum Host {
    Domain(String),
    Ipv4(u32),
    Ipv6(u128),
}

/// What a `Host` holds, as mathematical values.
pub enum HostView {
    Domain(Seq<char>),
    Ipv4(u32),
    Ipv6(u128),
}

impl View for Host {
    type V = HostView;

    open spec fn view(&self) -> HostView {
        match self {
            Host::Domain(d) => HostView::Domain(d@),
            Host::Ipv4(a) => HostView::Ipv4(*a),
            Host::Ipv6(a) => HostView::Ipv6(*a),
        }
    }
}

/// The two parts of a URL that name where to connect.
#[derive(Debug, Clone, PartialEq, Eq)]
pub struct Target {
    pub host: Option<Host>,
    /// The port, where the URL gives one that is not its scheme's own.
    pub port: Option<u16>,
}

/// What a `Target` holds, as mathematical values.
pub struct TargetView {
    pub host: Option<HostView>,
    pub port: Option<u16>,
}

impl View for Target {
    type V = TargetView;

    open spec fn view(&self) -> TargetView {
        TargetView {
            host: match self.host {
                Some(h) => Some(h@),
                None => None,
            },
            port: self.port,
        }
    }
}

/// The host and port that the `url` crate reads from a text, or nothing
/// where it does not take the text for an absolute URL.
pub uninterp spec fn url_parse(text: Seq<char>) -> Option<TargetView>;

/// `url::Url::parse`, with `Url::host` and `Url::port` to take the result
/// apart. Nothing is claimed beyond the name: the same text gives the same parts.
#[verifier::external_body]
fn parse_url(text: &str) -> (r: Option<Target>)
    ensures
        r is Some == url_parse(text@) is Some,
        r matches Some(t) ==> t@ == url_parse(text@)->0,
{
    let url = url::Url::parse(text).ok()?;
    let host = match url.host() {
        Some(url::Host::Domain(d)) => Some(Host::Domain(d.to_string())),
        Some(url::Host::Ipv4(a)) => Some(Host::Ipv4(u32::from(a))),
        Some(url::Host::Ipv6(a)) => Some(Host::Ipv6(u128::from(a))),
        None => None,
    };
    Some(Target { host, port: url.port() })
}

/// The space that parts the three fields of a request line.
pub const SP: u8 = 32;

/// `ONNECT `: what follows the first letter of a CONNECT request line, up to the target.
pub open spec fn method_rest() -> Seq<u8> {
    seq![79u8, 78u8, 78u8, 69u8, 67u8, 84u8, 32u8]
}

/// ` HTTP/1.1`: what follows the target.
pub open spec fn version_part() -> Seq<u8> {
    seq![32u8, 72u8, 84u8, 84u8, 80u8, 47u8, 49u8, 46u8, 49u8]
}

/// The target of a request line, given without its first letter: `line` is
/// `ONNECT `, a target without a space in it, and ` HTTP/1.1`.
pub open spec fn connect_target(line: Seq<u8>) -> Option<Seq<u8>> {
    let target = line.subrange(7, line.len() - 9);
    if line.len() >= 16 && line.subrange(0, 7) == method_rest() && line.subrange(
        line.len() - 9,
        line.len() as int,
    ) == version_part() && scan(target, 0, SP) == target.len() {
        Some(target)
    } else {
        None
    }
}

/// The target of a request line that is given without its first letter.
pub fn read_target(line: &[u8]) -> (r: Option<Vec<u8>>)
    ensures
        r is Some == connect_target(line@) is Some,
        r matches Some(t) ==> t@ == connect_target(line@)->0,
{
    let head: Vec<u8> = vec![79u8, 78u8, 78u8, 69u8, 67u8, 84u8, 32u8];
    let tail: Vec<u8> = vec![32u8, 72u8, 84u8, 84u8, 80u8, 47u8, 49u8, 46u8, 49u8];
    assert(head@ =~= method_rest());
    assert(tail@ =~= version_part());
    if line.len() < 16 {
        return None;
    }
    if !has_at(line, 0, head.as_slice()) || !has_at(line, line.len() - 9, tail.as_slice()) {
        return None;
    }
    let target = vstd::slice::slice_subrange(line, 7, line.len() - 9);
    let c = Cursor::new(target);
    assert(c.rest() =~= target@);
    if c.find(SP) < target.len() {
        return None;
    }
    Some(vstd::slice::slice_to_vec(target))
}

/// Where the header block that starts at `from` ends: the index after the
/// first empty line. Each line ends with a carriage return and a line feed.
pub open spec fn headers_end(s: Seq<u8>, from: int) -> Result<int, Error>
    decreases s.len() - from,
{
    let cr = scan(s, from, CR);
    if from < 0 || cr + 1 >= s.len() {
        Err(Error::Incomplete)
    } else if s[cr + 1] != LF {
        Err(Error::BrokenLine)
    } else if cr == from {
        Ok(cr + 2)
    } else {
        proof {
            lemma_scan(s, from, CR);
        }
        headers_end(s, cr + 2)
    }
}

/// How far the reading of the header block that starts at `from` gets:
/// to the index after the first empty line, or, where a line cannot be
/// read, to the start of that line.
pub open spec fn headers_stop(s: Seq<u8>, from: int) -> int
    decreases s.len() - from,
{
    let cr = scan(s, from, CR);
    if from < 0 || cr + 1 >= s.len() || s[cr + 1] != LF {
        from
    } else if cr == from {
        cr + 2
    } else {
        proof {
            lemma_scan(s, from, CR);
        }
        headers_stop(s, cr + 2)
    }
}

/// What an HTTP CONNECT frame holds after its first letter, and how many
/// bytes reading it takes. `record` is what was read before; the request's
/// `raw` is `record` and the bytes taken. The request line and every header
/// line up to the first empty one are read, line by line, before the
/// request line is judged.
pub open spec fn http_body(s: Seq<u8>, record: Seq<u8>) -> (Result<RequestView, Error>, int) {
    let cr = scan(s, 0, CR);
    if cr + 1 >= s.len() {
        (Err(Error::Incomplete), 0)
    } else if s[cr + 1] != LF {
        (Err(Error::BrokenLine), 0)
    } else {
        match headers_end(s, cr + 2) {
            Err(e) => (Err(e), headers_stop(s, cr + 2)),
            Ok(end) => (
                match connect_target(s.subrange(0, cr)) {
                    None => Err(Error::BadRequest),
                    Some(target) => if valid_utf8(target) {
                        request_of_target(
                            url_parse("http://"@ + decode_utf8(target)),
                            record + s.subrange(0, end),
                        )
                    } else {
                        Err(Error::BadRequest)
                    },
                },
                end,
            ),
        }
    }
}

/// The port of a CONNECT whose target names none.
pub const DEFAULT_PORT: u16 = 80;

/// The request that a parsed CONNECT target stands for. `raw` is what the
/// client sent. A target that is no URL, or has no host, is a bad request.
pub open spec fn request_of_target(target: Option<TargetView>, raw: Seq<u8>) -> Result<
    RequestView,
    Error,
> {
    match target {
        Some(TargetView { host: Some(host), port }) => Ok(
            RequestView {
                ver: Ver::Http,
                cmd: ReqCmd::Connect,
                rsv: 0,
                dst_domain: match host {
                    HostView::Domain(d) => Some(d),
                    _ => None,
                },
                dst_addr: match host {
                    HostView::Domain(_) => None,
                    HostView::Ipv4(a) => Some(IpAddress::V4(a)),
                    HostView::Ipv6(a) => Some(IpAddress::V6(a)),
                },
                dst_port: match port {
                    Some(p) => p,
                    None => DEFAULT_PORT,
                },
                a_type: match host {
                    HostView::Domain(_) => AType::Domain,
                    HostView::Ipv4(_) => AType::Ipv4,
                    HostView::Ipv6(_) => AType::Ipv6,
                },
                raw,
            },
        ),
        _ => Err(Error::BadRequest),
    }
}

/// Builds the request for a CONNECT target that has been parsed as a URL.
pub fn http_request(target: Option<Target>, raw: Vec<u8>) -> (r: Result<Request, Error>)
    ensures
        match r {
            Ok(req) => request_of_target(
                match target {
                    Some(t) => Some(t@),
                    None => None,
                },
                raw@,
            ) == Ok::<RequestView, Error>(req@) && req@.wf(),
            Err(e) => request_of_target(
                match target {
                    Some(t) => Some(t@),
                    None => None,
                },
                raw@,
            ) == Err::<RequestView, Error>(e),
        },
{
    let target = match target {
        Some(t) => t,
        None => {
            return Err(Error::BadRequest);
        },
    };
    let dst_port: u16 = match target.port {
        Some(p) => p,
        None => DEFAULT_PORT,
    };
    match target.host {
        Some(Host::Domain(d)) => Ok(
            Request {
                ver: Ver::Http,
                cmd: ReqCmd::Connect,
                rsv: 0,
                dst_domain: Some(d),
                dst_addr: None,
                dst_port,
                a_type: AType::Domain,
                raw,
            },
        ),
        Some(Host::Ipv4(a)) => Ok(
            Request {
                ver: Ver::Http,
                cmd: ReqCmd::Connect,
                rsv: 0,
                dst_domain: None,
                dst_addr: Some(IpAddress::V4(a)),
                dst_port,
                a_type: AType::Ipv4,
                raw,
            },
        ),
        Some(Host::Ipv6(a)) => Ok(
            Request {
                ver: Ver::Http,
                cmd: ReqCmd::Connect,
                rsv: 0,
                dst_domain: None,
                dst_addr: Some(IpAddress::V6(a)),
                dst_port,
                a_type: AType::Ipv6,
                raw,
            },
        ),
        None => Err(Error::BadRequest),
    }
}

/// What `BufReader::get_line` reports at index `from` is one step of
/// `headers_end` and of `headers_stop`.
proof fn lemma_line_step(s: Seq<u8>, from: int)
    requires
        0 <= from <= s.len(),
    ensures
        match line_of(s.skip(from)) {
            Ok(line) => line.len() == scan(s, from, CR) - from && from + line.len() + 2
                <= s.len() && s[scan(s, from, CR) + 1] == LF && line == s.subrange(
                from,
                scan(s, from, CR),
            ) && headers_end(s, from) == (if line.len() == 0 {
                Ok::<int, Error>(from + 2)
            } else {
                headers_end(s, from + line.len() + 2)
            }) && headers_stop(s, from) == (if line.len() == 0 {
                from + 2
            } else {
                headers_stop(s, from + line.len() + 2)
            }),
            Err(e) => headers_end(s, from) == Err::<int, Error>(e) && headers_stop(s, from)
                == from && (e == Error::Incomplete ==> scan(s, from, CR) + 1 >= s.len()) && (e
                == Error::BrokenLine ==> scan(s, from, CR) + 1 < s.len() && s[scan(s, from, CR)
                + 1] != LF) && (e == Error::Incomplete || e == Error::BrokenLine),
        },
{
    lemma_scan_skip(s, from, CR);
    lemma_scan(s, from, CR);
    let t = s.skip(from);
    let rel = scan(t, 0, CR);
    if rel + 1 < t.len() {
        assert(t[rel + 1] == s[from + rel + 1]);
        assert(t.subrange(0, rel) =~= s.subrange(from, from + rel));
    }
}

/// Reads an HTTP CONNECT frame whose first letter has been taken: the rest
/// of the request line, and header lines up to the first empty one;
/// `buf_reader` holds what was read before. The request line is judged
/// once all of them are there. A read that fails leaves the cursor behind
/// the last line it has read.
pub fn parse_req_http_connect(src: &mut Cursor, buf_reader: BufReader) -> (r: Result<
    Request,
    Error,
>)
    ensures
        final(src).bytes() == old(src).bytes(),
        final(src).consumed() == old(src).consumed() + http_body(old(src).rest(), buf_reader@).1,
        match r {
            Ok(req) => http_body(old(src).rest(), buf_reader@).0 == Ok::<RequestView, Error>(
                req@,
            ) && req@.wf(),
            Err(e) => http_body(old(src).rest(), buf_reader@).0 == Err::<RequestView, Error>(e),
        },
{
    let mut buf_reader = buf_reader;
    let ghost start = *src;
    let ghost r0 = buf_reader@;
    let ghost s = src.rest();
    proof {
        start.lemma_bounds();
        assert(r0 =~= r0 + s.subrange(0, 0));
        assert(s.skip(0) =~= s);
        lemma_line_step(s, 0);
    }
    let line: Vec<u8> = match buf_reader.get_line(src) {
        Ok(line) => line,
        Err(e) => {
            return Err(e);
        },
    };
    let ghost first: int = line@.len() as int + 2;
    proof {
        lemma_took(start, r0, 0, start, *src, r0, buf_reader@, first);
        assert(line@ == s.subrange(0, scan(s, 0, CR)));
    }
    let ghost k: int = first;
    let mut done: bool = false;
    while !done
        invariant
            s == start.rest(),
            start == *old(src),
            first == scan(s, 0, CR) + 2,
            first <= s.len(),
            s[scan(s, 0, CR) + 1] == LF,
            stands(*src, buf_reader@, start, r0, k),
            done ==> headers_end(s, first) == Ok::<int, Error>(k) && headers_stop(s, first) == k,
            !done ==> headers_end(s, k) == headers_end(s, first) && headers_stop(s, k)
                == headers_stop(s, first),
        decreases s.len() - k + (if done { 0int } else { 1int }),
    {
        let ghost c1 = *src;
        let ghost r1 = buf_reader@;
        proof {
            lemma_stands(c1, r1, start, r0, k);
            lemma_line_step(s, k);
        }
        match buf_reader.get_line(src) {
            Ok(l) => {
                proof {
                    lemma_took(start, r0, k, c1, *src, r1, buf_reader@, l@.len() as int + 2);
                    k = k + l@.len() + 2;
                }
                if l.len() == 0 {
                    done = true;
                }
            },
            Err(e) => {
                return Err(e);
            },
        }
    }
    let target: Vec<u8> = match read_target(line.as_slice()) {
        Some(t) => t,
        None => {
            return Err(Error::BadRequest);
        },
    };
    let host: String = match utf8_string(target) {
        Ok(h) => h,
        Err(_) => {
            return Err(Error::BadRequest);
        },
    };
    let mut url: String = String::from_str("http://");
    url.append(host.as_str());
    http_request(parse_url(url.as_str()), buf_reader.into_inner())
}

} // verus!
