//! What holds of every frame, whatever its bytes.

use vstd::prelude::*;
use crate::error::Error;
use crate::protocol::cursor::{lemma_scan, lemma_scan_unique, scan};
use crate::protocol::frame::CR;
use crate::protocol::http::{headers_end, http_body};
use crate::protocol::reply::success_bytes;
use crate::protocol::{frame_of, v4_body, v5_body, AType, FrameView, RequestView, Ver};
use crate::addr::IpAddress;

verus! {

/// A scan of the first `k` bytes finds what a scan of all bytes finds, if
/// that lies among them, and finds nothing otherwise.
pub proof fn lemma_scan_prefix(s: Seq<u8>, k: int, from: int, c: u8)
    requires
        0 <= from <= k <= s.len(),
    ensures
        scan(s.subrange(0, k), from, c) == (if scan(s, from, c) < k {
            scan(s, from, c)
        } else {
            k
        }),
{
    lemma_scan(s, from, c);
    let p = s.subrange(0, k);
    let i = if scan(s, from, c) < k {
        scan(s, from, c)
    } else {
        k
    };
    assert forall|j: int| from <= j < i implies p[j] != c by {
        assert(p[j] == s[j]);
    }
    lemma_scan_unique(p, from, c, i);
}

/// A header block that ends, ends inside the input and after its start.
pub proof fn lemma_headers_end_bounds(s: Seq<u8>, from: int)
    requires
        headers_end(s, from) is Ok,
    ensures
        from + 2 <= headers_end(s, from)->Ok_0 <= s.len(),
    decreases s.len() - from,
{
    let cr = scan(s, from, CR);
    if from >= 0 && from <= s.len() {
        lemma_scan(s, from, CR);
        if cr != from {
            lemma_headers_end_bounds(s, cr + 2);
        }
    }
}

/// A header block cut short before its end is incomplete.
pub proof fn lemma_headers_cut(s: Seq<u8>, from: int, k: int)
    requires
        headers_end(s, from) is Ok,
        0 <= from <= k < headers_end(s, from)->Ok_0,
        k <= s.len(),
    ensures
        headers_end(s.subrange(0, k), from) == Err::<int, Error>(Error::Incomplete),
    decreases s.len() - from,
{
    let p = s.subrange(0, k);
    let cr = scan(s, from, CR);
    lemma_scan(s, from, CR);
    lemma_scan_prefix(s, k, from, CR);
    if cr + 1 < k {
        assert(p[cr + 1] == s[cr + 1]);
        if cr != from {
            lemma_headers_cut(s, cr + 2, k);
        }
    }
}

/// The bytes of a request that was read are the bytes at the start of
/// the input, as many as the frame took.
pub proof fn lemma_raw_is_prefix(s: Seq<u8>, authorized: bool)
    requires
        frame_of(s, authorized) is Ok,
    ensures
        frame_of(s, authorized)->Ok_0.len() <= s.len(),
        frame_of(s, authorized)->Ok_0 matches FrameView::Req(req) ==> req.raw == s.subrange(
            0,
            req.raw.len() as int,
        ),
{
    let t = s.skip(1);
    let head = s.subrange(0, 1);
    if s[0] == 4 {
        lemma_scan(t, 7, 0);
        let n = v4_body(t, head).1;
        assert(head + t.subrange(0, n) =~= s.subrange(0, n + 1));
    } else if s[0] == 5 {
        if authorized {
            let n = v5_body(t, head).1;
            assert(head + t.subrange(0, n) =~= s.subrange(0, n + 1));
        }
    } else {
        let cr = scan(t, 0, CR);
        lemma_scan(t, 0, CR);
        lemma_headers_end_bounds(t, cr + 2);
        let n = http_body(t, head).1;
        assert(head + t.subrange(0, n) =~= s.subrange(0, n + 1));
    }
}

/// A SOCKS4 request cut short before its end is incomplete.
pub proof fn lemma_v4_cut(t: Seq<u8>, record: Seq<u8>, other: Seq<u8>, j: int)
    requires
        v4_body(t, record).0 is Ok,
        0 <= j < v4_body(t, record).1,
    ensures
        v4_body(t.subrange(0, j), other).0 == Err::<RequestView, Error>(Error::Incomplete),
{
    lemma_scan(t, 7, 0);
    let p = t.subrange(0, j);
    if j >= 1 {
        assert(p[0] == t[0]);
    }
    if j >= 7 {
        lemma_scan_prefix(t, j, 7, 0);
    }
}

/// A SOCKS5 request cut short before its end is incomplete.
pub proof fn lemma_v5_cut(t: Seq<u8>, record: Seq<u8>, other: Seq<u8>, j: int)
    requires
        v5_body(t, record).0 is Ok,
        0 <= j < v5_body(t, record).1,
    ensures
        v5_body(t.subrange(0, j), other).0 == Err::<RequestView, Error>(Error::Incomplete),
{
    let p = t.subrange(0, j);
    let a = t.skip(2);
    if j >= 1 {
        assert(p[0] == t[0]);
    }
    if j >= 2 {
        assert(p[1] == t[1]);
        let q = p.skip(2);
        assert(q =~= a.subrange(0, j - 2));
        if j >= 3 {
            assert(q[0] == a[0]);
            if a[0] == 1 {
                if j >= 7 {
                    assert(q.subrange(1, 5) =~= a.subrange(1, 5));
                }
            } else if a[0] == 3 {
                if j >= 4 {
                    assert(q[1] == a[1]);
                    if j >= 4 + a[1] {
                        assert(q.subrange(2, 2 + a[1]) =~= a.subrange(2, 2 + a[1]));
                    }
                }
            } else {
                if j >= 19 {
                    assert(q.subrange(1, 17) =~= a.subrange(1, 17));
                }
            }
        }
    }
}

/// An HTTP CONNECT cut short before its end is incomplete.
pub proof fn lemma_http_cut(t: Seq<u8>, record: Seq<u8>, other: Seq<u8>, j: int)
    requires
        http_body(t, record).0 is Ok,
        0 <= j < http_body(t, record).1,
    ensures
        http_body(t.subrange(0, j), other).0 == Err::<RequestView, Error>(Error::Incomplete),
{
    let p = t.subrange(0, j);
    let cr = scan(t, 0, CR);
    lemma_scan(t, 0, CR);
    lemma_headers_end_bounds(t, cr + 2);
    lemma_scan_prefix(t, j, 0, CR);
    if cr + 1 < j {
        assert(p[cr + 1] == t[cr + 1]);
        lemma_headers_cut(t, cr + 2, j);
    }
}

/// Every proper prefix of a frame is incomplete: cut short anywhere
/// before its end, the input of a frame that can be read gives neither a
/// frame nor any error but `Incomplete`.
pub proof fn lemma_prefix_incomplete(s: Seq<u8>, authorized: bool, k: int)
    requires
        frame_of(s, authorized) is Ok,
        0 <= k < frame_of(s, authorized)->Ok_0.len(),
    ensures
        frame_of(s.subrange(0, k), authorized) == Err::<FrameView, Error>(Error::Incomplete),
{
    lemma_raw_is_prefix(s, authorized);
    let p = s.subrange(0, k);
    let t = s.skip(1);
    let head = s.subrange(0, 1);
    if k >= 1 {
        assert(p[0] == s[0]);
        assert(p.skip(1) =~= t.subrange(0, k - 1));
        let other = p.subrange(0, 1);
        if s[0] == 4 {
            lemma_scan(t, 7, 0);
            lemma_v4_cut(t, head, other, k - 1);
        } else if s[0] == 5 {
            if !authorized {
                if k >= 2 {
                    assert(p.skip(1)[0] == t[0]);
                }
            } else {
                lemma_v5_cut(t, head, other, k - 1);
            }
        } else {
            let cr = scan(t, 0, CR);
            lemma_scan(t, 0, CR);
            lemma_headers_end_bounds(t, cr + 2);
            lemma_http_cut(t, head, other, k - 1);
        }
    }
}

/// A success reply starts with the byte of its dialect: 0 for SOCKS4, 5
/// for SOCKS5, the letter `H` for HTTP.
pub proof fn lemma_reply_first_byte(
    ver: Ver,
    a_type: AType,
    ip: Option<IpAddress>,
    domain: Option<Seq<u8>>,
    port: u16,
)
    requires
        success_bytes(ver, a_type, ip, domain, port) is Ok,
    ensures
        success_bytes(ver, a_type, ip, domain, port)->Ok_0.len() > 0,
        success_bytes(ver, a_type, ip, domain, port)->Ok_0[0] == (match ver {
            Ver::V4 => 0u8,
            Ver::V5 => 5u8,
            Ver::Http => 72u8,
        }),
{
}

} // verus!
