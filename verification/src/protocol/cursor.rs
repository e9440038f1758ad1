//! A read position over a byte buffer, and the fixed-width reads on it.

use vstd::prelude::*;
use vstd::slice::slice_subrange;
use crate::error::Error;

verus! {

/// The number that a run of bytes spells, most significant byte first.
pub open spec fn be_value(bytes: Seq<u8>) -> nat
    decreases bytes.len(),
{
    if bytes.len() == 0 {
        0
    } else {
        be_value(bytes.drop_last()) * 256 + bytes.last() as nat
    }
}

/// `bytes::Buf::get_u8` on a byte slice: the slice's first byte.
/// The outside function panics on an empty slice, which `requires` leaves out.
#[verifier::external_body]
fn buf_get_u8(chunk: &[u8]) -> (r: u8)
    requires
        chunk@.len() >= 1,
    ensures
        r == chunk@[0],
{
    let mut rest = chunk;
    bytes::Buf::get_u8(&mut rest)
}

/// `bytes::Buf::get_u16` on a byte slice: the number that the slice's first
/// two bytes spell in big-endian order. It panics on a shorter slice.
#[verifier::external_body]
fn buf_get_u16(chunk: &[u8]) -> (r: u16)
    requires
        chunk@.len() >= 2,
    ensures
        r as nat == be_value(chunk@.subrange(0, 2)),
{
    let mut rest = chunk;
    bytes::Buf::get_u16(&mut rest)
}

/// `bytes::Buf::get_u32` on a byte slice: the number that the slice's first
/// four bytes spell in big-endian order. It panics on a shorter slice.
#[verifier::external_body]
fn buf_get_u32(chunk: &[u8]) -> (r: u32)
    requires
        chunk@.len() >= 4,
    ensures
        r as nat == be_value(chunk@.subrange(0, 4)),
{
    let mut rest = chunk;
    bytes::Buf::get_u32(&mut rest)
}

/// `bytes::Buf::get_u128` on a byte slice: the number that the slice's first
/// sixteen bytes spell in big-endian order. It panics on a shorter slice.
#[verifier::external_body]
fn buf_get_u128(chunk: &[u8]) -> (r: u128)
    requires
        chunk@.len() >= 16,
    ensures
        r as nat == be_value(chunk@.subrange(0, 16)),
{
    let mut rest = chunk;
    bytes::Buf::get_u128(&mut rest)
}

/// A byte buffer and how far it has been read.
#[derive(Clone, Copy, Debug)]
pub struct Cursor<'a> {
    data: &'a [u8],
    pos: usize,
}

impl<'a> Cursor<'a> {
    /// The position never passes the end of the buffer.
    #[verifier::type_invariant]
    spec fn inv(self) -> bool {
        self.pos <= self.data@.len()
    }

    /// The whole buffer.
    pub closed spec fn bytes(self) -> Seq<u8> {
        self.data@
    }

    /// How many bytes have been read.
    pub closed spec fn consumed(self) -> nat {
        if self.pos <= self.data@.len() {
            self.pos as nat
        } else {
            self.data@.len()
        }
    }

    /// The bytes not read yet.
    pub open spec fn rest(self) -> Seq<u8> {
        self.bytes().skip(self.consumed() as int)
    }

    /// Facts that hold of every cursor.
    pub proof fn lemma_bounds(self)
        ensures
            self.consumed() <= self.bytes().len(),
            self.rest().len() == self.bytes().len() - self.consumed(),
    {
    }

    /// A cursor at the start of `data`.
    pub fn new(data: &'a [u8]) -> (c: Cursor<'a>)
        ensures
            c.bytes() == data@,
            c.consumed() == 0,
    {
        Cursor { data, pos: 0 }
    }

    /// How many bytes have been read.
    pub fn position(&self) -> (r: usize)
        ensures
            r == self.consumed(),
    {
        proof {
            use_type_invariant(self);
        }
        self.pos
    }

    /// How many bytes are left to read.
    pub fn remaining(&self) -> (r: usize)
        ensures
            r == self.rest().len(),
    {
        proof {
            use_type_invariant(self);
        }
        self.data.len() - self.pos
    }

    /// Whether any byte is left to read.
    pub fn has_remaining(&self) -> (r: bool)
        ensures
            r == (self.rest().len() > 0),
    {
        self.remaining() > 0
    }
}

/// Where `c` first occurs in `s` at or after `from`; the length of `s` if nowhere.
pub open spec fn scan(s: Seq<u8>, from: int, c: u8) -> int
    decreases s.len() - from,
{
    if from < 0 || from >= s.len() {
        s.len() as int
    } else if s[from] == c {
        from
    } else {
        scan(s, from + 1, c)
    }
}

/// `scan` returns the one index at which `c` stands with no `c` before it.
pub proof fn lemma_scan(s: Seq<u8>, from: int, c: u8)
    requires
        0 <= from <= s.len(),
    ensures
        from <= scan(s, from, c) <= s.len(),
        scan(s, from, c) < s.len() ==> s[scan(s, from, c)] == c,
        forall|j: int| from <= j < scan(s, from, c) ==> s[j] != c,
    decreases s.len() - from,
{
    if from < s.len() && s[from] != c {
        lemma_scan(s, from + 1, c);
    }
}

/// Any index with the two properties of `lemma_scan` is what `scan` returns.
pub proof fn lemma_scan_unique(s: Seq<u8>, from: int, c: u8, i: int)
    requires
        0 <= from <= i <= s.len(),
        i < s.len() ==> s[i] == c,
        forall|j: int| from <= j < i ==> s[j] != c,
    ensures
        scan(s, from, c) == i,
    decreases s.len() - from,
{
    if from < i {
        lemma_scan_unique(s, from + 1, c, i);
    }
}

/// A scan of the bytes after `from` finds what a scan of all bytes from
/// `from` finds.
pub proof fn lemma_scan_skip(s: Seq<u8>, from: int, c: u8)
    requires
        0 <= from <= s.len(),
    ensures
        scan(s.skip(from), 0, c) + from == scan(s, from, c),
{
    lemma_scan(s.skip(from), 0, c);
    let i = scan(s.skip(from), 0, c) + from;
    assert forall|j: int| from <= j < i implies s[j] != c by {
        assert(s.skip(from)[j - from] == s[j]);
    }
    if i < s.len() {
        assert(s.skip(from)[i - from] == s[i]);
    }
    lemma_scan_unique(s, from, c, i);
}

impl<'a> Cursor<'a> {
    /// The next `n` bytes, without reading them.
    pub(crate) fn peek(&self, n: usize) -> (r: &'a [u8])
        requires
            n <= self.rest().len(),
        ensures
            r@ == self.rest().subrange(0, n as int),
    {
        proof {
            use_type_invariant(self);
        }
        let len: usize = self.data.len();
        assert(self.pos + n <= len);
        slice_subrange(self.data, self.pos, self.pos + n)
    }

    /// Reads `n` bytes without looking at them.
    pub(crate) fn advance(&mut self, n: usize)
        requires
            n <= old(self).rest().len(),
        ensures
            final(self).bytes() == old(self).bytes(),
            final(self).consumed() == old(self).consumed() + n,
    {
        proof {
            use_type_invariant(&*self);
        }
        let len: usize = self.data.len();
        assert(self.pos + n <= len);
        self.pos = self.pos + n;
    }

    /// How far ahead `c` first stands in the unread bytes; their count if nowhere.
    pub fn find(&self, c: u8) -> (r: usize)
        ensures
            r == scan(self.rest(), 0, c),
            r <= self.rest().len(),
    {
        proof {
            use_type_invariant(self);
        }
        let n: usize = self.data.len() - self.pos;
        let mut i: usize = 0;
        while i < n && self.data[self.pos + i] != c
            invariant
                self.pos + n == self.data@.len(),
                self.data@.len() <= usize::MAX,
                i <= n,
                self.rest() == self.data@.skip(self.pos as int),
                forall|j: int| 0 <= j < i ==> self.rest()[j] != c,
            decreases n - i,
        {
            i = i + 1;
        }
        proof {
            lemma_scan_unique(self.rest(), 0, c, i as int);
        }
        i
    }
}

/// Reads one byte. Fails with `Incomplete`, leaving the cursor where it was,
/// when none is left.
pub fn get_u8(src: &mut Cursor) -> (r: Result<u8, Error>)
    ensures
        final(src).bytes() == old(src).bytes(),
        old(src).rest().len() >= 1 ==> r == Ok::<u8, Error>(old(src).rest()[0])
            && final(src).consumed() == old(src).consumed() + 1,
        old(src).rest().len() < 1 ==> r == Err::<u8, Error>(Error::Incomplete)
            && final(src).consumed() == old(src).consumed(),
{
    proof {
        use_type_invariant(&*src);
    }
    if src.remaining() < 1 {
        return Err(Error::Incomplete);
    }
    let v: u8 = buf_get_u8(slice_subrange(src.data, src.pos, src.data.len()));
    src.pos = src.pos + 1;
    Ok(v)
}

/// Reads a big-endian 16-bit number. Fails with `Incomplete`, leaving the
/// cursor where it was, when fewer than two bytes are left.
pub fn get_u16(src: &mut Cursor) -> (r: Result<u16, Error>)
    ensures
        final(src).bytes() == old(src).bytes(),
        old(src).rest().len() >= 2 ==> r == Ok::<u16, Error>(
            be_value(old(src).rest().subrange(0, 2)) as u16,
        ) && be_value(old(src).rest().subrange(0, 2)) <= u16::MAX && final(src).consumed()
            == old(src).consumed() + 2,
        old(src).rest().len() < 2 ==> r == Err::<u16, Error>(Error::Incomplete)
            && final(src).consumed() == old(src).consumed(),
{
    proof {
        use_type_invariant(&*src);
    }
    if src.remaining() < 2 {
        return Err(Error::Incomplete);
    }
    let v: u16 = buf_get_u16(slice_subrange(src.data, src.pos, src.data.len()));
    src.pos = src.pos + 2;
    Ok(v)
}

/// Reads a big-endian 32-bit number. Fails with `Incomplete`, leaving the
/// cursor where it was, when fewer than four bytes are left.
pub fn get_u32(src: &mut Cursor) -> (r: Result<u32, Error>)
    ensures
        final(src).bytes() == old(src).bytes(),
        old(src).rest().len() >= 4 ==> r == Ok::<u32, Error>(
            be_value(old(src).rest().subrange(0, 4)) as u32,
        ) && be_value(old(src).rest().subrange(0, 4)) <= u32::MAX && final(src).consumed()
            == old(src).consumed() + 4,
        old(src).rest().len() < 4 ==> r == Err::<u32, Error>(Error::Incomplete)
            && final(src).consumed() == old(src).consumed(),
{
    proof {
        use_type_invariant(&*src);
    }
    if src.remaining() < 4 {
        return Err(Error::Incomplete);
    }
    let v: u32 = buf_get_u32(slice_subrange(src.data, src.pos, src.data.len()));
    src.pos = src.pos + 4;
    Ok(v)
}

/// Reads a big-endian 128-bit number. Fails with `Incomplete`, leaving the
/// cursor where it was, when fewer than sixteen bytes are left.
pub fn get_u128(src: &mut Cursor) -> (r: Result<u128, Error>)
    ensures
        final(src).bytes() == old(src).bytes(),
        old(src).rest().len() >= 16 ==> r == Ok::<u128, Error>(
            be_value(old(src).rest().subrange(0, 16)) as u128,
        ) && be_value(old(src).rest().subrange(0, 16)) <= u128::MAX && final(src).consumed()
            == old(src).consumed() + 16,
        old(src).rest().len() < 16 ==> r == Err::<u128, Error>(Error::Incomplete)
            && final(src).consumed() == old(src).consumed(),
{
    proof {
        use_type_invariant(&*src);
    }
    if src.remaining() < 16 {
        return Err(Error::Incomplete);
    }
    let v: u128 = buf_get_u128(slice_subrange(src.data, src.pos, src.data.len()));
    src.pos = src.pos + 16;
    Ok(v)
}

/// Reads `n` bytes. Fails with `Incomplete`, leaving the cursor where it
/// was, when fewer are left.
pub fn get_n_bytes(src: &mut Cursor, n: usize) -> (r: Result<Vec<u8>, Error>)
    ensures
        final(src).bytes() == old(src).bytes(),
        old(src).rest().len() >= n ==> r is Ok && r->Ok_0@ == old(src).rest().subrange(0, n as int)
            && final(src).consumed() == old(src).consumed() + n,
        old(src).rest().len() < n ==> r == Err::<Vec<u8>, Error>(Error::Incomplete)
            && final(src).consumed() == old(src).consumed(),
{
    if src.remaining() < n {
        return Err(Error::Incomplete);
    }
    let out: Vec<u8> = vstd::slice::slice_to_vec(src.peek(n));
    src.advance(n);
    Ok(out)
}

/// How many bytes a read up to the first `c` takes: those up to and
/// including that `c`, or all of `s` where it holds none.
pub open spec fn until_len(s: Seq<u8>, c: u8) -> int {
    if scan(s, 0, c) < s.len() {
        scan(s, 0, c) + 1
    } else {
        s.len() as int
    }
}

/// What a read up to the first `c` gives. The field that it reads ends
/// with a zero byte: what was taken, without its last byte, where that
/// byte is zero; `Incomplete` where it is not, or where nothing was taken.
pub open spec fn until_of(s: Seq<u8>, c: u8) -> Result<Seq<u8>, Error> {
    let n = until_len(s, c);
    if n == 0 || s[n - 1] != 0 {
        Err(Error::Incomplete)
    } else {
        Ok(s.subrange(0, n - 1))
    }
}

/// Reads up to and including the first `c`, or to the end of the buffer
/// where there is none, and returns what it has read without its last
/// byte if that byte is zero. Any other read is `Incomplete`, and the
/// cursor stays behind what was read. With `c` zero this is a field that
/// a zero byte ends.
pub fn get_until(src: &mut Cursor, c: u8) -> (r: Result<Vec<u8>, Error>)
    ensures
        final(src).bytes() == old(src).bytes(),
        final(src).consumed() == old(src).consumed() + until_len(old(src).rest(), c),
        match r {
            Ok(v) => until_of(old(src).rest(), c) == Ok::<Seq<u8>, Error>(v@),
            Err(e) => until_of(old(src).rest(), c) == Err::<Seq<u8>, Error>(e),
        },
{
    let at: usize = src.find(c);
    let left: usize = src.remaining();
    let taken: usize = if at < left {
        at + 1
    } else {
        left
    };
    if taken == 0 {
        return Err(Error::Incomplete);
    }
    let chunk = src.peek(taken);
    let last: u8 = chunk[taken - 1];
    let out: Vec<u8> = vstd::slice::slice_to_vec(slice_subrange(chunk, 0, taken - 1));
    assert(out@ =~= src.rest().subrange(0, taken - 1));
    src.advance(taken);
    if last == 0 {
        Ok(out)
    } else {
        Err(Error::Incomplete)
    }
}

} // verus!
