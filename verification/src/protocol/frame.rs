//! The frame reader: reads on a cursor that keep a record of every byte they take.

use vstd::prelude::*;
use vstd::slice::slice_to_vec;
use crate::error::Error;
use crate::protocol::cursor::{be_value, get_u128, get_u16, get_u32, get_u8, scan, Cursor};

verus! {

/// The carriage return that ends a line.
pub const CR: u8 = 13;

/// The line feed that follows it.
pub const LF: u8 = 10;

/// A read took the next `n` bytes: the cursor moved past them and `after`
/// is `before` with those bytes behind it.
pub open spec fn took(old_src: Cursor, new_src: Cursor, before: Seq<u8>, after: Seq<u8>, n: int) -> bool {
    &&& 0 <= n <= old_src.rest().len()
    &&& new_src.bytes() == old_src.bytes()
    &&& new_src.consumed() == old_src.consumed() + n
    &&& after == before + old_src.rest().subrange(0, n)
}

/// A read took nothing: cursor and record are as they were.
pub open spec fn kept(old_src: Cursor, new_src: Cursor, before: Seq<u8>, after: Seq<u8>) -> bool {
    &&& new_src.bytes() == old_src.bytes()
    &&& new_src.consumed() == old_src.consumed()
    &&& after == before
}

/// What reading a line from `s` gives: the bytes before the first carriage
/// return, if a line feed follows it.
pub open spec fn line_of(s: Seq<u8>) -> Result<Seq<u8>, Error> {
    let cr = scan(s, 0, CR);
    if cr + 1 >= s.len() {
        Err(Error::Incomplete)
    } else if s[cr + 1] != LF {
        Err(Error::BrokenLine)
    } else {
        Ok(s.subrange(0, cr))
    }
}

/// Where a reader stands that started at `start` with the record `r0`
/// and has taken `k` bytes since: the cursor is `k` bytes further, and
/// the record holds those `k` bytes behind what it held.
pub open spec fn stands(src: Cursor, record: Seq<u8>, start: Cursor, r0: Seq<u8>, k: int) -> bool {
    &&& 0 <= k <= start.rest().len()
    &&& src.bytes() == start.bytes()
    &&& src.consumed() == start.consumed() + k
    &&& record == r0 + start.rest().subrange(0, k)
}

/// A reader that has taken `k` bytes has the bytes after them before it.
pub proof fn lemma_stands(src: Cursor, record: Seq<u8>, start: Cursor, r0: Seq<u8>, k: int)
    requires
        stands(src, record, start, r0, k),
    ensures
        src.rest() == start.rest().skip(k),
        src.rest().len() == start.rest().len() - k,
{
    start.lemma_bounds();
    src.lemma_bounds();
    assert(src.rest() =~= start.rest().skip(k));
}

/// After a read that took `n` bytes, a reader that had taken `k` has
/// taken `k + n`, and what the read took is that stretch of the bytes
/// the reader started at.
pub proof fn lemma_took(
    start: Cursor,
    r0: Seq<u8>,
    k: int,
    old_src: Cursor,
    new_src: Cursor,
    before: Seq<u8>,
    after: Seq<u8>,
    n: int,
)
    requires
        stands(old_src, before, start, r0, k),
        took(old_src, new_src, before, after, n),
    ensures
        stands(new_src, after, start, r0, k + n),
        new_src.rest() == start.rest().skip(k + n),
        old_src.rest().subrange(0, n) == start.rest().subrange(k, k + n),
        forall|i: int| 0 <= i < n ==> old_src.rest()[i] == start.rest()[k + i],
{
    lemma_stands(old_src, before, start, r0, k);
    start.lemma_bounds();
    old_src.lemma_bounds();
    new_src.lemma_bounds();
    let s = start.rest();
    assert(old_src.rest().subrange(0, n) =~= s.subrange(k, k + n));
    assert(after =~= r0 + s.subrange(0, k + n));
    assert(new_src.rest() =~= s.skip(k + n));
}

/// A reader that stood `k` bytes from its start and has taken `m` more
/// stands `k + m` bytes from its start.
pub proof fn lemma_stands_on(
    start: Cursor,
    r0: Seq<u8>,
    k: int,
    mid: Cursor,
    held: Seq<u8>,
    src: Cursor,
    record: Seq<u8>,
    m: int,
)
    requires
        stands(mid, held, start, r0, k),
        stands(src, record, mid, held, m),
    ensures
        stands(src, record, start, r0, k + m),
        src.rest() == start.rest().skip(k + m),
        mid.rest() == start.rest().skip(k),
{
    lemma_stands(mid, held, start, r0, k);
    lemma_stands(src, record, mid, held, m);
    start.lemma_bounds();
    let s = start.rest();
    assert(s.subrange(0, k) + s.skip(k).subrange(0, m) =~= s.subrange(0, k + m));
    assert(record =~= r0 + s.subrange(0, k + m));
    assert(src.rest() =~= s.skip(k + m));
}

/// Reads bytes from a cursor and records, in order, every byte it has taken.
pub struct BufReader {
    buffer: Vec<u8>,
}

impl View for BufReader {
    type V = Seq<u8>;

    /// The bytes taken so far.
    closed spec fn view(&self) -> Seq<u8> {
        self.buffer@
    }
}

impl BufReader {
    /// A reader that has taken nothing. `size` is the room set aside for the record.
    pub fn with_capacity(size: usize) -> (r: BufReader)
        ensures
            r@ == Seq::<u8>::empty(),
    {
        BufReader { buffer: Vec::with_capacity(size) }
    }

    /// The bytes taken so far.
    pub fn into_inner(self) -> (r: Vec<u8>)
        ensures
            r@ == self@,
    {
        self.buffer
    }

    /// Takes the next `n` bytes, which the caller knows to be there.
    fn record(&mut self, src: &mut Cursor, n: usize) -> (r: Vec<u8>)
        requires
            n <= old(src).rest().len(),
        ensures
            took(*old(src), *final(src), old(self)@, final(self)@, n as int),
            r@ == old(src).rest().subrange(0, n as int),
    {
        let chunk = src.peek(n);
        self.buffer.extend_from_slice(chunk);
        src.advance(n);
        assert(self.buffer@ =~= old(self).buffer@ + chunk@);
        slice_to_vec(chunk)
    }

    /// Takes one byte; `Incomplete` if none is left.
    pub fn get_u8(&mut self, src: &mut Cursor) -> (r: Result<u8, Error>)
        ensures
            match r {
                Ok(v) => took(*old(src), *final(src), old(self)@, final(self)@, 1)
                    && v == old(src).rest()[0],
                Err(e) => e == Error::Incomplete && old(src).rest().len() < 1
                    && kept(*old(src), *final(src), old(self)@, final(self)@),
            },
    {
        if src.remaining() < 1 {
            return Err(Error::Incomplete);
        }
        let chunk = src.peek(1);
        self.buffer.extend_from_slice(chunk);
        assert(self.buffer@ =~= old(self).buffer@ + chunk@);
        get_u8(src)
    }

    /// Takes a big-endian 16-bit number; `Incomplete` if fewer than two bytes are left.
    pub fn get_u16(&mut self, src: &mut Cursor) -> (r: Result<u16, Error>)
        ensures
            match r {
                Ok(v) => took(*old(src), *final(src), old(self)@, final(self)@, 2)
                    && v == be_value(old(src).rest().subrange(0, 2)),
                Err(e) => e == Error::Incomplete && old(src).rest().len() < 2
                    && kept(*old(src), *final(src), old(self)@, final(self)@),
            },
    {
        if src.remaining() < 2 {
            return Err(Error::Incomplete);
        }
        let chunk = src.peek(2);
        self.buffer.extend_from_slice(chunk);
        assert(self.buffer@ =~= old(self).buffer@ + chunk@);
        get_u16(src)
    }

    /// Takes a big-endian 32-bit number; `Incomplete` if fewer than four bytes are left.
    pub fn get_u32(&mut self, src: &mut Cursor) -> (r: Result<u32, Error>)
        ensures
            match r {
                Ok(v) => took(*old(src), *final(src), old(self)@, final(self)@, 4)
                    && v == be_value(old(src).rest().subrange(0, 4)),
                Err(e) => e == Error::Incomplete && old(src).rest().len() < 4
                    && kept(*old(src), *final(src), old(self)@, final(self)@),
            },
    {
        if src.remaining() < 4 {
            return Err(Error::Incomplete);
        }
        let chunk = src.peek(4);
        self.buffer.extend_from_slice(chunk);
        assert(self.buffer@ =~= old(self).buffer@ + chunk@);
        get_u32(src)
    }

    /// Takes a big-endian 128-bit number; `Incomplete` if fewer than sixteen
    /// bytes are left.
    pub fn get_u128(&mut self, src: &mut Cursor) -> (r: Result<u128, Error>)
        ensures
            match r {
                Ok(v) => took(*old(src), *final(src), old(self)@, final(self)@, 16)
                    && v == be_value(old(src).rest().subrange(0, 16)),
                Err(e) => e == Error::Incomplete && old(src).rest().len() < 16
                    && kept(*old(src), *final(src), old(self)@, final(self)@),
            },
    {
        if src.remaining() < 16 {
            return Err(Error::Incomplete);
        }
        let chunk = src.peek(16);
        self.buffer.extend_from_slice(chunk);
        assert(self.buffer@ =~= old(self).buffer@ + chunk@);
        get_u128(src)
    }

    /// Takes the next `n` bytes; `Incomplete` if fewer are left.
    pub fn get_n_bytes(&mut self, src: &mut Cursor, n: usize) -> (r: Result<Vec<u8>, Error>)
        ensures
            match r {
                Ok(v) => took(*old(src), *final(src), old(self)@, final(self)@, n as int)
                    && v@ == old(src).rest().subrange(0, n as int),
                Err(e) => e == Error::Incomplete && old(src).rest().len() < n
                    && kept(*old(src), *final(src), old(self)@, final(self)@),
            },
    {
        if src.remaining() < n {
            return Err(Error::Incomplete);
        }
        Ok(self.record(src, n))
    }

    /// Takes the bytes up to and including the first `c`; `Incomplete` if
    /// no `c` is among the bytes left.
    pub fn get_until(&mut self, src: &mut Cursor, c: u8) -> (r: Result<Vec<u8>, Error>)
        ensures
            match r {
                Ok(v) => scan(old(src).rest(), 0, c) < old(src).rest().len() && took(
                    *old(src),
                    *final(src),
                    old(self)@,
                    final(self)@,
                    scan(old(src).rest(), 0, c) + 1,
                ) && v@ == old(src).rest().subrange(0, scan(old(src).rest(), 0, c) + 1),
                Err(e) => e == Error::Incomplete && scan(old(src).rest(), 0, c) == old(
                    src,
                ).rest().len() && kept(*old(src), *final(src), old(self)@, final(self)@),
            },
    {
        let at: usize = src.find(c);
        if at >= src.remaining() {
            return Err(Error::Incomplete);
        }
        Ok(self.record(src, at + 1))
    }

    /// Takes one line and the carriage return and line feed that end it, and
    /// returns the line without them. `Incomplete` if the line's end has not
    /// arrived; `BrokenLine` if the carriage return is followed by another byte.
    pub fn get_line(&mut self, src: &mut Cursor) -> (r: Result<Vec<u8>, Error>)
        ensures
            match r {
                Ok(v) => line_of(old(src).rest()) == Ok::<Seq<u8>, Error>(v@) && took(
                    *old(src),
                    *final(src),
                    old(self)@,
                    final(self)@,
                    v@.len() as int + 2,
                ),
                Err(e) => line_of(old(src).rest()) == Err::<Seq<u8>, Error>(e) && kept(
                    *old(src),
                    *final(src),
                    old(self)@,
                    final(self)@,
                ),
            },
    {
        let at: usize = src.find(CR);
        let left: usize = src.remaining();
        if left < 2 || at >= left - 1 {
            return Err(Error::Incomplete);
        }
        let head = src.peek(at + 2);
        if head[at + 1] != LF {
            return Err(Error::BrokenLine);
        }
        let line: Vec<u8> = slice_to_vec(src.peek(at));
        let _ = self.record(src, at + 2);
        Ok(line)
    }
}

} // verus!
