//! One direction of the copy between a client and its destination.
//!
//! Once the handshake is over, bytes are copied both ways. Each direction
//! is a `HalfCopy` of its own: what is read on one socket is written to the
//! other, and when the reading ends, the other socket is shut down for
//! writing. The two directions know nothing of each other, so one may end
//! while the other goes on.

use vstd::prelude::*;

verus! {

/// What a read on the source socket gave.
#[derive(Debug)]
pub enum Copied {
    /// Some bytes.
    Data(Vec<u8>),
    /// The end of the stream, or a failure.
    End,
}

/// What a `Copied` holds, as mathematical values.
pub enum CopiedView {
    Data(Seq<u8>),
    End,
}

impl View for Copied {
    type V = CopiedView;

    open spec fn view(&self) -> CopiedView {
        match self {
            Copied::Data(d) => CopiedView::Data(d@),
            Copied::End => CopiedView::End,
        }
    }
}

/// What is to be done on the target socket.
#[derive(Debug, PartialEq, Eq)]
pub enum Relay {
    /// Write these bytes.
    Write(Vec<u8>),
    /// Shut the socket down for writing.
    Shutdown,
    /// Nothing: this direction has ended before.
    Idle,
}

/// What a `Relay` holds, as mathematical values.
pub enum RelayView {
    Write(Seq<u8>),
    Shutdown,
    Idle,
}

impl View for Relay {
    type V = RelayView;

    open spec fn view(&self) -> RelayView {
        match self {
            Relay::Write(d) => RelayView::Write(d@),
            Relay::Shutdown => RelayView::Shutdown,
            Relay::Idle => RelayView::Idle,
        }
    }
}

/// What one read leads to: whether the direction is open afterwards, and
/// what is to be done.
pub open spec fn relay(open: bool, got: CopiedView) -> (bool, RelayView) {
    if !open {
        (false, RelayView::Idle)
    } else {
        match got {
            CopiedView::Data(d) => (true, RelayView::Write(d)),
            CopiedView::End => (false, RelayView::Shutdown),
        }
    }
}

/// Whether a direction that starts open is open after a run of reads.
pub open spec fn open_after(reads: Seq<CopiedView>) -> bool
    decreases reads.len(),
{
    if reads.len() == 0 {
        true
    } else {
        relay(open_after(reads.drop_last()), reads.last()).0
    }
}

/// What a run of reads leads to, read by read, in a direction that starts open.
pub open spec fn relays(reads: Seq<CopiedView>) -> Seq<RelayView>
    decreases reads.len(),
{
    if reads.len() == 0 {
        Seq::empty()
    } else {
        relays(reads.drop_last()).push(relay(open_after(reads.drop_last()), reads.last()).1)
    }
}

/// The bytes that a run of reads gave before the stream ended.
pub open spec fn taken(reads: Seq<CopiedView>) -> Seq<u8>
    decreases reads.len(),
{
    if reads.len() == 0 {
        Seq::empty()
    } else if !open_after(reads.drop_last()) {
        taken(reads.drop_last())
    } else {
        match reads.last() {
            CopiedView::Data(d) => taken(reads.drop_last()) + d,
            CopiedView::End => taken(reads.drop_last()),
        }
    }
}

/// The bytes that a run of actions writes, in order.
pub open spec fn given(actions: Seq<RelayView>) -> Seq<u8>
    decreases actions.len(),
{
    if actions.len() == 0 {
        Seq::empty()
    } else {
        match actions.last() {
            RelayView::Write(d) => given(actions.drop_last()) + d,
            _ => given(actions.drop_last()),
        }
    }
}

/// How many times a run of actions shuts the target down.
pub open spec fn shutdowns(actions: Seq<RelayView>) -> nat
    decreases actions.len(),
{
    if actions.len() == 0 {
        0
    } else if actions.last() is Shutdown {
        shutdowns(actions.drop_last()) + 1
    } else {
        shutdowns(actions.drop_last())
    }
}

/// Whether a run of reads holds the end of the stream.
pub open spec fn ended(reads: Seq<CopiedView>) -> bool {
    exists|i: int| 0 <= i < reads.len() && reads[i] is End
}

/// Half-close: the target is written exactly the bytes that the source
/// gave before its end, in their order; it is shut down once, when the
/// source ends, and not before; and after that nothing is done to it.
pub proof fn lemma_half_close(reads: Seq<CopiedView>)
    ensures
        relays(reads).len() == reads.len(),
        given(relays(reads)) == taken(reads),
        open_after(reads) == !ended(reads),
        shutdowns(relays(reads)) == (if ended(reads) {
            1nat
        } else {
            0nat
        }),
        forall|i: int, j: int|
            0 <= i < j < reads.len() && (#[trigger] relays(reads)[i]) is Shutdown
                ==> (#[trigger] relays(reads)[j]) is Idle,
        forall|i: int|
            0 <= i < reads.len() && (#[trigger] relays(reads)[i]) is Write ==> !ended(
                reads.subrange(0, i + 1),
            ),
    decreases reads.len(),
{
    if reads.len() > 0 {
        let head = reads.drop_last();
        lemma_half_close(head);
        let out = relays(reads);
        assert(out.drop_last() =~= relays(head));
        if ended(head) {
            let w = choose|i: int| 0 <= i < head.len() && head[i] is End;
            assert(reads[w] is End);
        }
        if reads.last() is End {
            assert(reads[reads.len() - 1] is End);
        }
        if ended(reads) && !ended(head) {
            let w = choose|i: int| 0 <= i < reads.len() && reads[i] is End;
            if w < head.len() {
                assert(head[w] is End);
            }
        }
        assert forall|i: int, j: int|
            0 <= i < j < reads.len() && (#[trigger] out[i]) is Shutdown implies (#[trigger] out[j])
            is Idle by {
            assert(out[i] == relays(head)[i]);
            if j < head.len() {
                assert(out[j] == relays(head)[j]);
            } else {
                lemma_shutdown_closes(head, i);
            }
        }
        assert forall|i: int| 0 <= i < reads.len() && (#[trigger] out[i]) is Write implies !ended(
            reads.subrange(0, i + 1),
        ) by {
            if i < head.len() {
                assert(out[i] == relays(head)[i]);
                assert(reads.subrange(0, i + 1) =~= head.subrange(0, i + 1));
            } else {
                assert(reads.subrange(0, i + 1) =~= reads);
            }
        }
    }
}

/// A direction that has been shut down is closed.
proof fn lemma_shutdown_closes(reads: Seq<CopiedView>, i: int)
    requires
        0 <= i < reads.len(),
        relays(reads).len() == reads.len(),
        relays(reads)[i] is Shutdown,
    ensures
        !open_after(reads),
    decreases reads.len(),
{
    let head = reads.drop_last();
    assert(relays(reads).drop_last() =~= relays(head));
    if i < head.len() {
        assert(relays(reads)[i] == relays(head)[i]);
        lemma_relays_len(head);
        lemma_shutdown_closes(head, i);
    }
}

/// Every read leads to one action.
pub proof fn lemma_relays_len(reads: Seq<CopiedView>)
    ensures
        relays(reads).len() == reads.len(),
    decreases reads.len(),
{
    if reads.len() > 0 {
        lemma_relays_len(reads.drop_last());
    }
}

/// One direction of a copy.
pub struct HalfCopy {
    open: bool,
}

impl HalfCopy {
    /// Whether the direction still copies.
    pub closed spec fn is_open(&self) -> bool {
        self.open
    }

    /// A direction that copies.
    pub fn new() -> (r: HalfCopy)
        ensures
            r.is_open(),
    {
        HalfCopy { open: true }
    }

    /// Whether the direction still copies.
    pub fn open(&self) -> (r: bool)
        ensures
            r == self.is_open(),
    {
        self.open
    }

    /// Takes what a read on the source gave and says what to do on the target.
    pub fn step(&mut self, got: Copied) -> (r: Relay)
        ensures
            (final(self).is_open(), r@) == relay(old(self).is_open(), got@),
    {
        if !self.open {
            return Relay::Idle;
        }
        match got {
            Copied::Data(bytes) => Relay::Write(bytes),
            Copied::End => {
                self.open = false;
                Relay::Shutdown
            },
        }
    }
}

} // verus!
