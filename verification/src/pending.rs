//! The pending-items buffer.
//!
//! A process-wide ordered sequence of accepted paths that absorbs batches
//! arriving before the UI has attached its listener.  The host shell owns
//! one [`PendingBuffer`] behind a mutual-exclusion lock and calls
//! [`PendingBuffer::append`] and [`PendingBuffer::drain_all`] inside short
//! critical sections; because the two operations are atomic with respect
//! to each other, any concurrent history is equivalent to some sequence of
//! [`BufferOp`] steps.  Every buffer carries that history as a ghost
//! record; by type invariant its contents are exactly what the history
//! leaves behind, as each operation's contract restates, and over any
//! history the no-loss, no-duplication law
//! [`lemma_no_loss_no_duplicate`] holds.

use vstd::prelude::*;

verus! {

/// One atomic step of the buffer's history: one `append` of a batch, or
/// one `drain_all`.
pub enum BufferOp {
    Append(Seq<Seq<char>>),
    Drain,
}

/// The buffer contents after a history of operations, starting empty.
pub open spec fn buffer_after(ops: Seq<BufferOp>) -> Seq<Seq<char>>
    decreases ops.len(),
{
    if ops.len() == 0 {
        Seq::empty()
    } else {
        match ops.last() {
            BufferOp::Append(batch) => buffer_after(ops.drop_last()) + batch,
            BufferOp::Drain => Seq::empty(),
        }
    }
}

/// Everything returned by the drains of a history, concatenated in drain
/// order, each drain contributing exactly the contents it observed.
pub open spec fn drained(ops: Seq<BufferOp>) -> Seq<Seq<char>>
    decreases ops.len(),
{
    if ops.len() == 0 {
        Seq::empty()
    } else {
        match ops.last() {
            BufferOp::Append(batch) => drained(ops.drop_last()),
            BufferOp::Drain => drained(ops.drop_last()) + buffer_after(ops.drop_last()),
        }
    }
}

/// Everything appended over a history, concatenated in append order.
pub open spec fn appended(ops: Seq<BufferOp>) -> Seq<Seq<char>>
    decreases ops.len(),
{
    if ops.len() == 0 {
        Seq::empty()
    } else {
        match ops.last() {
            BufferOp::Append(batch) => appended(ops.drop_last()) + batch,
            BufferOp::Drain => appended(ops.drop_last()),
        }
    }
}

/// The buffer of accepted paths not yet pulled by the UI.  Its view is the
/// ordered sequence of buffered path strings; alongside it rides the ghost
/// history of every operation performed on it since its creation.
pub struct PendingBuffer {
    items: Vec<String>,
    history: Ghost<Seq<BufferOp>>,
}

impl View for PendingBuffer {
    type V = Seq<Seq<char>>;

    closed spec fn view(&self) -> Seq<Seq<char>> {
        self.items.deep_view()
    }
}

impl PendingBuffer {
    /// The history of appends and drains this buffer has seen, oldest
    /// first.
    pub closed spec fn history(&self) -> Seq<BufferOp> {
        self.history@
    }

    #[verifier::type_invariant]
    spec fn contents_match_history(self) -> bool {
        buffer_after(self.history@) == self.items.deep_view()
    }

    /// A freshly created buffer holds nothing and has seen nothing.
    pub fn new() -> (b: Self)
        ensures
            b@ == Seq::<Seq<char>>::empty(),
            b.history() == Seq::<BufferOp>::empty(),
            buffer_after(b.history()) == b@,
    {
        let items: Vec<String> = Vec::new();
        proof {
            assert(items.deep_view() =~= buffer_after(Seq::<BufferOp>::empty()));
        }
        PendingBuffer { items, history: Ghost(Seq::empty()) }
    }

    /// Extends the buffer with one accepted batch, in the batch's order,
    /// after everything already buffered.
    pub fn append(&mut self, batch: Vec<String>)
        ensures
            final(self)@ == old(self)@ + batch.deep_view(),
            final(self).history() == old(self).history().push(
                BufferOp::Append(batch.deep_view()),
            ),
            buffer_after(final(self).history()) == final(self)@,
            buffer_after(old(self).history()) == old(self)@,
    {
        proof {
            use_type_invariant(&*self);
        }
        let ghost incoming = batch.deep_view();
        let empty_items: Vec<String> = Vec::new();
        proof {
            assert(empty_items.deep_view() =~= buffer_after(Seq::<BufferOp>::empty()));
        }
        let mut taken = PendingBuffer { items: empty_items, history: Ghost(Seq::empty()) };
        core::mem::swap(&mut taken, self);
        let PendingBuffer { items: mut items, history: past } = taken;
        let mut incoming_vec = batch;
        items.append(&mut incoming_vec);
        let ghost extended = past@.push(BufferOp::Append(incoming));
        proof {
            assert(extended.drop_last() =~= past@);
            assert(buffer_after(extended) == buffer_after(past@) + incoming);
            assert(items.deep_view() =~= buffer_after(past@) + incoming);
        }
        *self = PendingBuffer { items, history: Ghost(extended) };
    }

    /// Atomically returns the full current contents, in order, and leaves
    /// the buffer empty.  Nothing is lost and nothing can be returned a
    /// second time: the drained sequence is exactly what was buffered.
    pub fn drain_all(&mut self) -> (drained: Vec<String>)
        ensures
            drained.deep_view() == old(self)@,
            final(self)@ == Seq::<Seq<char>>::empty(),
            final(self).history() == old(self).history().push(BufferOp::Drain),
            buffer_after(final(self).history()) == final(self)@,
            buffer_after(old(self).history()) == old(self)@,
    {
        proof {
            use_type_invariant(&*self);
        }
        let empty_items: Vec<String> = Vec::new();
        proof {
            assert(empty_items.deep_view() =~= buffer_after(Seq::<BufferOp>::empty()));
        }
        let mut taken = PendingBuffer { items: empty_items, history: Ghost(Seq::empty()) };
        core::mem::swap(&mut taken, self);
        let PendingBuffer { items: drained_items, history: past } = taken;
        let ghost extended = past@.push(BufferOp::Drain);
        let left: Vec<String> = Vec::new();
        proof {
            assert(left.deep_view() =~= buffer_after(extended));
        }
        *self = PendingBuffer { items: left, history: Ghost(extended) };
        drained_items
    }

    /// The number of buffered paths.
    pub fn len(&self) -> (n: usize)
        ensures
            n == self@.len(),
    {
        self.items.len()
    }

    /// Whether the buffer currently holds nothing.
    pub fn is_empty(&self) -> (r: bool)
        ensures
            r == (self@.len() == 0),
    {
        self.items.len() == 0
    }
}

/// No loss, no duplication: over any history of appends interleaved with
/// drains, what the drains returned followed by what is still buffered is
/// exactly what was appended, item for item and in order.  Every appended
/// item is attributed to exactly one drain or to the final buffer
/// contents.
pub proof fn lemma_no_loss_no_duplicate(ops: Seq<BufferOp>)
    ensures
        drained(ops) + buffer_after(ops) == appended(ops),
    decreases ops.len(),
{
    if ops.len() == 0 {
        assert(drained(ops) + buffer_after(ops) =~= appended(ops));
    } else {
        lemma_no_loss_no_duplicate(ops.drop_last());
        match ops.last() {
            BufferOp::Append(batch) => {
                assert(drained(ops) + buffer_after(ops) =~= appended(ops));
            },
            BufferOp::Drain => {
                assert(drained(ops) + buffer_after(ops) =~= appended(ops));
            },
        }
    }
}

/// An empty drain is idempotent: after any history ending in a drain the
/// buffer is empty, and a second drain with nothing appended in between
/// returns nothing new.
pub proof fn lemma_idempotent_empty_drain(ops: Seq<BufferOp>)
    ensures
        buffer_after(ops.push(BufferOp::Drain)) == Seq::<Seq<char>>::empty(),
        drained(ops.push(BufferOp::Drain).push(BufferOp::Drain)) == drained(
            ops.push(BufferOp::Drain),
        ),
{
    let once = ops.push(BufferOp::Drain);
    let twice = once.push(BufferOp::Drain);
    assert(twice.drop_last() =~= once);
    assert(buffer_after(once) == Seq::<Seq<char>>::empty());
    assert(drained(twice) =~= drained(once) + buffer_after(once));
    assert(drained(once) + Seq::<Seq<char>>::empty() =~= drained(once));
}

} // verus!
