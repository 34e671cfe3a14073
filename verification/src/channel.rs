//! The durable multi-reader event channel: a growable log of events with
//! one index cursor per registered reader. The producer appends; each
//! reader drains everything appended since its own last drain, so no event
//! is double-consumed or dropped, and readers never disturb one another.

use vstd::prelude::*;

verus! {

/// A reader's handle into an [`EventChannel`]: the index of its cursor.
#[derive(Clone, Copy, PartialEq, Eq, Structural, Debug)]
pub struct ReaderId {
    /// Index of this reader's cursor in the channel.
    pub index: usize,
}

/// A growable event log with independent per-reader cursors.
pub struct EventChannel<T> {
    /// Every event ever written, in write order.
    pub events: Vec<T>,
    /// One cursor per registered reader: the log index from which that
    /// reader has not yet drained.
    pub cursors: Vec<usize>,
}

impl<T: Copy> EventChannel<T> {
    /// A channel is well formed when every cursor lies within the log.
    pub open spec fn wf(self) -> bool {
        forall|i: int| 0 <= i < self.cursors@.len() ==> self.cursors@[i] <= self.events@.len()
    }

    /// True when `r` names a registered reader.
    pub open spec fn reader_valid(self, r: ReaderId) -> bool {
        r.index < self.cursors@.len()
    }

    /// The events `r` would drain now: everything from its cursor to the
    /// end of the log.
    pub open spec fn pending(self, r: ReaderId) -> Seq<T> {
        self.events@.subrange(self.cursors@[r.index as int] as int, self.events@.len() as int)
    }

    /// An empty channel with no readers.
    pub fn new() -> (r: EventChannel<T>)
        ensures
            r.events@ =~= Seq::<T>::empty(),
            r.cursors@ =~= Seq::<usize>::empty(),
            r.wf(),
    {
        EventChannel { events: Vec::new(), cursors: Vec::new() }
    }

    /// Register a new reader. Its cursor starts at the end of the log, so
    /// it observes exactly the events written after registration.
    pub fn register_reader(&mut self) -> (r: ReaderId)
        requires
            old(self).wf(),
        ensures
            final(self).wf(),
            final(self).events@ == old(self).events@,
            final(self).cursors@ == old(self).cursors@.push(old(self).events@.len() as usize),
            r.index == old(self).cursors@.len(),
            final(self).reader_valid(r),
            final(self).pending(r) =~= Seq::<T>::empty(),
    {
        let index = self.cursors.len();
        let end = self.events.len();
        self.cursors.push(end);
        ReaderId { index }
    }

    /// Append one event to the log. No cursor moves, so the event becomes
    /// pending for every reader.
    pub fn single_write(&mut self, event: T)
        requires
            old(self).wf(),
        ensures
            final(self).wf(),
            final(self).events@ == old(self).events@.push(event),
            final(self).cursors@ == old(self).cursors@,
            forall|r: ReaderId| old(self).reader_valid(r) ==> final(self).pending(r)
                =~= old(self).pending(r).push(event),
    {
        self.events.push(event);
        proof {
            assert forall|r: ReaderId| old(self).reader_valid(r) implies final(self).pending(r)
                =~= old(self).pending(r).push(event) by {
                assert(final(self).pending(r) =~= old(self).pending(r).push(event));
            }
        }
    }

    /// Drain for reader `r`: return every event appended since `r`'s last
    /// drain (in write order) and advance `r`'s cursor to the end of the
    /// log. No other cursor and no event is touched.
    pub fn read(&mut self, r: ReaderId) -> (drained: Vec<T>)
        requires
            old(self).wf(),
            old(self).reader_valid(r),
        ensures
            final(self).wf(),
            final(self).events@ == old(self).events@,
            final(self).cursors@ == old(self).cursors@.update(
                r.index as int,
                old(self).events@.len() as usize,
            ),
            drained@ == old(self).pending(r),
            final(self).pending(r) =~= Seq::<T>::empty(),
            forall|q: ReaderId| old(self).reader_valid(q) && q.index != r.index
                ==> final(self).pending(q) == old(self).pending(q),
    {
        let from = self.cursors[r.index];
        let end = self.events.len();
        let mut drained: Vec<T> = Vec::new();
        let mut i = from;
        while i < end
            invariant
                from <= i <= end,
                end == self.events@.len(),
                from == old(self).cursors@[r.index as int],
                *self == *old(self),
                drained@ =~= self.events@.subrange(from as int, i as int),
            decreases end - i,
        {
            drained.push(self.events[i]);
            proof {
                assert(drained@ =~= self.events@.subrange(from as int, i + 1 as int));
            }
            i = i + 1;
        }
        self.cursors.set(r.index, end);
        drained
    }
}

/// Law of reader-cursor isolation: two independent readers registered on
/// the same channel each observe every event exactly once, whatever the
/// order of their drains. Starting from a channel where both have drained
/// everything, after a batch of events is appended both readers have
/// exactly that batch pending, and one reader draining (which empties only
/// its own pending sequence) leaves the other reader's pending sequence
/// untouched.
pub proof fn lemma_reader_isolation<T: Copy>(
    ch: EventChannel<T>,
    batch: Seq<T>,
    appended: EventChannel<T>,
    r1: ReaderId,
    r2: ReaderId,
)
    requires
        ch.wf(),
        ch.reader_valid(r1),
        ch.reader_valid(r2),
        r1.index != r2.index,
        ch.pending(r1) == Seq::<T>::empty(),
        ch.pending(r2) == Seq::<T>::empty(),
        appended.events@ == ch.events@ + batch,
        appended.cursors@ == ch.cursors@,
        appended.events@.len() <= usize::MAX,
    ensures
        appended.pending(r1) =~= batch,
        appended.pending(r2) =~= batch,
        forall|after: EventChannel<T>|
            after.events@ == appended.events@ && after.cursors@ == appended.cursors@.update(
                r1.index as int,
                appended.events@.len() as usize,
            ) ==> #[trigger] after.pending(r2) =~= batch && after.pending(r1) =~= Seq::<T>::empty(),
{
    assert(ch.cursors@[r1.index as int] == ch.events@.len()) by {
        assert(ch.pending(r1).len() == 0);
    }
    assert(ch.cursors@[r2.index as int] == ch.events@.len()) by {
        assert(ch.pending(r2).len() == 0);
    }
    assert forall|after: EventChannel<T>|
        after.events@ == appended.events@ && after.cursors@ == appended.cursors@.update(
            r1.index as int,
            appended.events@.len() as usize,
        ) implies #[trigger] after.pending(r2) =~= batch && after.pending(r1) =~= Seq::<
        T,
    >::empty() by {
        assert(after.cursors@[r2.index as int] == ch.cursors@[r2.index as int]);
        assert(after.cursors@[r1.index as int] == appended.events@.len());
        assert(after.pending(r2) =~= batch);
        assert(after.pending(r1) =~= Seq::<T>::empty());
    }
}

} // verus!
