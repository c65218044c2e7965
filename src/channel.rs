use vstd::prelude::*;

verus! {

/// What became of a record handed to a bounded queue.
#[derive(Debug, Clone, Copy, PartialEq, Eq, Structural)]
pub enum EnqueueOutcome {
    Accepted,
    DroppedOverflow,
}

/// The abstract state of a bounded queue.
pub struct QueueModel {
    /// Queued records, oldest first.
    pub items: Seq<Seq<char>>,
    pub capacity: nat,
    /// Number of records refused so far (it stops growing at `u64::MAX`).
    pub dropped: nat,
    /// Set once shutdown has begun: from then on every record is refused.
    pub closed: bool,
}

/// A counter increment that stops at the largest `u64`.
pub open spec fn bump(n: nat) -> nat {
    if n < u64::MAX {
        n + 1
    } else {
        n
    }
}

/// The queue takes a record when it is open and has room.
pub open spec fn has_room(m: QueueModel) -> bool {
    !m.closed && m.items.len() < m.capacity
}

/// Enqueueing one record: appended at the back when there is room, else
/// dropped and counted.
pub open spec fn enqueue_model(m: QueueModel, r: Seq<char>) -> QueueModel {
    if has_room(m) {
        QueueModel { items: m.items.push(r), ..m }
    } else {
        QueueModel { dropped: bump(m.dropped), ..m }
    }
}

/// Enqueueing each record of `rs` in turn.
pub open spec fn enqueue_all_model(m: QueueModel, rs: Seq<Seq<char>>) -> QueueModel
    decreases rs.len(),
{
    if rs.len() == 0 {
        m
    } else {
        enqueue_model(enqueue_all_model(m, rs.drop_last()), rs.last())
    }
}

/// How many of `n` records an open queue with `free` free slots refuses.
pub open spec fn refused(n: nat, free: nat) -> nat {
    if n <= free {
        0
    } else {
        (n - free) as nat
    }
}

/// Bounded FIFO between the threads that produce records and the one worker
/// that writes them out. Producers never wait: a record that finds no room
/// is dropped and counted.
pub struct BoundedQueue {
    pub items: Vec<String>,
    pub capacity: usize,
    pub dropped: u64,
    pub closed: bool,
}

impl BoundedQueue {
    pub open spec fn model(&self) -> QueueModel {
        QueueModel {
            items: self.items@.map_values(|s: String| s@),
            capacity: self.capacity as nat,
            dropped: self.dropped as nat,
            closed: self.closed,
        }
    }

    pub open spec fn wf(&self) -> bool {
        self.items@.len() <= self.capacity
    }

    /// An empty, open queue holding at most `capacity` records.
    pub fn new(capacity: usize) -> (q: BoundedQueue)
        ensures
            q.wf(),
            q.model() == (QueueModel { items: Seq::empty(), capacity: capacity as nat, dropped: 0, closed: false }),
    {
        let q = BoundedQueue { items: Vec::new(), capacity, dropped: 0, closed: false };
        assert(q.model().items =~= Seq::<Seq<char>>::empty());
        q
    }

    /// Hands a record to the queue without waiting.
    pub fn enqueue(&mut self, record: String) -> (outcome: EnqueueOutcome)
        requires
            old(self).wf(),
        ensures
            final(self).wf(),
            final(self).model() == enqueue_model(old(self).model(), record@),
            outcome == if has_room(old(self).model()) {
                EnqueueOutcome::Accepted
            } else {
                EnqueueOutcome::DroppedOverflow
            },
    {
        if !self.closed && self.items.len() < self.capacity {
            self.items.push(record);
            assert(self.items@.map_values(|s: String| s@) =~= old(self).model().items.push(record@));
            EnqueueOutcome::Accepted
        } else {
            if self.dropped < u64::MAX {
                self.dropped = self.dropped + 1;
            }
            EnqueueOutcome::DroppedOverflow
        }
    }

    /// Takes the oldest queued record, if any.
    pub fn pop_front(&mut self) -> (r: Option<String>)
        requires
            old(self).wf(),
        ensures
            final(self).wf(),
            old(self).items@.len() == 0 ==> r is None && final(self).model() == old(self).model(),
            old(self).items@.len() > 0 ==> {
                &&& r matches Some(s) && s@ == old(self).model().items[0]
                &&& final(self).model() == (QueueModel { items: old(self).model().items.drop_first(), ..old(self).model() })
            },
    {
        if self.items.len() == 0 {
            None
        } else {
            let s = self.items.remove(0);
            assert(self.items@.map_values(|s: String| s@) =~= old(self).model().items.drop_first());
            Some(s)
        }
    }

    /// Stops accepting records and hands back everything still queued, in
    /// arrival order; the queue is left empty and closed.
    pub fn shutdown(&mut self) -> (rest: Vec<String>)
        requires
            old(self).wf(),
        ensures
            final(self).wf(),
            rest@.map_values(|s: String| s@) == old(self).model().items,
            final(self).model() == (QueueModel { items: Seq::empty(), closed: true, ..old(self).model() }),
    {
        self.closed = true;
        let rest = self.items.split_off(0);
        assert(self.items@.map_values(|s: String| s@) =~= Seq::<Seq<char>>::empty());
        assert(rest@.map_values(|s: String| s@) =~= old(self).model().items);
        rest
    }
}

/// Overflow is counted exactly: enqueueing `rs` on an open queue keeps the
/// first records that fit, in order, and adds to the drop counter exactly the
/// number of records that did not fit (on a closed queue, all of them).
pub proof fn lemma_drops_counted(m: QueueModel, rs: Seq<Seq<char>>)
    requires
        m.items.len() <= m.capacity,
        m.dropped + rs.len() <= u64::MAX,
    ensures
        ({
            let free = if m.closed { 0 } else { (m.capacity - m.items.len()) as nat };
            let kept = rs.len() - refused(rs.len(), free);
            let after = enqueue_all_model(m, rs);
            &&& after.dropped == m.dropped + refused(rs.len(), free)
            &&& after.items == m.items + rs.take(kept)
            &&& after.capacity == m.capacity
            &&& after.closed == m.closed
        }),
    decreases rs.len(),
{
    if rs.len() > 0 {
        lemma_drops_counted(m, rs.drop_last());
        let free = if m.closed { 0 } else { (m.capacity - m.items.len()) as nat };
        let pre = rs.drop_last();
        let kept = rs.len() - refused(rs.len(), free);
        let kept_pre = pre.len() - refused(pre.len(), free);
        if pre.len() < free {
            assert(rs.take(kept) =~= rs.take(kept_pre).push(rs.last()));
            assert(rs.take(kept_pre) =~= pre.take(kept_pre));
        } else {
            assert(rs.take(kept) =~= pre.take(kept_pre));
        }
    } else {
        assert(rs.take(0) =~= Seq::<Seq<char>>::empty());
        assert(m.items + Seq::<Seq<char>>::empty() =~= m.items);
    }
}

/// A counter increase by `k` that stops at the largest `u64`.
pub open spec fn bump_by(n: nat, k: nat) -> nat {
    if n + k <= u64::MAX {
        n + k
    } else {
        u64::MAX as nat
    }
}

impl BoundedQueue {
    /// Shutdown with a bounded flush: stops accepting records, hands back
    /// the oldest `budget` queued records in order, and discards the rest,
    /// adding them to the drop counter.
    pub fn shutdown_within(&mut self, budget: usize) -> (flushed: Vec<String>)
        requires
            old(self).wf(),
        ensures
            final(self).wf(),
            ({
                let items = old(self).model().items;
                let kept = if budget < items.len() { budget as int } else { items.len() as int };
                &&& flushed@.map_values(|s: String| s@) == items.take(kept)
                &&& final(self).model() == (QueueModel {
                    items: Seq::empty(),
                    closed: true,
                    dropped: bump_by(old(self).dropped as nat, (items.len() - kept) as nat),
                    ..old(self).model()
                })
            }),
    {
        let mut flushed = self.shutdown();
        if budget < flushed.len() {
            let discarded = flushed.split_off(budget);
            let n = discarded.len() as u64;
            if self.dropped <= u64::MAX - n {
                self.dropped = self.dropped + n;
            } else {
                self.dropped = u64::MAX;
            }
        }
        proof {
            let items = old(self).model().items;
            let kept = if budget < items.len() { budget as int } else { items.len() as int };
            assert(flushed@.map_values(|s: String| s@) =~= items.take(kept));
        }
        flushed
    }
}

} // verus!
