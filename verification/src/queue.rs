//! The ingest queue: a bounded FIFO handoff between the request handlers and
//! the single report writer.
//!
//! The capacity is the admission-control policy: a full queue is not an
//! error, it is the signal on which a producer must suspend and try again
//! once the writer has drained an item. A closed queue (the consuming side
//! is permanently gone) is fatal to producers: there is no silent drop path.

use vstd::prelude::*;
use crate::model::Report;

verus! {

/// What became of an enqueue attempt. `Full` and `Closed` hand the report
/// back to the caller: on `Full` the caller suspends and retries, on
/// `Closed` the caller must treat the pipeline as dead.
pub enum EnqueueResult {
    /// The report was appended to the queue.
    Accepted,
    /// The queue holds `capacity` items; nothing was changed.
    Full(Report),
    /// The consumer is gone; nothing was changed.
    Closed(Report),
}

/// A bounded FIFO queue of reports with a single consumer.
pub struct IngestQueue {
    items: Vec<Report>,
    capacity: usize,
    closed: bool,
}

impl IngestQueue {
    /// The queued reports, oldest first.
    pub closed spec fn contents(&self) -> Seq<Report> {
        self.items@
    }

    /// The fixed capacity chosen at construction.
    pub closed spec fn cap(&self) -> int {
        self.capacity as int
    }

    /// Whether the consuming side has permanently stopped.
    pub closed spec fn is_closed(&self) -> bool {
        self.closed
    }

    /// Well-formedness: the queue never holds more than its capacity, and
    /// the capacity is at least one.
    pub closed spec fn inv(&self) -> bool {
        self.items@.len() <= self.capacity && self.capacity >= 1
    }

    /// A fresh open queue of the given capacity.
    pub fn new(capacity: usize) -> (q: IngestQueue)
        requires
            capacity >= 1,
        ensures
            q.inv(),
            q.contents() == Seq::<Report>::empty(),
            q.cap() == capacity,
            !q.is_closed(),
    {
        IngestQueue { items: Vec::new(), capacity, closed: false }
    }

    /// Number of reports currently queued.
    pub fn len(&self) -> (n: usize)
        ensures
            n == self.contents().len(),
    {
        self.items.len()
    }

    /// The capacity chosen at construction.
    pub fn capacity(&self) -> (c: usize)
        ensures
            c == self.cap(),
    {
        self.capacity
    }

    /// Attempts to append a report.
    ///
    /// On a closed queue nothing changes and the report comes back as
    /// `Closed`. On a full queue nothing changes and the report comes back
    /// as `Full` — the backpressure signal. Otherwise the report is
    /// appended behind every earlier one: FIFO order is never disturbed.
    pub fn try_enqueue(&mut self, r: Report) -> (res: EnqueueResult)
        requires
            old(self).inv(),
        ensures
            final(self).inv(),
            final(self).cap() == old(self).cap(),
            final(self).is_closed() == old(self).is_closed(),
            match res {
                EnqueueResult::Accepted => !old(self).is_closed() && old(self).contents().len()
                    < old(self).cap() && final(self).contents() == old(self).contents().push(r),
                EnqueueResult::Full(back) => !old(self).is_closed() && old(
                    self,
                ).contents().len() == old(self).cap() && final(self).contents() == old(
                    self,
                ).contents() && back == r,
                EnqueueResult::Closed(back) => old(self).is_closed() && final(self).contents()
                    == old(self).contents() && back == r,
            },
    {
        if self.closed {
            EnqueueResult::Closed(r)
        } else if self.items.len() == self.capacity {
            EnqueueResult::Full(r)
        } else {
            self.items.push(r);
            EnqueueResult::Accepted
        }
    }

    /// Removes and returns the oldest queued report, or `None` on an empty
    /// queue (on which the consumer suspends until a producer adds one, or
    /// stops once the queue is also closed).
    pub fn dequeue(&mut self) -> (res: Option<Report>)
        requires
            old(self).inv(),
        ensures
            final(self).inv(),
            final(self).cap() == old(self).cap(),
            final(self).is_closed() == old(self).is_closed(),
            match res {
                Some(r) => old(self).contents().len() > 0 && r == old(self).contents().first()
                    && final(self).contents() == old(self).contents().drop_first(),
                None => old(self).contents().len() == 0 && final(self).contents() == old(
                    self,
                ).contents(),
            },
    {
        if self.items.len() == 0 {
            None
        } else {
            let r = self.items.remove(0);
            proof {
                assert(self.items@ =~= old(self).contents().drop_first());
            }
            Some(r)
        }
    }

    /// Whether the queue has been closed.
    pub fn check_closed(&self) -> (b: bool)
        ensures
            b == self.is_closed(),
    {
        self.closed
    }

    /// Marks the queue closed: every later enqueue attempt fails fatally.
    pub fn close(&mut self)
        requires
            old(self).inv(),
        ensures
            final(self).inv(),
            final(self).cap() == old(self).cap(),
            final(self).contents() == old(self).contents(),
            final(self).is_closed(),
    {
        self.closed = true;
    }
}

} // verus!
