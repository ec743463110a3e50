//! The bounded work queue between the log reader and the pipeline driver,
//! and the batcher that groups entries up to a size threshold. The queue
//! gives backpressure: a full queue refuses the producer's item — handing it
//! back untouched, so nothing is lost — until the consumer dequeues.

use vstd::prelude::*;

verus! {

/// What the queue answers a producer.
pub enum Enqueue<T> {
    /// The item was appended; the producer may go on.
    Accepted,
    /// The queue is at capacity; the item comes back and the producer must
    /// suspend until the consumer dequeues.
    Full(T),
}

/// A FIFO queue of fixed capacity between one producer and one consumer.
pub struct WorkQueue<T> {
    items: Vec<T>,
    capacity: usize,
}

impl<T> View for WorkQueue<T> {
    type V = Seq<T>;

    closed spec fn view(&self) -> Seq<T> {
        self.items@
    }
}

impl<T> WorkQueue<T> {
    /// The fixed capacity the queue was built with.
    pub closed spec fn cap(&self) -> usize {
        self.capacity
    }

    /// The queue never holds more than its capacity.
    pub closed spec fn wf(&self) -> bool {
        self.capacity >= 1 && self.items@.len() <= self.capacity
    }

    /// An empty queue of the given capacity.
    pub fn new(capacity: usize) -> (q: WorkQueue<T>)
        requires
            capacity >= 1,
        ensures
            q.wf(),
            q.cap() == capacity,
            q@ == Seq::<T>::empty(),
    {
        let q = WorkQueue { items: Vec::new(), capacity };
        proof {
            assert(q@ =~= Seq::<T>::empty());
        }
        q
    }

    /// How many items wait in the queue.
    pub fn len(&self) -> (r: usize)
        ensures
            r == self@.len(),
    {
        self.items.len()
    }

    /// Whether the queue is at capacity, so that an enqueue would be
    /// refused.
    pub fn is_full(&self) -> (r: bool)
        ensures
            r == (self@.len() == self.cap()),
    {
        self.items.len() == self.capacity
    }

    /// Offers one item. Below capacity it is appended at the tail; at
    /// capacity it is handed back unchanged and the queue keeps exactly what
    /// it held — backpressure without loss.
    pub fn push(&mut self, x: T) -> (r: Enqueue<T>)
        requires
            old(self).wf(),
        ensures
            final(self).wf(),
            final(self).cap() == old(self).cap(),
            if old(self)@.len() < old(self).cap() {
                final(self)@ == old(self)@.push(x) && (r is Accepted)
            } else {
                final(self)@ == old(self)@ && (r matches Enqueue::Full(y) && y == x)
            },
    {
        if self.items.len() < self.capacity {
            self.items.push(x);
            Enqueue::Accepted
        } else {
            Enqueue::Full(x)
        }
    }

    /// Takes the oldest item, or nothing from an empty queue. After a pop
    /// the queue is below capacity, so a suspended producer's next offer is
    /// accepted.
    pub fn pop(&mut self) -> (r: Option<T>)
        requires
            old(self).wf(),
        ensures
            final(self).wf(),
            final(self).cap() == old(self).cap(),
            match r {
                Some(x) => old(self)@.len() > 0 && x == old(self)@.first() && final(self)@ == old(self)@.drop_first() && final(self)@.len() < final(self).cap(),
                None => old(self)@.len() == 0 && final(self)@ == old(self)@,
            },
    {
        if self.items.len() == 0 {
            None
        } else {
            let x = self.items.remove(0);
            proof {
                assert(self.items@ =~= old(self).items@.drop_first());
            }
            Some(x)
        }
    }
}

/// Accumulates entries and emits a batch exactly when the size threshold is
/// reached, bounding both memory and the granularity of the downstream
/// atomic commit.
pub struct Batcher<T> {
    buf: Vec<T>,
    limit: usize,
}

impl<T> View for Batcher<T> {
    type V = Seq<T>;

    closed spec fn view(&self) -> Seq<T> {
        self.buf@
    }
}

impl<T> Batcher<T> {
    /// The batch size threshold.
    pub closed spec fn limit(&self) -> usize {
        self.limit
    }

    /// The buffer always stays below the threshold: reaching it emits.
    pub closed spec fn wf(&self) -> bool {
        self.limit >= 1 && self.buf@.len() < self.limit
    }

    /// An empty batcher with the given threshold.
    pub fn new(limit: usize) -> (b: Batcher<T>)
        requires
            limit >= 1,
        ensures
            b.wf(),
            b.limit() == limit,
            b@ == Seq::<T>::empty(),
    {
        let b = Batcher { buf: Vec::new(), limit };
        proof {
            assert(b@ =~= Seq::<T>::empty());
        }
        b
    }

    /// Adds one entry. When the buffer reaches the threshold, the full batch
    /// comes out in arrival order and the buffer starts over; otherwise the
    /// entry is kept.
    pub fn add(&mut self, x: T) -> (r: Option<Vec<T>>)
        requires
            old(self).wf(),
        ensures
            final(self).wf(),
            final(self).limit() == old(self).limit(),
            match r {
                Some(batch) => {
                    &&& old(self)@.len() + 1 == old(self).limit()
                    &&& batch@ == old(self)@.push(x)
                    &&& final(self)@ == Seq::<T>::empty()
                },
                None => {
                    &&& old(self)@.len() + 1 < old(self).limit()
                    &&& final(self)@ == old(self)@.push(x)
                },
            },
    {
        self.buf.push(x);
        if self.buf.len() == self.limit {
            let mut out: Vec<T> = Vec::new();
            core::mem::swap(&mut out, &mut self.buf);
            proof {
                assert(self.buf@ =~= Seq::<T>::empty());
            }
            Some(out)
        } else {
            None
        }
    }

    /// Hands out whatever the buffer holds, leaving the batcher empty; for a
    /// producer that wants to flush a final partial batch.
    pub fn take(&mut self) -> (r: Vec<T>)
        requires
            old(self).wf(),
        ensures
            final(self).wf(),
            final(self).limit() == old(self).limit(),
            r@ == old(self)@,
            final(self)@ == Seq::<T>::empty(),
    {
        let mut out: Vec<T> = Vec::new();
        core::mem::swap(&mut out, &mut self.buf);
        out
    }
}

} // verus!
