//! Bounded FIFO queue of samples: the handoff between the capture context,
//! the processing loop, and the playback context. Overflow rejects the new
//! sample instead of overwriting; underflow reports "no data" instead of
//! blocking.

use vstd::prelude::*;

verus! {

/// Fixed-capacity first-in-first-out queue of Q15 samples.
pub struct RingBuffer {
    buf: Vec<i32>,
    capacity: usize,
}

impl RingBuffer {
    /// The queued samples, oldest first.
    pub closed spec fn contents(self) -> Seq<i32> {
        self.buf@
    }

    /// The fixed capacity chosen at construction.
    pub closed spec fn cap(self) -> int {
        self.capacity as int
    }

    /// The queue never holds more than its capacity.
    pub closed spec fn wf(self) -> bool {
        self.buf@.len() <= self.capacity
    }

    /// An empty queue of the given capacity.
    pub fn new(capacity: usize) -> (r: RingBuffer)
        ensures
            r.wf(),
            r.cap() == capacity as int,
            r.contents() == Seq::<i32>::empty(),
    {
        RingBuffer { buf: Vec::new(), capacity }
    }

    /// A queue of capacity twice the latency, pre-filled with one latency's
    /// worth of zero samples. The pre-fill decouples the producing and
    /// consuming clocks by a fixed propagation delay of silence.
    pub fn with_latency(latency: usize) -> (r: RingBuffer)
        requires
            latency <= usize::MAX / 2,
        ensures
            r.wf(),
            r.cap() == 2 * latency as int,
            r.contents().len() == latency as int,
            forall|i: int| 0 <= i < r.contents().len() ==> r.contents()[i] == 0i32,
    {
        let mut buf: Vec<i32> = Vec::new();
        let mut i: usize = 0;
        while i < latency
            invariant
                i <= latency,
                buf@.len() == i as int,
                forall|j: int| 0 <= j < buf@.len() ==> buf@[j] == 0i32,
            decreases latency - i,
        {
            buf.push(0);
            i += 1;
        }
        RingBuffer { buf, capacity: 2 * latency }
    }

    /// Number of queued samples.
    pub fn len(&self) -> (r: usize)
        ensures
            r as int == self.contents().len(),
    {
        self.buf.len()
    }

    /// Whether the queue holds no samples.
    pub fn is_empty(&self) -> (r: bool)
        ensures
            r == (self.contents().len() == 0),
    {
        self.buf.len() == 0
    }

    /// Append a sample at the back. A full queue rejects the sample and is
    /// left exactly as it was; it never blocks and never overwrites.
    pub fn push(&mut self, x: i32) -> (r: bool)
        requires
            old(self).wf(),
        ensures
            final(self).wf(),
            final(self).cap() == old(self).cap(),
            old(self).contents().len() < old(self).cap() ==> r && final(self).contents()
                == old(self).contents().push(x),
            old(self).contents().len() >= old(self).cap() ==> !r && final(self).contents()
                == old(self).contents(),
    {
        if self.buf.len() < self.capacity {
            self.buf.push(x);
            true
        } else {
            false
        }
    }

    /// Remove and return the oldest sample; an empty queue reports "no
    /// data" and is left unchanged, without blocking.
    pub fn try_pop(&mut self) -> (r: Option<i32>)
        requires
            old(self).wf(),
        ensures
            final(self).wf(),
            final(self).cap() == old(self).cap(),
            old(self).contents().len() == 0 ==> r is None && final(self).contents()
                == old(self).contents(),
            old(self).contents().len() > 0 ==> r == Some(old(self).contents()[0])
                && final(self).contents() == old(self).contents().drop_first(),
    {
        if self.buf.len() == 0 {
            None
        } else {
            let v = self.buf.remove(0);
            proof {
                assert(self.contents() =~= old(self).contents().drop_first());
            }
            Some(v)
        }
    }
}

/// One operation of the queue discipline, at the level of the model:
/// `push` appends a sample, `try_pop` removes the oldest one. The
/// contracts of `RingBuffer::push` and `RingBuffer::try_pop` realize
/// exactly these transitions on `contents()` whenever the queue is not
/// full, respectively not empty.
pub enum QueueOp {
    Push(i32),
    Pop,
}

/// The queued samples after running `ops` from the initial contents
/// `init`. A pop of an empty queue changes nothing, as `try_pop` does.
pub open spec fn queue_after(init: Seq<i32>, ops: Seq<QueueOp>) -> Seq<i32>
    decreases ops.len(),
{
    if ops.len() == 0 {
        init
    } else {
        let prev = queue_after(init, ops.drop_last());
        match ops.last() {
            QueueOp::Push(v) => prev.push(v),
            QueueOp::Pop => if prev.len() > 0 {
                prev.drop_first()
            } else {
                prev
            },
        }
    }
}

/// The samples popped while running `ops` from `init`, in pop order.
pub open spec fn popped_values(init: Seq<i32>, ops: Seq<QueueOp>) -> Seq<i32>
    decreases ops.len(),
{
    if ops.len() == 0 {
        Seq::empty()
    } else {
        let prevq = queue_after(init, ops.drop_last());
        let prevp = popped_values(init, ops.drop_last());
        match ops.last() {
            QueueOp::Push(_) => prevp,
            QueueOp::Pop => if prevq.len() > 0 {
                prevp.push(prevq.first())
            } else {
                prevp
            },
        }
    }
}

/// The samples pushed by `ops`, in push order.
pub open spec fn pushed_values(ops: Seq<QueueOp>) -> Seq<i32>
    decreases ops.len(),
{
    if ops.len() == 0 {
        Seq::empty()
    } else {
        match ops.last() {
            QueueOp::Push(v) => pushed_values(ops.drop_last()).push(v),
            QueueOp::Pop => pushed_values(ops.drop_last()),
        }
    }
}

/// First-in-first-out order: under any interleaving of pushes and pops,
/// the popped samples followed by the samples still queued are exactly
/// the initial contents followed by the pushed samples — popped order
/// equals pushed order, and queued samples are never corrupted.
pub proof fn lemma_fifo_order(init: Seq<i32>, ops: Seq<QueueOp>)
    ensures
        popped_values(init, ops) + queue_after(init, ops) == init + pushed_values(ops),
    decreases ops.len(),
{
    if ops.len() == 0 {
        assert(popped_values(init, ops) + queue_after(init, ops) =~= init + pushed_values(ops));
    } else {
        lemma_fifo_order(init, ops.drop_last());
        let prevq = queue_after(init, ops.drop_last());
        let prevp = popped_values(init, ops.drop_last());
        match ops.last() {
            QueueOp::Push(v) => {
                assert(prevp + prevq.push(v) =~= (prevp + prevq).push(v));
                assert((init + pushed_values(ops.drop_last())).push(v) =~= init + pushed_values(
                    ops.drop_last(),
                ).push(v));
            },
            QueueOp::Pop => {
                if prevq.len() > 0 {
                    assert(prevp.push(prevq.first()) + prevq.drop_first() =~= prevp + prevq);
                }
            },
        }
    }
}

} // verus!
