//! The bounded byte channel: an ordered, single-producer/single-consumer
//! queue of bytes with a fixed capacity and an explicit close signal.
//! Capacity is the backpressure mechanism: a full queue rejects further
//! bytes until the consumer drains some.

use vstd::prelude::*;

verus! {

/// Why an enqueue was rejected.
#[derive(Clone, Copy, PartialEq, Eq, Structural, Debug)]
pub enum EnqueueError {
    /// The queue is at capacity; retry after the consumer drains it.
    Full,
    /// The producer side has been closed; terminal.
    Closed,
}

/// What one dequeue attempt observed.
#[derive(Clone, Copy, PartialEq, Eq, Structural, Debug)]
pub enum Dequeue {
    /// The oldest queued byte.
    Ready(u8),
    /// Nothing queued and the producer side is closed: end of stream.
    End,
    /// Nothing queued but the producer side is still open; retry later.
    Pending,
}

/// Model of a byte channel: the queued bytes in arrival order, the fixed
/// capacity, and whether the producer side has closed.
pub ghost struct ChannelModel {
    pub pending: Seq<u8>,
    pub cap: nat,
    pub closed: bool,
}

impl ChannelModel {
    /// The queue never outgrows its capacity, and the capacity is positive.
    pub open spec fn wf(self) -> bool {
        self.pending.len() <= self.cap && self.cap >= 1
    }

    /// An empty, open channel of capacity `cap`.
    pub open spec fn empty(cap: nat) -> ChannelModel {
        ChannelModel { pending: Seq::empty(), cap, closed: false }
    }

    /// Whether the queue is at capacity.
    pub open spec fn is_full(self) -> bool {
        self.pending.len() == self.cap
    }

    /// An enqueue succeeds exactly when there is room and the producer
    /// side is open.
    pub open spec fn enqueue_ok(self) -> bool {
        !self.is_full() && !self.closed
    }

    /// The error a failing enqueue reports: `Full` takes precedence.
    pub open spec fn enqueue_err(self) -> EnqueueError {
        if self.is_full() {
            EnqueueError::Full
        } else {
            EnqueueError::Closed
        }
    }

    /// The channel after an enqueue attempt of `byte`.
    pub open spec fn after_enqueue(self, byte: u8) -> ChannelModel {
        if self.enqueue_ok() {
            ChannelModel { pending: self.pending.push(byte), ..self }
        } else {
            self
        }
    }

    /// What a dequeue attempt returns.
    pub open spec fn dequeue_result(self) -> Dequeue {
        if self.pending.len() > 0 {
            Dequeue::Ready(self.pending[0])
        } else if self.closed {
            Dequeue::End
        } else {
            Dequeue::Pending
        }
    }

    /// The channel after a dequeue attempt.
    pub open spec fn after_dequeue(self) -> ChannelModel {
        if self.pending.len() > 0 {
            ChannelModel { pending: self.pending.drop_first(), ..self }
        } else {
            self
        }
    }

    /// The channel after the producer side closes. Queued bytes stay.
    pub open spec fn after_close(self) -> ChannelModel {
        ChannelModel { closed: true, ..self }
    }
}

/// A bounded, ordered byte queue with an explicit close signal.
///
/// Once closed and drained it reports end of stream permanently; it never
/// reverts to `Pending`.
pub struct ByteChannel {
    bytes: Vec<u8>,
    capacity: usize,
    closed: bool,
}

impl View for ByteChannel {
    type V = ChannelModel;

    closed spec fn view(&self) -> ChannelModel {
        ChannelModel { pending: self.bytes@, cap: self.capacity as nat, closed: self.closed }
    }
}

impl ByteChannel {
    /// Creates an empty, open channel of the given capacity.
    pub fn new(capacity: usize) -> (c: ByteChannel)
        requires
            capacity >= 1,
        ensures
            c@ == ChannelModel::empty(capacity as nat),
    {
        ByteChannel { bytes: Vec::new(), capacity, closed: false }
    }

    /// Appends one byte, unless the queue is full (backpressure) or the
    /// producer side is closed.
    pub fn enqueue(&mut self, byte: u8) -> (r: Result<(), EnqueueError>)
        requires
            old(self)@.wf(),
        ensures
            final(self)@.wf(),
            final(self)@ == old(self)@.after_enqueue(byte),
            r == (if old(self)@.enqueue_ok() {
                Ok::<(), EnqueueError>(())
            } else {
                Err::<(), EnqueueError>(old(self)@.enqueue_err())
            }),
    {
        if self.bytes.len() == self.capacity {
            Err(EnqueueError::Full)
        } else if self.closed {
            Err(EnqueueError::Closed)
        } else {
            self.bytes.push(byte);
            Ok(())
        }
    }

    /// Takes the oldest byte, or reports end of stream or that the caller
    /// should retry once the producer has made progress.
    pub fn dequeue(&mut self) -> (r: Dequeue)
        requires
            old(self)@.wf(),
        ensures
            final(self)@.wf(),
            final(self)@ == old(self)@.after_dequeue(),
            r == old(self)@.dequeue_result(),
    {
        if self.bytes.len() > 0 {
            let byte = self.bytes.remove(0);
            proof {
                assert(self.bytes@ =~= old(self).bytes@.drop_first());
            }
            Dequeue::Ready(byte)
        } else if self.closed {
            Dequeue::End
        } else {
            Dequeue::Pending
        }
    }

    /// Closes the producer side. Idempotent; queued bytes stay readable,
    /// and once they drain the consumer observes end of stream.
    pub fn close_write(&mut self)
        requires
            old(self)@.wf(),
        ensures
            final(self)@.wf(),
            final(self)@ == old(self)@.after_close(),
    {
        self.closed = true;
    }

    /// How many bytes are queued.
    pub fn len(&self) -> (n: usize)
        ensures
            n == self@.pending.len(),
    {
        self.bytes.len()
    }

    /// The fixed capacity the channel was created with.
    pub fn capacity(&self) -> (n: usize)
        ensures
            n == self@.cap,
    {
        self.capacity
    }

    /// Whether the producer side has been closed.
    pub fn is_closed(&self) -> (b: bool)
        ensures
            b == self@.closed,
    {
        self.closed
    }
}

} // verus!
