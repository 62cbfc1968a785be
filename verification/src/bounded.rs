//! The bounded, flow-controlled socket pair: two endpoints connected
//! crosswise by capacity-limited byte channels.
//!
//! All shared state lives in one [`BoundedSocket`] pair object; each call
//! names the side it acts for with an [`EndpointId`]. Writes observe
//! backpressure ([`Condition::WouldBlock`]) once the outgoing queue is
//! full, reads never block once they have produced at least one byte, and
//! shutdown closes one direction without affecting the other.

use vstd::prelude::*;

use crate::channel::{ByteChannel, ChannelModel, Dequeue, EnqueueError};
use crate::{min_nat, Condition, EndpointId};

verus! {

/// Model of a bounded pair: one capacity-limited channel per direction,
/// plus whether each side still holds its write handle.
pub ghost struct PairModel {
    pub a_to_b: ChannelModel,
    pub b_to_a: ChannelModel,
    pub a_open: bool,
    pub b_open: bool,
}

impl PairModel {
    /// Both channels respect their (equal) capacity, and a side holds its
    /// write handle exactly while its outgoing channel is open.
    pub open spec fn wf(self) -> bool {
        &&& self.a_to_b.wf()
        &&& self.b_to_a.wf()
        &&& self.a_to_b.cap == self.b_to_a.cap
        &&& self.a_open == !self.a_to_b.closed
        &&& self.b_open == !self.b_to_a.closed
    }

    /// A newly wired pair: both directions empty, open, of capacity `cap`.
    pub open spec fn fresh(cap: nat) -> PairModel {
        PairModel {
            a_to_b: ChannelModel::empty(cap),
            b_to_a: ChannelModel::empty(cap),
            a_open: true,
            b_open: true,
        }
    }

    /// The channel `who` writes into.
    pub open spec fn outgoing(self, who: EndpointId) -> ChannelModel {
        match who {
            EndpointId::A => self.a_to_b,
            EndpointId::B => self.b_to_a,
        }
    }

    /// The channel `who` reads from: the peer's outgoing channel.
    pub open spec fn incoming(self, who: EndpointId) -> ChannelModel {
        self.outgoing(who.peer())
    }

    /// Whether `who` still holds its write handle.
    pub open spec fn write_open(self, who: EndpointId) -> bool {
        match who {
            EndpointId::A => self.a_open,
            EndpointId::B => self.b_open,
        }
    }

    /// The pair with `who`'s outgoing channel replaced.
    pub open spec fn with_outgoing(self, who: EndpointId, c: ChannelModel) -> PairModel {
        match who {
            EndpointId::A => PairModel { a_to_b: c, ..self },
            EndpointId::B => PairModel { b_to_a: c, ..self },
        }
    }

    /// The pair with `who`'s write handle set held or relinquished.
    pub open spec fn with_write_open(self, who: EndpointId, b: bool) -> PairModel {
        match who {
            EndpointId::A => PairModel { a_open: b, ..self },
            EndpointId::B => PairModel { b_open: b, ..self },
        }
    }

    /// Free space in `who`'s outgoing queue.
    pub open spec fn space(self, who: EndpointId) -> nat
        recommends
            self.wf(),
    {
        (self.outgoing(who).cap - self.outgoing(who).pending.len()) as nat
    }

    /// A write succeeds in full exactly when the handle is held and the
    /// data fits into the free space.
    pub open spec fn write_ok(self, who: EndpointId, data: Seq<u8>) -> bool {
        self.write_open(who) && data.len() <= self.space(who)
    }

    /// The condition a failing write reports: a relinquished handle is
    /// broken-pipe; a full queue is would-block.
    pub open spec fn write_err(self, who: EndpointId, data: Seq<u8>) -> Condition {
        if !self.write_open(who) {
            Condition::BrokenPipe
        } else {
            Condition::WouldBlock
        }
    }

    /// The prefix of `data` a write enqueues before succeeding or hitting
    /// backpressure: the write is not atomic, so a failure mid-call still
    /// leaves the earlier bytes delivered to the peer.
    pub open spec fn write_accepted(self, who: EndpointId, data: Seq<u8>) -> Seq<u8> {
        if !self.write_open(who) {
            Seq::empty()
        } else if data.len() <= self.space(who) {
            data
        } else {
            data.take(self.space(who) as int)
        }
    }

    /// The pair after `who` attempts to write `data`.
    pub open spec fn after_write(self, who: EndpointId, data: Seq<u8>) -> PairModel {
        if !self.write_open(who) {
            self
        } else {
            self.with_outgoing(
                who,
                (ChannelModel {
                    pending: self.outgoing(who).pending + self.write_accepted(who, data),
                    ..self.outgoing(who)
                }),
            )
        }
    }

    /// A read into a non-empty buffer blocks exactly when no byte is
    /// available and the peer has not closed.
    pub open spec fn read_blocks(self, who: EndpointId, want: nat) -> bool {
        want > 0 && self.incoming(who).pending.len() == 0 && !self.incoming(who).closed
    }

    /// How many bytes a non-blocking read into a `want`-byte buffer
    /// returns: all that are available, capped by the buffer.
    pub open spec fn read_count(self, who: EndpointId, want: nat) -> nat {
        min_nat(self.incoming(who).pending.len(), want)
    }

    /// The bytes such a read delivers, in arrival order.
    pub open spec fn read_data(self, who: EndpointId, want: nat) -> Seq<u8> {
        self.incoming(who).pending.take(self.read_count(who, want) as int)
    }

    /// The pair after `who` reads into a `want`-byte buffer.
    pub open spec fn after_read(self, who: EndpointId, want: nat) -> PairModel {
        if self.read_count(who, want) == 0 {
            self
        } else {
            self.with_outgoing(
                who.peer(),
                (ChannelModel {
                    pending: self.incoming(who).pending.skip(self.read_count(who, want) as int),
                    ..self.incoming(who)
                }),
            )
        }
    }

    /// The pair after `who` shuts its write side down: the handle is
    /// relinquished and the outgoing channel closed, in one step.
    pub open spec fn after_shutdown(self, who: EndpointId) -> PairModel {
        self.with_write_open(who, false).with_outgoing(who, self.outgoing(who).after_close())
    }
}

/// A bounded duplex pair. One object owns both directions; the two
/// endpoints are addressed through [`EndpointId`].
pub struct BoundedSocket {
    a_to_b: ByteChannel,
    b_to_a: ByteChannel,
    a_open: bool,
    b_open: bool,
}

impl View for BoundedSocket {
    type V = PairModel;

    closed spec fn view(&self) -> PairModel {
        PairModel {
            a_to_b: self.a_to_b@,
            b_to_a: self.b_to_a@,
            a_open: self.a_open,
            b_open: self.b_open,
        }
    }
}

/// Creates a connected pair whose two directions each hold up to `buffer`
/// bytes. A zero capacity is a configuration error.
pub fn bounded(buffer: usize) -> (r: Result<BoundedSocket, Condition>)
    ensures
        (match r {
            Ok(p) => buffer >= 1 && p@ == PairModel::fresh(buffer as nat),
            Err(c) => buffer == 0 && c == Condition::ConfigurationError,
        }),
{
    if buffer == 0 {
        return Err(Condition::ConfigurationError);
    }
    Ok(
        BoundedSocket {
            a_to_b: ByteChannel::new(buffer),
            b_to_a: ByteChannel::new(buffer),
            a_open: true,
            b_open: true,
        },
    )
}

impl BoundedSocket {
    /// Writes `data` for side `who`, one byte at a time, until done or the
    /// outgoing queue is full. A full queue reports `WouldBlock`, but the
    /// bytes enqueued before it filled stay delivered; after shutdown the
    /// call reports `BrokenPipe` and accepts nothing.
    #[verifier::loop_isolation(false)]
    pub fn write(&mut self, who: EndpointId, data: &Vec<u8>) -> (r: Result<usize, Condition>)
        requires
            old(self)@.wf(),
        ensures
            final(self)@.wf(),
            final(self)@ == old(self)@.after_write(who, data@),
            (match r {
                Ok(n) => old(self)@.write_ok(who, data@) && n == data@.len(),
                Err(c) => !old(self)@.write_ok(who, data@) && c == old(self)@.write_err(
                    who,
                    data@,
                ),
            }),
    {
        let open = match who {
            EndpointId::A => self.a_open,
            EndpointId::B => self.b_open,
        };
        if !open {
            return Err(Condition::BrokenPipe);
        }
        let ghost orig: PairModel = self@;
        let mut i: usize = 0;
        while i < data.len()
            invariant
                orig.wf(),
                self@.wf(),
                orig.write_open(who),
                i <= data@.len(),
                orig.outgoing(who).pending.len() + i <= orig.outgoing(who).cap,
                self@ == orig.with_outgoing(
                    who,
                    (ChannelModel {
                        pending: orig.outgoing(who).pending + data@.take(i as int),
                        ..orig.outgoing(who)
                    }),
                ),
            decreases data@.len() - i,
        {
            let byte = data[i];
            let res = match who {
                EndpointId::A => self.a_to_b.enqueue(byte),
                EndpointId::B => self.b_to_a.enqueue(byte),
            };
            match res {
                Ok(()) => {
                    proof {
                        assert((orig.outgoing(who).pending + data@.take(i as int)).push(byte)
                            =~= orig.outgoing(who).pending + data@.take(i + 1));
                    }
                    i = i + 1;
                },
                Err(e) => {
                    proof {
                        assert(e == EnqueueError::Full);
                        assert(orig.space(who) == i);
                        assert(data@.take(orig.space(who) as int) =~= data@.take(i as int));
                    }
                    return Err(Condition::WouldBlock);
                },
            }
        }
        proof {
            assert(data@.take(data@.len() as int) =~= data@);
        }
        Ok(data.len())
    }

    /// Reads for side `who` into `buf`, filling it from the front. Returns
    /// the number of bytes delivered; zero signals end of stream once the
    /// peer has shut down and the backlog is drained. The read blocks
    /// (`WouldBlock`) only when it would otherwise deliver nothing while
    /// the peer is still open; bytes of `buf` beyond the returned count
    /// are unspecified.
    pub fn read(&mut self, who: EndpointId, buf: &mut Vec<u8>) -> (r: Result<usize, Condition>)
        requires
            old(self)@.wf(),
        ensures
            final(self)@.wf(),
            final(self)@ == old(self)@.after_read(who, old(buf)@.len() as nat),
            final(buf)@.len() == old(buf)@.len(),
            (match r {
                Ok(n) => {
                    &&& !old(self)@.read_blocks(who, old(buf)@.len() as nat)
                    &&& n == old(self)@.read_count(who, old(buf)@.len() as nat)
                    &&& final(buf)@.take(n as int) == old(self)@.read_data(
                        who,
                        old(buf)@.len() as nat,
                    )
                },
                Err(c) => {
                    &&& old(self)@.read_blocks(who, old(buf)@.len() as nat)
                    &&& c == Condition::WouldBlock
                    &&& final(buf)@ == old(buf)@
                },
            }),
    {
        let len = buf.len();
        let ghost orig: PairModel = self@;
        let ghost avail: Seq<u8> = self@.incoming(who).pending;
        let ghost buf0: Seq<u8> = buf@;
        let mut count: usize = 0;
        proof {
            assert(avail.skip(0) =~= avail);
        }
        while count < len
            invariant
                orig == old(self)@,
                buf0 == old(buf)@,
                orig.wf(),
                self@.wf(),
                len == buf@.len(),
                buf0.len() == len,
                count <= len,
                count <= avail.len(),
                avail == orig.incoming(who).pending,
                self@ == orig.with_outgoing(
                    who.peer(),
                    (ChannelModel { pending: avail.skip(count as int), ..orig.incoming(who) }),
                ),
                forall|k: int| 0 <= k < count ==> buf@[k] == avail[k],
                forall|k: int| count <= k < len ==> buf@[k] == buf0[k],
            ensures
                len == buf@.len(),
                count <= len,
                count <= avail.len(),
                count == len || count == avail.len(),
                self@ == orig.with_outgoing(
                    who.peer(),
                    (ChannelModel { pending: avail.skip(count as int), ..orig.incoming(who) }),
                ),
                forall|k: int| 0 <= k < count ==> buf@[k] == avail[k],
                forall|k: int| count <= k < len ==> buf@[k] == buf0[k],
                !orig.read_blocks(who, len as nat),
            decreases len - count,
        {
            let d = match who {
                EndpointId::A => self.b_to_a.dequeue(),
                EndpointId::B => self.a_to_b.dequeue(),
            };
            match d {
                Dequeue::Ready(byte) => {
                    proof {
                        assert(avail.skip(count as int).drop_first() =~= avail.skip(count + 1));
                    }
                    buf[count] = byte;
                    count = count + 1;
                },
                Dequeue::End => {
                    break ;
                },
                Dequeue::Pending => {
                    if count == 0 {
                        proof {
                            assert(avail.skip(0) =~= avail);
                            assert((ChannelModel { pending: avail, ..orig.incoming(who) })
                                == orig.incoming(who));
                            assert(self@ == orig);
                        }
                        return Err(Condition::WouldBlock);
                    } else {
                        break ;
                    }
                },
            }
        }
        proof {
            assert(buf@.take(count as int) =~= avail.take(count as int));
        }
        Ok(count)
    }

    /// Flushing is a no-op: every enqueued byte is already visible to the
    /// peer; there is no separate buffering stage.
    pub fn flush(&mut self, _who: EndpointId) -> (r: Result<(), Condition>)
        ensures
            *final(self) == *old(self),
            r == Ok::<(), Condition>(()),
    {
        Ok(())
    }

    /// Relinquishes `who`'s write handle and closes the outgoing channel:
    /// the sole mechanism for signaling orderly end of stream to the peer.
    /// Idempotent, and never affects this side's own reads.
    pub fn shutdown(&mut self, who: EndpointId) -> (r: Result<(), Condition>)
        requires
            old(self)@.wf(),
        ensures
            final(self)@.wf(),
            final(self)@ == old(self)@.after_shutdown(who),
            r == Ok::<(), Condition>(()),
    {
        match who {
            EndpointId::A => {
                self.a_open = false;
                self.a_to_b.close_write();
            },
            EndpointId::B => {
                self.b_open = false;
                self.b_to_a.close_write();
            },
        }
        Ok(())
    }
}

/// Total number of bytes requested by a sequence of reads.
pub open spec fn total_wants(wants: Seq<nat>) -> nat
    decreases wants.len(),
{
    if wants.len() == 0 {
        0
    } else {
        wants[0] + total_wants(wants.drop_first())
    }
}

/// The bytes side `who` gathers by performing reads with buffer sizes
/// `wants`, in order, concatenated. A read that would block contributes
/// nothing and changes nothing.
pub open spec fn gathered_reads(m: PairModel, who: EndpointId, wants: Seq<nat>) -> Seq<u8>
    decreases wants.len(),
{
    if wants.len() == 0 {
        Seq::empty()
    } else {
        m.read_data(who, wants[0]) + gathered_reads(
            m.after_read(who, wants[0]),
            who,
            wants.drop_first(),
        )
    }
}

/// Reads deliver the incoming bytes in order without duplication or loss:
/// however the reads are sized, their concatenation is exactly the prefix
/// of the pending bytes whose length is the smaller of what was requested
/// in total and what was pending.
pub proof fn lemma_reads_in_order(m: PairModel, who: EndpointId, wants: Seq<nat>)
    ensures
        gathered_reads(m, who, wants) == m.incoming(who).pending.take(
            min_nat(total_wants(wants), m.incoming(who).pending.len()) as int,
        ),
    decreases wants.len(),
{
    let pend = m.incoming(who).pending;
    if wants.len() == 0 {
        assert(pend.take(0) =~= Seq::<u8>::empty());
    } else {
        let w0 = wants[0];
        let n = m.read_count(who, w0);
        let m2 = m.after_read(who, w0);
        if n == 0 {
            assert(pend.skip(0) =~= pend);
        }
        assert(m2.incoming(who).pending =~= pend.skip(n as int));
        lemma_reads_in_order(m2, who, wants.drop_first());
        let rest = min_nat(total_wants(wants.drop_first()), (pend.len() - n) as nat);
        assert(pend.take(n as int) + pend.skip(n as int).take(rest as int) =~= pend.take(
            n + rest as int,
        ));
        assert(n + rest == min_nat(total_wants(wants), pend.len()));
    }
}

/// Round trip: a sequence of bytes that fits into the free capacity,
/// written to one side, is read back from the other side exactly and in
/// order, across arbitrarily many read calls that together request at
/// least its length.
pub proof fn lemma_round_trip(m: PairModel, who: EndpointId, data: Seq<u8>, wants: Seq<nat>)
    requires
        m.wf(),
        m.write_open(who),
        m.outgoing(who).pending.len() == 0,
        data.len() <= m.outgoing(who).cap,
        total_wants(wants) >= data.len(),
    ensures
        m.write_ok(who, data),
        gathered_reads(m.after_write(who, data), who.peer(), wants) == data,
{
    let m2 = m.after_write(who, data);
    assert(who.peer().peer() == who);
    assert(m2.incoming(who.peer()).pending =~= data);
    lemma_reads_in_order(m2, who.peer(), wants);
    assert(data.take(min_nat(total_wants(wants), data.len()) as int) =~= data);
}

/// Backpressure: writing more bytes than the configured capacity to a
/// side whose outgoing queue is empty yields `WouldBlock`, after exactly
/// `capacity` bytes have been accepted; none of those bytes is dropped.
pub proof fn lemma_backpressure(m: PairModel, who: EndpointId, data: Seq<u8>)
    requires
        m.wf(),
        m.write_open(who),
        m.outgoing(who).pending.len() == 0,
        data.len() > m.outgoing(who).cap,
    ensures
        !m.write_ok(who, data),
        m.write_err(who, data) == Condition::WouldBlock,
        m.after_write(who, data).outgoing(who).pending == data.take(m.outgoing(who).cap as int),
        m.after_write(who, data).outgoing(who).pending.len() == m.outgoing(who).cap,
{
    assert(m.space(who) == m.outgoing(who).cap);
    assert(m.outgoing(who).pending + data.take(m.space(who) as int) =~= data.take(
        m.outgoing(who).cap as int,
    ));
}

/// A partial read never blocks: when some bytes are available but fewer
/// than the buffer requests, and the peer has not closed, the read
/// returns them all immediately instead of waiting for the rest.
pub proof fn lemma_partial_read_never_blocks(m: PairModel, who: EndpointId, want: nat)
    requires
        0 < m.incoming(who).pending.len() < want,
        !m.incoming(who).closed,
    ensures
        !m.read_blocks(who, want),
        m.read_count(who, want) == m.incoming(who).pending.len(),
        m.read_data(who, want) == m.incoming(who).pending,
{
    assert(m.incoming(who).pending.take(m.incoming(who).pending.len() as int) =~= m.incoming(
        who,
    ).pending);
}

/// End-of-stream convention: once the peer has shut down and the backlog
/// is drained, a read returns zero bytes, not an error, and leaves the
/// pair unchanged — so it stays that way permanently.
pub proof fn lemma_eof_read(m: PairModel, who: EndpointId, want: nat)
    requires
        m.incoming(who).closed,
        m.incoming(who).pending.len() == 0,
    ensures
        !m.read_blocks(who, want),
        m.read_count(who, want) == 0,
        m.read_data(who, want) == Seq::<u8>::empty(),
        m.after_read(who, want) == m,
{
    assert(m.incoming(who).pending.take(0) =~= Seq::<u8>::empty());
}

/// After shutdown, every write on the same side fails with `BrokenPipe`,
/// accepts zero bytes and changes nothing; shutdown itself is idempotent.
pub proof fn lemma_post_shutdown_write(m: PairModel, who: EndpointId, data: Seq<u8>)
    ensures
        !m.after_shutdown(who).write_ok(who, data),
        m.after_shutdown(who).write_err(who, data) == Condition::BrokenPipe,
        m.after_shutdown(who).after_write(who, data) == m.after_shutdown(who),
        m.after_shutdown(who).after_shutdown(who) == m.after_shutdown(who),
{
}

/// Half-close independence: shutting down one side leaves the opposite
/// direction's channel and write handle untouched.
pub proof fn lemma_half_close_independent(m: PairModel, who: EndpointId)
    ensures
        m.after_shutdown(who).outgoing(who.peer()) == m.outgoing(who.peer()),
        m.after_shutdown(who).write_open(who.peer()) == m.write_open(who.peer()),
{
}

} // verus!
