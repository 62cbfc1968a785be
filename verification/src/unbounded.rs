//! The unbounded socket pair: the same read/write/shutdown shape as the
//! bounded core, but with no capacity limit, so writes always succeed in
//! full while the write side is open.

use vstd::prelude::*;

use crate::{copy_prefix, drop_prefix, min_nat, Condition, DuplexModel, EndpointId, StreamModel};

verus! {

impl DuplexModel {
    /// An eager read reports `WouldBlock` whenever it cannot fill the
    /// whole buffer and the peer has not shut down — even though the
    /// bytes that were available have already been moved into the buffer
    /// and have left the stream. The reported condition takes precedence
    /// over the partial count.
    pub open spec fn eager_read_blocks(self, who: EndpointId, want: nat) -> bool {
        self.incoming(who).pending.len() < want && !self.incoming(who).closed
    }

    /// How many bytes an eager read moves into a `want`-byte buffer.
    pub open spec fn eager_read_count(self, who: EndpointId, want: nat) -> nat {
        min_nat(self.incoming(who).pending.len(), want)
    }

    /// The bytes an eager read moves, in arrival order.
    pub open spec fn eager_read_data(self, who: EndpointId, want: nat) -> Seq<u8> {
        self.incoming(who).pending.take(self.eager_read_count(who, want) as int)
    }

    /// The pair after `who` performs an eager read into a `want`-byte
    /// buffer.
    pub open spec fn after_eager_read(self, who: EndpointId, want: nat) -> DuplexModel {
        if self.eager_read_count(who, want) == 0 {
            self
        } else {
            self.with_outgoing(
                who.peer(),
                self.incoming(who).after_take(self.eager_read_count(who, want)),
            )
        }
    }
}

/// An unbounded duplex pair. One object owns both directions; the two
/// endpoints are addressed through [`EndpointId`].
pub struct UnboundedSocket {
    a_to_b: Vec<u8>,
    a_open: bool,
    b_to_a: Vec<u8>,
    b_open: bool,
}

impl View for UnboundedSocket {
    type V = DuplexModel;

    closed spec fn view(&self) -> DuplexModel {
        DuplexModel {
            a_to_b: StreamModel { pending: self.a_to_b@, closed: !self.a_open },
            b_to_a: StreamModel { pending: self.b_to_a@, closed: !self.b_open },
        }
    }
}

/// Creates a connected unbounded pair: both directions empty and open.
pub fn unbounded() -> (s: UnboundedSocket)
    ensures
        s@ == DuplexModel::fresh(),
{
    UnboundedSocket { a_to_b: Vec::new(), a_open: true, b_to_a: Vec::new(), b_open: true }
}

/// Moves `min(rb, buf)` bytes from the front of `rb` into the front of
/// `buf`; succeeds only when the buffer was filled or the stream has
/// closed, and reports `WouldBlock` otherwise, after the move.
fn drain_exact(rb: &mut Vec<u8>, closed: bool, buf: &mut Vec<u8>) -> (r: Result<usize, Condition>)
    ensures
        final(buf)@.len() == old(buf)@.len(),
        final(rb)@ == old(rb)@.skip(min_nat(old(rb)@.len(), old(buf)@.len()) as int),
        final(buf)@.take(min_nat(old(rb)@.len(), old(buf)@.len()) as int) == old(rb)@.take(
            min_nat(old(rb)@.len(), old(buf)@.len()) as int,
        ),
        (match r {
            Ok(n) => {
                &&& n == min_nat(old(rb)@.len(), old(buf)@.len())
                &&& (n == old(buf)@.len() || closed)
            },
            Err(c) => {
                &&& c == Condition::WouldBlock
                &&& old(rb)@.len() < old(buf)@.len()
                &&& !closed
            },
        }),
{
    let want = buf.len();
    let n = if rb.len() < want {
        rb.len()
    } else {
        want
    };
    let ghost rb0: Seq<u8> = rb@;
    copy_prefix(buf, rb, n);
    drop_prefix(rb, n);
    proof {
        assert(buf@.take(n as int) =~= rb0.take(n as int));
    }
    if n == want {
        Ok(n)
    } else if closed {
        Ok(n)
    } else {
        Err(Condition::WouldBlock)
    }
}

impl UnboundedSocket {
    /// Reads for side `who` into `buf`. The call fills `buf` from the
    /// front and succeeds when the buffer is full or the peer has shut
    /// down (zero bytes then signal end of stream); otherwise it reports
    /// `WouldBlock`, though the bytes that were available have already
    /// been moved into `buf` and have left the stream. Bytes of `buf`
    /// beyond the moved count are unspecified.
    pub fn read(&mut self, who: EndpointId, buf: &mut Vec<u8>) -> (r: Result<usize, Condition>)
        ensures
            final(self)@ == old(self)@.after_eager_read(who, old(buf)@.len() as nat),
            final(buf)@.len() == old(buf)@.len(),
            final(buf)@.take(old(self)@.eager_read_count(who, old(buf)@.len() as nat) as int)
                == old(self)@.eager_read_data(who, old(buf)@.len() as nat),
            (match r {
                Ok(n) => {
                    &&& !old(self)@.eager_read_blocks(who, old(buf)@.len() as nat)
                    &&& n == old(self)@.eager_read_count(who, old(buf)@.len() as nat)
                },
                Err(c) => {
                    &&& old(self)@.eager_read_blocks(who, old(buf)@.len() as nat)
                    &&& c == Condition::WouldBlock
                },
            }),
    {
        match who {
            EndpointId::A => {
                let r = drain_exact(&mut self.b_to_a, !self.b_open, buf);
                proof {
                    if old(self)@.eager_read_count(who, old(buf)@.len() as nat) == 0 {
                        assert(self.b_to_a@ =~= old(self).b_to_a@);
                        assert(self@ == old(self)@);
                    }
                }
                r
            },
            EndpointId::B => {
                let r = drain_exact(&mut self.a_to_b, !self.a_open, buf);
                proof {
                    if old(self)@.eager_read_count(who, old(buf)@.len() as nat) == 0 {
                        assert(self.a_to_b@ =~= old(self).a_to_b@);
                        assert(self@ == old(self)@);
                    }
                }
                r
            },
        }
    }

    /// Writes all of `data` for side `who`; there is no capacity limit,
    /// so an open write side always accepts everything. After shutdown
    /// the call fails with `BrokenPipe` and accepts nothing.
    pub fn write(&mut self, who: EndpointId, data: &Vec<u8>) -> (r: Result<usize, Condition>)
        ensures
            final(self)@ == old(self)@.after_write(who, data@),
            (match r {
                Ok(n) => old(self)@.write_ok(who) && n == data@.len(),
                Err(c) => !old(self)@.write_ok(who) && c == Condition::BrokenPipe,
            }),
    {
        let open = match who {
            EndpointId::A => self.a_open,
            EndpointId::B => self.b_open,
        };
        if !open {
            return Err(Condition::BrokenPipe);
        }
        match who {
            EndpointId::A => {
                crate::shared::append_all(&mut self.a_to_b, data);
            },
            EndpointId::B => {
                crate::shared::append_all(&mut self.b_to_a, data);
            },
        }
        Ok(data.len())
    }

    /// Flushing is a no-op: there is no separate buffering stage.
    pub fn flush(&mut self, _who: EndpointId) -> (r: Result<(), Condition>)
        ensures
            *final(self) == *old(self),
            r == Ok::<(), Condition>(()),
    {
        Ok(())
    }

    /// Relinquishes `who`'s write handle, closing that direction.
    /// Idempotent; pending bytes stay readable by the peer, and this
    /// side's own reads are unaffected.
    pub fn shutdown(&mut self, who: EndpointId) -> (r: Result<(), Condition>)
        ensures
            final(self)@ == old(self)@.after_shutdown(who),
            r == Ok::<(), Condition>(()),
    {
        match who {
            EndpointId::A => {
                self.a_open = false;
            },
            EndpointId::B => {
                self.b_open = false;
            },
        }
        Ok(())
    }
}

} // verus!
