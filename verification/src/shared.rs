//! The shared-buffer socket pair: a single-threaded convenience variant
//! built on one mutable buffer per direction, with no flow control.
//! Writes always succeed in full while the write side is open; reads
//! drain whatever is buffered in bulk.

use vstd::prelude::*;

use crate::{copy_prefix, drop_prefix, min_nat, Condition, DuplexModel, EndpointId, StreamModel};

verus! {

impl DuplexModel {
    /// A bulk read blocks exactly when nothing is buffered and the peer
    /// has not shut down — whatever the buffer length.
    pub open spec fn read_blocks(self, who: EndpointId) -> bool {
        self.incoming(who).pending.len() == 0 && !self.incoming(who).closed
    }

    /// How many bytes a bulk read into a `want`-byte buffer returns.
    pub open spec fn read_count(self, who: EndpointId, want: nat) -> nat {
        min_nat(self.incoming(who).pending.len(), want)
    }

    /// The bytes such a read delivers, in arrival order.
    pub open spec fn read_data(self, who: EndpointId, want: nat) -> Seq<u8> {
        self.incoming(who).pending.take(self.read_count(who, want) as int)
    }

    /// The pair after `who` performs a bulk read into a `want`-byte
    /// buffer.
    pub open spec fn after_read(self, who: EndpointId, want: nat) -> DuplexModel {
        if self.read_count(who, want) == 0 {
            self
        } else {
            self.with_outgoing(who.peer(), self.incoming(who).after_take(self.read_count(who, want)))
        }
    }
}

/// A shared-buffer duplex pair. One object owns both directions; the two
/// endpoints are addressed through [`EndpointId`].
pub struct Socket {
    a_to_b: Vec<u8>,
    a_closed: bool,
    b_to_a: Vec<u8>,
    b_closed: bool,
}

impl View for Socket {
    type V = DuplexModel;

    closed spec fn view(&self) -> DuplexModel {
        DuplexModel {
            a_to_b: StreamModel { pending: self.a_to_b@, closed: self.a_closed },
            b_to_a: StreamModel { pending: self.b_to_a@, closed: self.b_closed },
        }
    }
}

/// Creates a connected shared-buffer pair: both directions empty and
/// open.
pub fn new_pair() -> (s: Socket)
    ensures
        s@ == DuplexModel::fresh(),
{
    Socket { a_to_b: Vec::new(), a_closed: false, b_to_a: Vec::new(), b_closed: false }
}

/// Bulk-reads from `rb` into the front of `buf`: nothing buffered means
/// either end of stream (`Ok(0)`, when `closed`) or `WouldBlock`;
/// otherwise as many bytes as fit are copied out and dropped from `rb`.
fn drain_buffered(rb: &mut Vec<u8>, closed: bool, buf: &mut Vec<u8>) -> (r: Result<
    usize,
    Condition,
>)
    ensures
        final(buf)@.len() == old(buf)@.len(),
        (match r {
            Ok(n) => {
                &&& !(old(rb)@.len() == 0 && !closed)
                &&& n == min_nat(old(rb)@.len(), old(buf)@.len())
                &&& final(rb)@ == old(rb)@.skip(n as int)
                &&& final(buf)@.take(n as int) == old(rb)@.take(n as int)
            },
            Err(c) => {
                &&& old(rb)@.len() == 0 && !closed
                &&& c == Condition::WouldBlock
                &&& final(rb)@ == old(rb)@
                &&& final(buf)@ == old(buf)@
            },
        }),
{
    if rb.len() == 0 {
        if closed {
            proof {
                assert(rb@.skip(0) =~= rb@);
                assert(buf@.take(0) =~= rb@.take(0));
            }
            Ok(0)
        } else {
            Err(Condition::WouldBlock)
        }
    } else {
        let n = if buf.len() < rb.len() {
            buf.len()
        } else {
            rb.len()
        };
        let ghost rb0: Seq<u8> = rb@;
        copy_prefix(buf, rb, n);
        drop_prefix(rb, n);
        proof {
            assert(buf@.take(n as int) =~= rb0.take(n as int));
        }
        Ok(n)
    }
}

impl Socket {
    /// Reads for side `who` into `buf`, draining whatever the peer has
    /// buffered, up to `buf`'s length. Zero bytes with the peer shut down
    /// signals end of stream; an empty buffer with the peer still open is
    /// `WouldBlock`. Bytes of `buf` beyond the returned count are
    /// unspecified.
    pub fn read(&mut self, who: EndpointId, buf: &mut Vec<u8>) -> (r: Result<usize, Condition>)
        ensures
            final(self)@ == old(self)@.after_read(who, old(buf)@.len() as nat),
            final(buf)@.len() == old(buf)@.len(),
            (match r {
                Ok(n) => {
                    &&& !old(self)@.read_blocks(who)
                    &&& n == old(self)@.read_count(who, old(buf)@.len() as nat)
                    &&& final(buf)@.take(n as int) == old(self)@.read_data(
                        who,
                        old(buf)@.len() as nat,
                    )
                },
                Err(c) => {
                    &&& old(self)@.read_blocks(who)
                    &&& c == Condition::WouldBlock
                    &&& final(buf)@ == old(buf)@
                },
            }),
    {
        match who {
            EndpointId::A => {
                let r = drain_buffered(&mut self.b_to_a, self.b_closed, buf);
                proof {
                    match r {
                        Ok(n) => {
                            if n == 0 {
                                assert(self.b_to_a@ =~= old(self).b_to_a@);
                                assert(self@ == old(self)@);
                            }
                        },
                        Err(_) => {},
                    }
                }
                r
            },
            EndpointId::B => {
                let r = drain_buffered(&mut self.a_to_b, self.a_closed, buf);
                proof {
                    match r {
                        Ok(n) => {
                            if n == 0 {
                                assert(self.a_to_b@ =~= old(self).a_to_b@);
                                assert(self@ == old(self)@);
                            }
                        },
                        Err(_) => {},
                    }
                }
                r
            },
        }
    }

    /// Writes all of `data` for side `who`; the bytes become visible to
    /// the peer at once. After shutdown the call fails with `BrokenPipe`
    /// and accepts nothing.
    pub fn write(&mut self, who: EndpointId, data: &Vec<u8>) -> (r: Result<usize, Condition>)
        ensures
            final(self)@ == old(self)@.after_write(who, data@),
            (match r {
                Ok(n) => old(self)@.write_ok(who) && n == data@.len(),
                Err(c) => !old(self)@.write_ok(who) && c == Condition::BrokenPipe,
            }),
    {
        let closed = match who {
            EndpointId::A => self.a_closed,
            EndpointId::B => self.b_closed,
        };
        if closed {
            return Err(Condition::BrokenPipe);
        }
        match who {
            EndpointId::A => {
                append_all(&mut self.a_to_b, data);
            },
            EndpointId::B => {
                append_all(&mut self.b_to_a, data);
            },
        }
        Ok(data.len())
    }

    /// Flushing is a no-op: there is no separate buffering stage.
    pub fn flush(&mut self, _who: EndpointId) -> (r: Result<(), Condition>)
        ensures
            *final(self) == *old(self),
            r == Ok::<(), Condition>(()),
    {
        Ok(())
    }

    /// Closes `who`'s write side. Idempotent; buffered bytes stay
    /// readable by the peer, and this side's own reads are unaffected.
    pub fn shutdown(&mut self, who: EndpointId) -> (r: Result<(), Condition>)
        ensures
            final(self)@ == old(self)@.after_shutdown(who),
            r == Ok::<(), Condition>(()),
    {
        match who {
            EndpointId::A => {
                self.a_closed = true;
            },
            EndpointId::B => {
                self.b_closed = true;
            },
        }
        Ok(())
    }
}

/// Appends all of `data` to `wb` in order.
pub(crate) fn append_all(wb: &mut Vec<u8>, data: &Vec<u8>)
    ensures
        final(wb)@ == old(wb)@ + data@,
{
    let ghost wb0: Seq<u8> = wb@;
    proof {
        assert(wb0 + data@.take(0) =~= wb0);
    }
    let mut i: usize = 0;
    while i < data.len()
        invariant
            i <= data@.len(),
            wb@ == wb0 + data@.take(i as int),
        decreases data@.len() - i,
    {
        let byte = data[i];
        wb.push(byte);
        proof {
            assert((wb0 + data@.take(i as int)).push(byte) =~= wb0 + data@.take(i + 1));
        }
        i = i + 1;
    }
    proof {
        assert(data@.take(data@.len() as int) =~= data@);
    }
}

} // verus!
