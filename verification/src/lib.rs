//! In-memory duplex byte-stream pairs that emulate a socket connection
//! without any operating-system transport.
//!
//! The core variant, [`bounded`], connects two endpoints through
//! capacity-limited byte channels and exposes a non-blocking
//! read/write/shutdown contract suitable for a cooperative scheduler:
//! backpressure surfaces as [`Condition::WouldBlock`], orderly half-close
//! as a zero-length read, and a closed write side as
//! [`Condition::BrokenPipe`].
//!
//! Two simpler siblings share the interface shape: [`unbounded`], whose
//! writes always succeed while the write side is open, and [`new_pair`],
//! a shared-buffer pair for single-threaded use.

use vstd::prelude::*;

pub mod bounded;
pub mod channel;
pub mod shared;
pub mod unbounded;

pub use bounded::{bounded, BoundedSocket};
pub use shared::{new_pair, Socket};
pub use unbounded::{unbounded, UnboundedSocket};

verus! {

/// Which side of a pair an operation acts for. The two sides are wired
/// crosswise: what `A` writes, `B` reads, and vice versa.
#[derive(Clone, Copy, PartialEq, Eq, Structural, Debug)]
pub enum EndpointId {
    A,
    B,
}

impl EndpointId {
    /// The opposite side of the pair.
    pub open spec fn peer(self) -> EndpointId {
        match self {
            EndpointId::A => EndpointId::B,
            EndpointId::B => EndpointId::A,
        }
    }
}

/// Why a call could not complete.
#[derive(Clone, Copy, PartialEq, Eq, Structural, Debug)]
pub enum Condition {
    /// Transient: no progress is possible right now; suspend and retry.
    WouldBlock,
    /// Terminal for the direction: the relevant write side is closed.
    BrokenPipe,
    /// Invalid construction parameters; reported at construction only.
    ConfigurationError,
}

/// The smaller of two natural numbers.
pub open spec fn min_nat(a: nat, b: nat) -> nat {
    if a < b {
        a
    } else {
        b
    }
}

/// Model of one direction of an unbounded duplex stream: the bytes still
/// in flight, in writing order, and whether the writing side has closed.
pub ghost struct StreamModel {
    pub pending: Seq<u8>,
    pub closed: bool,
}

impl StreamModel {
    /// A direction with nothing in flight and the writer still open.
    pub open spec fn empty() -> StreamModel {
        StreamModel { pending: Seq::empty(), closed: false }
    }

    /// The direction after its writer closes; pending bytes stay readable.
    pub open spec fn after_close(self) -> StreamModel {
        StreamModel { closed: true, ..self }
    }

    /// The direction after `data` is appended in order.
    pub open spec fn after_append(self, data: Seq<u8>) -> StreamModel {
        StreamModel { pending: self.pending + data, ..self }
    }

    /// The direction after the reader consumes its first `n` bytes.
    pub open spec fn after_take(self, n: nat) -> StreamModel {
        StreamModel { pending: self.pending.skip(n as int), ..self }
    }
}

/// Model of an unbounded duplex pair: one stream per direction.
pub ghost struct DuplexModel {
    pub a_to_b: StreamModel,
    pub b_to_a: StreamModel,
}

impl DuplexModel {
    /// Both directions empty and open.
    pub open spec fn fresh() -> DuplexModel {
        DuplexModel { a_to_b: StreamModel::empty(), b_to_a: StreamModel::empty() }
    }

    /// The direction `who` writes into.
    pub open spec fn outgoing(self, who: EndpointId) -> StreamModel {
        match who {
            EndpointId::A => self.a_to_b,
            EndpointId::B => self.b_to_a,
        }
    }

    /// The direction `who` reads from: the peer's outgoing direction.
    pub open spec fn incoming(self, who: EndpointId) -> StreamModel {
        self.outgoing(who.peer())
    }

    /// The pair with `who`'s outgoing direction replaced.
    pub open spec fn with_outgoing(self, who: EndpointId, s: StreamModel) -> DuplexModel {
        match who {
            EndpointId::A => DuplexModel { a_to_b: s, ..self },
            EndpointId::B => DuplexModel { b_to_a: s, ..self },
        }
    }

    /// A write succeeds exactly while `who`'s write side is open.
    pub open spec fn write_ok(self, who: EndpointId) -> bool {
        !self.outgoing(who).closed
    }

    /// The pair after `who` writes `data`: appended in order when the
    /// write side is open, otherwise unchanged.
    pub open spec fn after_write(self, who: EndpointId, data: Seq<u8>) -> DuplexModel {
        if self.write_ok(who) {
            self.with_outgoing(who, self.outgoing(who).after_append(data))
        } else {
            self
        }
    }

    /// The pair after `who` shuts its write side down. Idempotent, and the
    /// opposite direction is untouched.
    pub open spec fn after_shutdown(self, who: EndpointId) -> DuplexModel {
        self.with_outgoing(who, self.outgoing(who).after_close())
    }
}

/// Copies `src[0..n]` onto `dst[0..n]`, leaving every other byte of `dst`
/// in place.
pub(crate) fn copy_prefix(dst: &mut Vec<u8>, src: &Vec<u8>, n: usize)
    requires
        n <= old(dst)@.len(),
        n <= src@.len(),
    ensures
        final(dst)@.len() == old(dst)@.len(),
        forall|k: int| 0 <= k < n ==> final(dst)@[k] == src@[k],
        forall|k: int| n <= k < old(dst)@.len() ==> final(dst)@[k] == old(dst)@[k],
{
    let ghost dst0: Seq<u8> = dst@;
    let mut i: usize = 0;
    while i < n
        invariant
            i <= n,
            n <= src@.len(),
            n <= dst@.len(),
            dst@.len() == dst0.len(),
            forall|k: int| 0 <= k < i ==> dst@[k] == src@[k],
            forall|k: int| i <= k < dst@.len() ==> dst@[k] == dst0[k],
        decreases n - i,
    {
        let byte = src[i];
        dst[i] = byte;
        i = i + 1;
    }
}

/// Removes the first `n` bytes of `v`, keeping the rest in order.
pub(crate) fn drop_prefix(v: &mut Vec<u8>, n: usize)
    requires
        n <= old(v)@.len(),
    ensures
        final(v)@ == old(v)@.skip(n as int),
{
    let ghost v0: Seq<u8> = v@;
    proof {
        assert(v0.skip(0) =~= v0);
    }
    let mut j: usize = 0;
    while j < n
        invariant
            j <= n,
            n <= v0.len(),
            v@ == v0.skip(j as int),
        decreases n - j,
    {
        v.remove(0);
        proof {
            assert(v@ =~= v0.skip(j + 1));
        }
        j = j + 1;
    }
}

} // verus!
