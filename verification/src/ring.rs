//! The bounded, non-blocking sample queue that carries one logical channel.
//!
//! A `ChannelRing` is a fixed-capacity circular buffer of normalized samples
//! with a read cursor on one side and a write cursor on the other.  Both
//! operations run in constant time and never wait: a push onto a full ring
//! reports failure and drops the sample (overrun), a pop from an empty ring
//! reports failure so the caller can substitute silence (underrun).  A stall
//! on one side therefore never propagates to the other.

use vstd::prelude::*;

use crate::sample::Sample;

verus! {

/// `i` reduced once modulo `n`, for `0 <= i < 2n`: the only index arithmetic
/// the circular buffer needs, since both cursors stay below the capacity.
pub open spec fn wrap_index(i: int, n: int) -> int {
    if i < n {
        i
    } else {
        i - n
    }
}

/// A fixed-capacity circular queue of normalized samples.  Its view is the
/// sequence of queued samples, oldest first.
pub struct ChannelRing {
    data: Vec<Sample>,
    start: usize,
    count: usize,
}

impl View for ChannelRing {
    type V = Seq<Sample>;

    closed spec fn view(&self) -> Seq<Sample> {
        Seq::new(
            self.count as nat,
            |i: int| self.data@[wrap_index(self.start + i, self.data@.len() as int)],
        )
    }
}

impl ChannelRing {
    /// The capacity fixed at construction: the storage never grows or shrinks.
    pub closed spec fn spec_capacity(&self) -> nat {
        self.data@.len()
    }

    /// Well-formedness: the storage exists, both cursors stay inside it, and
    /// the queue never holds more than the capacity.
    pub closed spec fn wf(&self) -> bool {
        &&& self.data@.len() >= 1
        &&& self.start < self.data@.len()
        &&& self.count <= self.data@.len()
    }

    /// A well-formed ring never queues more samples than its capacity: the
    /// successful pushes can never outrun the successful pops by more than
    /// the capacity, nor fall behind them.
    pub proof fn lemma_occupancy_bounded(&self)
        requires
            self.wf(),
        ensures
            self@.len() <= self.spec_capacity(),
    {
    }

    /// Create an empty ring of the given capacity.
    pub fn new(capacity: usize) -> (r: ChannelRing)
        requires
            capacity >= 1,
        ensures
            r.wf(),
            r@ == Seq::<Sample>::empty(),
            r.spec_capacity() == capacity,
    {
        let mut data: Vec<Sample> = Vec::new();
        while data.len() < capacity
            invariant
                data@.len() <= capacity,
            decreases capacity - data@.len(),
        {
            data.push(Sample::silence());
        }
        let r = ChannelRing { data, start: 0, count: 0 };
        proof {
            assert(r@ =~= Seq::<Sample>::empty());
        }
        r
    }

    /// Number of samples currently queued.
    pub fn len(&self) -> (n: usize)
        ensures
            n == self@.len(),
    {
        self.count
    }

    /// The capacity fixed at construction.
    pub fn capacity(&self) -> (c: usize)
        ensures
            c == self.spec_capacity(),
    {
        self.data.len()
    }

    /// Whether a pop would fail right now.
    pub fn is_empty(&self) -> (e: bool)
        ensures
            e == (self@.len() == 0),
    {
        self.count == 0
    }

    /// Whether a push would fail right now.
    pub fn is_full(&self) -> (f: bool)
        ensures
            f == (self@.len() == self.spec_capacity()),
    {
        self.count == self.data.len()
    }

    /// Store a sample behind the newest one.  Succeeds exactly when the ring
    /// is not full; on a full ring it returns `false` at once and the sample
    /// is dropped.  It never waits for the consumer.
    pub fn try_push(&mut self, s: Sample) -> (pushed: bool)
        requires
            old(self).wf(),
        ensures
            final(self).wf(),
            final(self).spec_capacity() == old(self).spec_capacity(),
            pushed == (old(self)@.len() < old(self).spec_capacity()),
            pushed ==> final(self)@ == old(self)@.push(s),
            !pushed ==> final(self)@ == old(self)@,
    {
        let n = self.data.len();
        if self.count == n {
            false
        } else {
            let room = n - self.start;
            let idx: usize = if self.count < room {
                self.start + self.count
            } else {
                self.count - room
            };
            self.data[idx] = s;
            self.count = self.count + 1;
            proof {
                assert(self@ =~= old(self)@.push(s));
            }
            true
        }
    }

    /// Take the oldest sample.  Succeeds exactly when the ring is not empty;
    /// on an empty ring it returns `None` at once so the caller can
    /// substitute silence.  It never waits for the producer.
    pub fn try_pop(&mut self) -> (r: Option<Sample>)
        requires
            old(self).wf(),
        ensures
            final(self).wf(),
            final(self).spec_capacity() == old(self).spec_capacity(),
            old(self)@.len() == 0 ==> r is None && final(self)@ == old(self)@,
            old(self)@.len() > 0 ==> r == Some(old(self)@[0]) && final(self)@ == old(self)@.subrange(
                1,
                old(self)@.len() as int,
            ),
    {
        if self.count == 0 {
            None
        } else {
            let s = self.data[self.start];
            let n = self.data.len();
            self.start = if self.start + 1 == n {
                0
            } else {
                self.start + 1
            };
            self.count = self.count - 1;
            proof {
                assert(self@ =~= old(self)@.subrange(1, old(self)@.len() as int));
            }
            Some(s)
        }
    }

    /// The render side's underrun policy in one call: the oldest sample if
    /// one is queued, the silent sample otherwise.
    pub fn pop_or_silence(&mut self) -> (s: Sample)
        requires
            old(self).wf(),
        ensures
            final(self).wf(),
            final(self).spec_capacity() == old(self).spec_capacity(),
            old(self)@.len() == 0 ==> s == Sample::spec_silence() && final(self)@ == old(self)@,
            old(self)@.len() > 0 ==> s == old(self)@[0] && final(self)@ == old(self)@.subrange(
                1,
                old(self)@.len() as int,
            ),
    {
        match self.try_pop() {
            Some(s) => s,
            None => Sample::silence(),
        }
    }
}

/// One request made of a ring: store a sample, or take the oldest one.
pub enum RingOp {
    Push(Sample),
    Pop,
}

/// The queue contents after a sequence of requests runs against an initially
/// empty ring of capacity `cap`, under the non-blocking policy: a push onto a
/// full ring and a pop from an empty ring leave it unchanged.  Each step is
/// exactly what the contracts of `try_push` and `try_pop` state, so this
/// model describes every reachable ring.
pub open spec fn run_ring(cap: nat, ops: Seq<RingOp>) -> Seq<Sample>
    decreases ops.len(),
{
    if ops.len() == 0 {
        Seq::empty()
    } else {
        let prev = run_ring(cap, ops.drop_last());
        match ops.last() {
            RingOp::Push(s) => if prev.len() < cap {
                prev.push(s)
            } else {
                prev
            },
            RingOp::Pop => if prev.len() > 0 {
                prev.subrange(1, prev.len() as int)
            } else {
                prev
            },
        }
    }
}

/// How many of the requests in `ops` are pushes that succeed.
pub open spec fn ok_pushes(cap: nat, ops: Seq<RingOp>) -> nat
    decreases ops.len(),
{
    if ops.len() == 0 {
        0
    } else {
        let prev = run_ring(cap, ops.drop_last());
        ok_pushes(cap, ops.drop_last()) + match ops.last() {
            RingOp::Push(s) => if prev.len() < cap {
                1nat
            } else {
                0nat
            },
            RingOp::Pop => 0nat,
        }
    }
}

/// How many of the requests in `ops` are pops that succeed.
pub open spec fn ok_pops(cap: nat, ops: Seq<RingOp>) -> nat
    decreases ops.len(),
{
    if ops.len() == 0 {
        0
    } else {
        let prev = run_ring(cap, ops.drop_last());
        ok_pops(cap, ops.drop_last()) + match ops.last() {
            RingOp::Push(s) => 0nat,
            RingOp::Pop => if prev.len() > 0 {
                1nat
            } else {
                0nat
            },
        }
    }
}

/// Ring balance law: over every sequence of push and pop requests against a
/// ring of capacity `cap`, the number of successful pushes minus the number
/// of successful pops equals the number of queued samples, so it never
/// exceeds `cap` and never goes negative.
pub proof fn lemma_ring_balance(cap: nat, ops: Seq<RingOp>)
    ensures
        ok_pops(cap, ops) <= ok_pushes(cap, ops),
        ok_pushes(cap, ops) - ok_pops(cap, ops) == run_ring(cap, ops).len(),
        run_ring(cap, ops).len() <= cap,
    decreases ops.len(),
{
    if ops.len() > 0 {
        lemma_ring_balance(cap, ops.drop_last());
    }
}

} // verus!
