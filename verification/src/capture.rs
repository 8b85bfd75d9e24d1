//! Capture FIFO: the bounded single-producer/single-consumer queue between
//! the audio-production side and the visualization cycle.
//!
//! The audio side pushes one sample at a time and never waits: when the
//! queue is full the oldest queued sample is dropped so the newest audio is
//! kept. The visualization side drains up to a requested amount and never
//! waits either: an under-run simply yields fewer samples.

use vstd::prelude::*;

use crate::fixed::{all_valid, valid_sample};
use crate::ring::MAX_CAPACITY;

verus! {

pub struct CaptureFifo {
    queued: Vec<i64>,
    cap: usize,
}

impl CaptureFifo {
    /// The queued samples, oldest first.
    pub closed spec fn contents(&self) -> Seq<i64> {
        self.queued@
    }

    /// The bound the queue was created with.
    pub closed spec fn capacity_spec(&self) -> int {
        self.cap as int
    }

    pub open spec fn wf(&self) -> bool {
        1 <= self.capacity_spec() <= MAX_CAPACITY
            && self.contents().len() <= self.capacity_spec()
            && all_valid(self.contents())
    }

    pub fn new(capacity: usize) -> (r: Self)
        requires
            1 <= capacity <= MAX_CAPACITY,
        ensures
            r.wf(),
            r.capacity_spec() == capacity,
            r.contents() == Seq::<i64>::empty(),
    {
        let queued: Vec<i64> = Vec::new();
        proof {
            assert(queued@ =~= Seq::<i64>::empty());
        }
        CaptureFifo { queued, cap: capacity }
    }

    /// How many samples are waiting to be drained.
    pub fn available(&self) -> (n: usize)
        ensures
            n == self.contents().len(),
    {
        self.queued.len()
    }

    /// Audio-side push: appends one sample without ever waiting; when the
    /// queue is full the oldest queued sample is dropped.
    pub fn push_captured(&mut self, s: i64)
        requires
            old(self).wf(),
            valid_sample(s),
        ensures
            final(self).wf(),
            final(self).capacity_spec() == old(self).capacity_spec(),
            final(self).contents() == (if old(self).contents().len() < old(self).capacity_spec() {
                old(self).contents().push(s)
            } else {
                old(self).contents().skip(1).push(s)
            }),
    {
        if self.queued.len() >= self.cap {
            self.queued.remove(0);
            proof {
                assert(self.queued@ =~= old(self).contents().skip(1));
            }
        }
        self.queued.push(s);
    }

    /// Visualization-side drain: removes and returns up to `max` of the
    /// oldest samples, in order; an under-run returns what is there.
    pub fn drain(&mut self, max: usize) -> (out: Vec<i64>)
        requires
            old(self).wf(),
        ensures
            final(self).wf(),
            final(self).capacity_spec() == old(self).capacity_spec(),
            out@.len() == (if old(self).contents().len() <= max {
                old(self).contents().len() as int
            } else {
                max as int
            }),
            out@ == old(self).contents().take(out@.len() as int),
            final(self).contents() == old(self).contents().skip(out@.len() as int),
    {
        let count: usize = if self.queued.len() < max {
            self.queued.len()
        } else {
            max
        };
        let mut out: Vec<i64> = Vec::new();
        let mut i: usize = 0;
        while i < count
            invariant
                i <= count,
                count <= old(self).contents().len(),
                self.wf(),
                self.cap == old(self).cap,
                out@ == old(self).contents().take(i as int),
                self.contents() == old(self).contents().skip(i as int),
            decreases count - i,
        {
            let s: i64 = self.queued.remove(0);
            out.push(s);
            proof {
                assert(old(self).contents().skip(i as int)[0] == old(self).contents()[i as int]);
                assert(self.contents() =~= old(self).contents().skip(i as int + 1));
                assert(out@ =~= old(self).contents().take(i as int + 1));
            }
            i = i + 1;
        }
        out
    }
}

} // verus!
