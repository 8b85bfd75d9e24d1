//! Ring Sample Buffer: a fixed-capacity first-in-first-out store of recent
//! mono samples.
//!
//! The buffer is primed with zeros at construction, so its length always
//! equals its capacity and the first analysis cycle operates on a full,
//! well-defined silent signal. Pushing appends at the tail and evicts the
//! oldest sample at the head, preserving chronological order.

use vstd::prelude::*;

use crate::fixed::{all_valid, valid_sample};

verus! {

/// Largest accepted buffer capacity; it keeps every spectral intermediate
/// comfortably inside 64 bits.
pub const MAX_CAPACITY: usize = 65536;

pub struct RingSampleBuffer {
    samples: Vec<i64>,
}

/// The contents after pushing the samples of `q` into `b` in order, evicting
/// the oldest sample for each push.
pub open spec fn fed(b: Seq<i64>, q: Seq<i64>) -> Seq<i64>
    decreases q.len(),
{
    if q.len() == 0 {
        b
    } else {
        fed(b.skip(1).push(q[0]), q.skip(1))
    }
}

/// Feeding in closed form: the result is the trailing window of `b + q`
/// whose width is the buffer length.
pub proof fn lemma_fed_window(b: Seq<i64>, q: Seq<i64>)
    requires
        b.len() >= 1,
    ensures
        fed(b, q) == (b + q).skip(q.len() as int),
    decreases q.len(),
{
    if q.len() == 0 {
        assert(fed(b, q) =~= (b + q).skip(0));
    } else {
        lemma_fed_window(b.skip(1).push(q[0]), q.skip(1));
        assert(b.skip(1).push(q[0]) + q.skip(1) =~= (b + q).skip(1));
        assert((b + q).skip(1).skip(q.len() - 1) =~= (b + q).skip(q.len() as int));
    }
}

/// Eviction order: pushing `N + 1` samples into a capacity-`N` buffer leaves
/// exactly the last `N` of them, in their original order — the first sample
/// pushed is the one evicted.
pub proof fn lemma_eviction_order(b: Seq<i64>, q: Seq<i64>)
    requires
        1 <= b.len(),
        q.len() == b.len() + 1,
    ensures
        fed(b, q) == q.skip(1),
{
    lemma_fed_window(b, q);
    assert((b + q).skip(q.len() as int) =~= q.skip(1));
}

/// Feeding silence into a silent buffer leaves it silent, so an all-zero
/// signal stays all-zero for any number of cycles.
pub proof fn lemma_fed_silence(b: Seq<i64>, q: Seq<i64>)
    requires
        b.len() >= 1,
        forall|i: int| 0 <= i < b.len() ==> b[i] == 0,
        forall|i: int| 0 <= i < q.len() ==> q[i] == 0,
    ensures
        fed(b, q).len() == b.len(),
        forall|i: int| 0 <= i < fed(b, q).len() ==> fed(b, q)[i] == 0,
{
    lemma_fed_window(b, q);
    assert(forall|i: int|
        0 <= i < (b + q).skip(q.len() as int).len() ==> #[trigger] (b + q).skip(
            q.len() as int,
        )[i] == (b + q)[i + q.len()]);
}

impl RingSampleBuffer {
    /// The chronological contents, oldest first, newest at the tail.
    pub closed spec fn contents(&self) -> Seq<i64> {
        self.samples@
    }

    pub open spec fn wf(&self) -> bool {
        1 <= self.contents().len() <= MAX_CAPACITY && all_valid(self.contents())
    }

    /// A new buffer primed with `capacity` zero samples.
    pub fn new(capacity: usize) -> (r: Self)
        requires
            1 <= capacity <= MAX_CAPACITY,
        ensures
            r.wf(),
            r.contents().len() == capacity,
            forall|i: int| 0 <= i < capacity ==> r.contents()[i] == 0,
    {
        let mut samples: Vec<i64> = Vec::new();
        while samples.len() < capacity
            invariant
                samples.len() <= capacity,
                forall|i: int| 0 <= i < samples.len() ==> samples[i] == 0,
            decreases capacity - samples.len(),
        {
            samples.push(0);
        }
        RingSampleBuffer { samples }
    }

    /// The fixed capacity (always equal to the current length).
    pub fn capacity(&self) -> (c: usize)
        ensures
            c == self.contents().len(),
    {
        self.samples.len()
    }

    /// Append one sample, dropping the oldest; pushing always succeeds.
    pub fn push(&mut self, s: i64)
        requires
            old(self).wf(),
            valid_sample(s),
        ensures
            final(self).wf(),
            final(self).contents() == old(self).contents().skip(1).push(s),
            final(self).contents().len() == old(self).contents().len(),
    {
        self.samples.remove(0);
        self.samples.push(s);
        proof {
            assert(self.contents() =~= old(self).contents().skip(1).push(s));
        }
    }

    /// Push every sample of `q` in order, evicting the oldest each time.
    pub fn push_all(&mut self, q: &Vec<i64>)
        requires
            old(self).wf(),
            all_valid(q@),
        ensures
            final(self).wf(),
            final(self).contents().len() == old(self).contents().len(),
            final(self).contents() == fed(old(self).contents(), q@),
    {
        let mut i: usize = 0;
        proof {
            assert(q@.skip(0) =~= q@);
        }
        while i < q.len()
            invariant
                self.wf(),
                all_valid(q@),
                i <= q@.len(),
                self.contents().len() == old(self).contents().len(),
                fed(old(self).contents(), q@) == fed(self.contents(), q@.skip(i as int)),
            decreases q@.len() - i,
        {
            proof {
                assert(valid_sample(q@[i as int]));
                assert(q@.skip(i as int)[0] == q@[i as int]);
            }
            self.push(q[i]);
            proof {
                assert(q@.skip(i as int).skip(1) =~= q@.skip(i as int + 1));
            }
            i = i + 1;
        }
        proof {
            assert(q@.skip(q@.len() as int).len() == 0);
        }
    }

    /// A read-only view of the contents for the active analyzer.
    pub fn snapshot(&self) -> (r: &Vec<i64>)
        ensures
            r@ == self.contents(),
    {
        &self.samples
    }
}

} // verus!
