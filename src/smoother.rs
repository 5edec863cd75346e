//! A bounded FIFO of raw samples and their moving average.

use vstd::prelude::*;
use std::collections::VecDeque;

verus! {

/// Sum of a sequence of samples.
pub open spec fn seq_sum(s: Seq<u32>) -> int
    decreases s.len(),
{
    if s.len() == 0 {
        0
    } else {
        seq_sum(s.drop_last()) + s.last() as int
    }
}

/// The window after `raw` is appended to `w`, the oldest entries evicted
/// until at most `cap` remain.
pub open spec fn pushed_window(w: Seq<u32>, raw: u32, cap: nat) -> Seq<u32> {
    let grown = w.push(raw);
    if grown.len() > cap {
        grown.subrange(grown.len() - cap, grown.len() as int)
    } else {
        grown
    }
}

/// The arithmetic mean of a non-empty window, rounded down; `raw` itself
/// for an empty one.
pub open spec fn smoothed_value(w: Seq<u32>, raw: u32) -> int {
    if w.len() == 0 {
        raw as int
    } else {
        seq_sum(w) / (w.len() as int)
    }
}

/// Rolling history of the last `capacity` raw samples.
pub struct Smoother {
    samples: VecDeque<u32>,
    capacity: u32,
}

impl Smoother {
    /// The samples held, oldest first.
    pub closed spec fn window(&self) -> Seq<u32> {
        self.samples@
    }

    /// The most samples held at once.
    pub closed spec fn capacity(&self) -> nat {
        self.capacity as nat
    }

    /// The window never holds more than the capacity.
    pub closed spec fn wf(&self) -> bool {
        self.samples@.len() <= self.capacity
    }

    /// An empty window holding at most `capacity` samples.
    pub fn new(capacity: u32) -> (r: Smoother)
        ensures
            r.wf(),
            r.window() == Seq::<u32>::empty(),
            r.capacity() == capacity as nat,
    {
        Smoother { samples: VecDeque::new(), capacity }
    }

    /// Number of samples held.
    pub fn len(&self) -> (r: usize)
        ensures
            r == self.window().len(),
    {
        self.samples.len()
    }

    /// Adds a raw sample, evicting the oldest one when the window is full,
    /// and returns the mean of the samples now held (never padded with
    /// zeros; `raw` itself when the window keeps nothing).
    pub fn push(&mut self, raw: u32) -> (r: u32)
        requires
            old(self).wf(),
        ensures
            final(self).wf(),
            final(self).capacity() == old(self).capacity(),
            final(self).window() == pushed_window(old(self).window(), raw, old(self).capacity()),
            r as int == smoothed_value(final(self).window(), raw),
    {
        let ghost w0 = self.samples@;
        self.samples.push_back(raw);
        if self.samples.len() as u64 > self.capacity as u64 {
            self.samples.pop_front();
            let ghost g = w0.push(raw);
            assert(self.samples@ =~= g.subrange(g.len() - self.capacity as int, g.len() as int));
        }
        let r = self.average_or(raw);
        r
    }

    /// Mean of the window rounded down, or `raw` when it is empty.
    fn average_or(&self, raw: u32) -> (r: u32)
        requires
            self.samples@.len() <= self.capacity,
        ensures
            r as int == smoothed_value(self.samples@, raw),
    {
        let n = self.samples.len();
        if n == 0 {
            return raw;
        }
        let mut sum: u64 = 0;
        let mut i: usize = 0;
        while i < n
            invariant
                n == self.samples@.len(),
                n <= self.capacity,
                i <= n,
                sum == seq_sum(self.samples@.subrange(0, i as int)),
                sum <= i * (u32::MAX as int),
            decreases n - i,
        {
            let x = self.samples[i];
            proof {
                let s = self.samples@.subrange(0, i + 1);
                assert(s.drop_last() =~= self.samples@.subrange(0, i as int));
                assert((i + 1) * (u32::MAX as int) == i * (u32::MAX as int) + u32::MAX) by (nonlinear_arith);
                assert(i * (u32::MAX as int) <= (u32::MAX as int) * (u32::MAX as int)) by (nonlinear_arith)
                    requires i <= u32::MAX;
            }
            sum = sum + x as u64;
            i = i + 1;
        }
        assert(self.samples@.subrange(0, n as int) =~= self.samples@);
        proof {
            lemma_sum_bound(self.samples@);
            vstd::arithmetic::div_mod::lemma_div_is_ordered(sum as int, n * (u32::MAX as int), n as int);
            vstd::arithmetic::div_mod::lemma_div_by_multiple(u32::MAX as int, n as int);
            assert(n * (u32::MAX as int) == (u32::MAX as int) * n) by (nonlinear_arith);
        }
        (sum / (n as u64)) as u32
    }
}

/// Each sample is at most `u32::MAX`, so the sum is at most that many times
/// the length.
proof fn lemma_sum_bound(s: Seq<u32>)
    ensures
        0 <= seq_sum(s) <= s.len() * (u32::MAX as int),
    decreases s.len(),
{
    if s.len() > 0 {
        lemma_sum_bound(s.drop_last());
        assert(s.len() * (u32::MAX as int) == (s.len() - 1) * (u32::MAX as int) + u32::MAX) by (nonlinear_arith);
    }
}

/// Sum of a sequence with its first element removed.
proof fn lemma_sum_drop_first(s: Seq<u32>)
    requires
        s.len() > 0,
    ensures
        seq_sum(s) == s[0] as int + seq_sum(s.drop_first()),
    decreases s.len(),
{
    if s.len() > 1 {
        lemma_sum_drop_first(s.drop_last());
        assert(s.drop_last().drop_first() =~= s.drop_first().drop_last());
    } else {
        assert(s.drop_last() =~= Seq::<u32>::empty());
        assert(s.drop_first() =~= Seq::<u32>::empty());
    }
}

/// Pushing into a full window of `cap > 0` samples evicts exactly the oldest
/// one: the window shifts by one, and its sum changes by the new sample
/// minus the evicted one.
pub proof fn lemma_full_window_evicts_oldest(w: Seq<u32>, raw: u32, cap: nat)
    requires
        cap > 0,
        w.len() == cap,
    ensures
        pushed_window(w, raw, cap) == w.drop_first().push(raw),
        pushed_window(w, raw, cap).len() == cap,
        seq_sum(pushed_window(w, raw, cap)) == seq_sum(w) - w[0] as int + raw as int,
{
    let r = w.drop_first().push(raw);
    assert(pushed_window(w, raw, cap) =~= r);
    assert(r.drop_last() =~= w.drop_first());
    lemma_sum_drop_first(w);
}

/// A window that has not filled up keeps every sample pushed into it.
pub proof fn lemma_partial_window_keeps_all(w: Seq<u32>, raw: u32, cap: nat)
    requires
        w.len() < cap,
    ensures
        pushed_window(w, raw, cap) == w.push(raw),
        seq_sum(pushed_window(w, raw, cap)) == seq_sum(w) + raw as int,
{
    assert(w.push(raw).drop_last() =~= w);
}

} // verus!
