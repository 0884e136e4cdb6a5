//! Bounded history of the most recent frame samples (for the FPS
//! overlay): new samples go to the back, and the oldest ones are dropped
//! once the history is longer than its capacity.

use vstd::prelude::*;
use std::collections::VecDeque;

verus! {

/// The most recent samples, oldest first.
pub struct SampleHistory<T> {
    samples: VecDeque<T>,
}

/// The last `min(cap, s.len())` elements of `s`.
pub open spec fn keep_last<T>(s: Seq<T>, cap: nat) -> Seq<T> {
    if s.len() > cap { s.skip(s.len() - cap) } else { s }
}

/// Number of worst samples averaged for the "1% low" figure: one
/// percent of `n`, rounded up, and at least one.
pub open spec fn worst_count(n: nat) -> nat {
    let c = if n % 100 == 0 { n / 100 } else { n / 100 + 1 };
    if c < 1 { 1 } else { c }
}

impl<T> SampleHistory<T> {
    /// The held samples, oldest first.
    pub closed spec fn view_samples(&self) -> Seq<T> {
        self.samples@
    }

    /// An empty history with room for `capacity` samples.
    pub fn new(capacity: usize) -> (h: Self)
        ensures
            h.view_samples() == Seq::<T>::empty(),
    {
        SampleHistory { samples: VecDeque::with_capacity(capacity) }
    }

    /// Appends `sample` and drops the oldest samples until at most
    /// `capacity` remain.
    pub fn push(&mut self, sample: T, capacity: usize)
        ensures
            final(self).view_samples() == keep_last(old(self).view_samples().push(sample), capacity as nat),
    {
        self.samples.push_back(sample);
        let ghost full = self.samples@;
        while self.samples.len() > capacity
            invariant
                full.len() >= self.samples@.len(),
                self.samples@ == full.skip(full.len() - self.samples@.len()),
                self.samples@.len() >= capacity || self.samples@ == full,
            decreases self.samples@.len(),
        {
            let ghost before = self.samples@;
            let _ = self.samples.pop_front();
            assert(self.samples@ == full.skip(full.len() - self.samples@.len()));
        }
        assert(full.skip(0) == full);
    }

    /// The held samples, oldest first.
    pub fn samples(&self) -> (s: &VecDeque<T>)
        ensures
            s@ == self.view_samples(),
    {
        &self.samples
    }

    /// Number of held samples.
    pub fn len(&self) -> (n: usize)
        ensures
            n == self.view_samples().len(),
    {
        self.samples.len()
    }
}

/// Pushing keeps exactly the newest `min(cap, len)` samples, in the
/// order they arrived in, ending with the sample just pushed.
pub proof fn lemma_keep_last_is_newest_suffix<T>(s: Seq<T>, x: T, cap: nat)
    requires
        cap >= 1,
    ensures
        ({
            let full = s.push(x);
            let kept = keep_last(full, cap);
            &&& kept.len() == if full.len() > cap { cap } else { full.len() }
            &&& forall|i: int| 0 <= i < kept.len() ==> #[trigger] kept[i] == full[full.len() - kept.len() + i]
            &&& kept[kept.len() - 1] == x
        }),
{
}

/// The worst-one-percent count is the least whole number of samples
/// that is at least one percent of `n`, and at least one.
pub proof fn lemma_worst_count_is_ceiling(n: nat)
    ensures
        n >= 1 ==> 100 * (worst_count(n) - 1) < n <= 100 * worst_count(n),
        n == 0 ==> worst_count(n) == 1,
{
}

/// How many of `n` samples make up the worst one percent.
pub fn worst_sample_count(n: usize) -> (c: usize)
    ensures
        c == worst_count(n as nat),
        1 <= c,
        n >= 1 ==> c <= n,
{
    let c = if n % 100 == 0 { n / 100 } else { n / 100 + 1 };
    if c < 1 { 1 } else { c }
}

} // verus!
