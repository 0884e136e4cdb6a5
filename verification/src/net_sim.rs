//! Simulated network latency. Each leg (client → server input, server
//! → client positions) holds a queue of payloads, each stamped with the
//! time (in nanoseconds of game time) at which it may be delivered. A
//! fresh one-way delay of 100 ms ± 20 ms is drawn from the leg's own
//! PCG stream for every payload.

use vstd::prelude::*;
use std::collections::VecDeque;
use crate::prng::{pcg_next, pcg_drawn};

verus! {

/// Centre of the simulated one-way delay.
pub const BASE_DELAY_NANOS: u64 = 100_000_000;

/// Half-width of the simulated delay spread.
pub const DELAY_SPREAD_NANOS: u64 = 20_000_000;

/// Seed of the input (client → server) leg.
pub const INPUT_LEG_SEED: u32 = 0xDEAD_CAFE;

/// Seed of the position (server → client) leg.
pub const POSITION_LEG_SEED: u32 = 0xBEEF_F00D;

/// A payload waiting for its delivery time.
pub struct Pending<T> {
    pub release_at: u64,
    pub item: T,
}

/// A delayed-delivery queue with its own random stream.
pub struct SimBuffer<T> {
    queue: VecDeque<Pending<T>>,
    rng: u32,
}

/// The delay drawn from the generator output `r`: the base minus the
/// spread, plus `r / 2^32` of twice the spread (rounded down).
pub open spec fn delay_for(r: u32) -> int {
    BASE_DELAY_NANOS - DELAY_SPREAD_NANOS + (r * (2 * DELAY_SPREAD_NANOS)) / 0x1_0000_0000
}

/// `now + delay`, held at `u64::MAX` if the clock would overflow.
pub open spec fn release_time(now: u64, delay: int) -> u64 {
    if now + delay > u64::MAX { u64::MAX } else { (now + delay) as u64 }
}

/// The payloads of `s`, in order.
pub open spec fn items_of<T>(s: Seq<Pending<T>>) -> Seq<T> {
    s.map_values(|p: Pending<T>| p.item)
}

/// The payloads of `s` that are due at `now`, in queue order.
pub open spec fn due_items<T>(s: Seq<Pending<T>>, now: u64) -> Seq<T>
    decreases s.len(),
{
    if s.len() == 0 {
        Seq::empty()
    } else if s.last().release_at <= now {
        due_items(s.drop_last(), now).push(s.last().item)
    } else {
        due_items(s.drop_last(), now)
    }
}

/// The entries of `s` that are not yet due at `now`, in queue order.
pub open spec fn waiting<T>(s: Seq<Pending<T>>, now: u64) -> Seq<Pending<T>>
    decreases s.len(),
{
    if s.len() == 0 {
        Seq::empty()
    } else if s.last().release_at <= now {
        waiting(s.drop_last(), now)
    } else {
        waiting(s.drop_last(), now).push(s.last())
    }
}

impl<T> SimBuffer<T> {
    /// The queued entries, oldest first.
    pub closed spec fn pending(&self) -> Seq<Pending<T>> {
        self.queue@
    }

    /// The state of the leg's random stream.
    pub closed spec fn rng_state(&self) -> u32 {
        self.rng
    }

    /// An empty leg whose random stream starts at `seed`.
    pub fn new(seed: u32) -> (b: Self)
        ensures
            b.pending() == Seq::<Pending<T>>::empty(),
            b.rng_state() == seed,
    {
        SimBuffer { queue: VecDeque::new(), rng: seed }
    }

    /// Number of queued entries.
    pub fn len(&self) -> (n: usize)
        ensures
            n == self.pending().len(),
    {
        self.queue.len()
    }

    /// Draws the next one-way delay, in nanoseconds.
    pub fn next_delay_nanos(&mut self) -> (d: u64)
        ensures
            final(self).rng_state() == pcg_drawn(old(self).rng_state()),
            final(self).pending() == old(self).pending(),
            d == delay_for(final(self).rng_state()),
            BASE_DELAY_NANOS - DELAY_SPREAD_NANOS <= d < BASE_DELAY_NANOS + DELAY_SPREAD_NANOS,
    {
        self.rng = pcg_next(self.rng);
        let r = self.rng as u64;
        assert(r * (2 * DELAY_SPREAD_NANOS) < 0x1_0000_0000 * (2 * DELAY_SPREAD_NANOS)) by (nonlinear_arith)
            requires
                r < 0x1_0000_0000,
        ;
        let scaled: u64 = r * (2 * DELAY_SPREAD_NANOS) / 0x1_0000_0000;
        assert(scaled < 2 * DELAY_SPREAD_NANOS) by (nonlinear_arith)
            requires
                scaled == r * (2 * DELAY_SPREAD_NANOS) / 0x1_0000_0000,
                r < 0x1_0000_0000,
        ;
        BASE_DELAY_NANOS - DELAY_SPREAD_NANOS + scaled
    }

    /// Queues `item` for delivery one freshly drawn delay after `now`.
    pub fn enqueue(&mut self, now: u64, item: T)
        ensures
            final(self).rng_state() == pcg_drawn(old(self).rng_state()),
            final(self).pending() == old(self).pending().push(
                Pending { release_at: release_time(now, delay_for(final(self).rng_state())), item },
            ),
    {
        let delay = self.next_delay_nanos();
        let release_at = now.saturating_add(delay);
        self.queue.push_back(Pending { release_at, item });
    }

    /// Delivers entries from the front of the queue while they are due
    /// at `now`, stopping at the first one that is not.
    pub fn release_due_prefix(&mut self, now: u64) -> (out: Vec<T>)
        ensures
            out@.len() <= old(self).pending().len(),
            out@ == items_of(old(self).pending().take(out@.len() as int)),
            forall|j: int| 0 <= j < out@.len() ==> (#[trigger] old(self).pending()[j]).release_at <= now,
            out@.len() == old(self).pending().len()
                || old(self).pending()[out@.len() as int].release_at > now,
            final(self).pending() == old(self).pending().skip(out@.len() as int),
            final(self).rng_state() == old(self).rng_state(),
    {
        let ghost start = self.queue@;
        let ghost rng0 = self.rng;
        let mut out: Vec<T> = Vec::new();
        while self.queue.len() > 0 && self.queue[0].release_at <= now
            invariant
                self.rng == rng0,
                out@.len() <= start.len(),
                self.queue@ == start.skip(out@.len() as int),
                out@ == items_of(start.take(out@.len() as int)),
                forall|j: int| 0 <= j < out@.len() ==> (#[trigger] start[j]).release_at <= now,
            decreases self.queue@.len(),
        {
            let ghost k = out@.len() as int;
            let p = self.queue.pop_front().unwrap();
            assert(p == start[k]);
            out.push(p.item);
            assert(start.take(k + 1) == start.take(k).push(p));
            assert(items_of(start.take(k + 1)) == items_of(start.take(k)).push(p.item));
            assert(self.queue@ == start.skip(k + 1));
        }
        out
    }

    /// Delivers every entry that is due at `now`, wherever it sits in
    /// the queue; the others stay queued in the same order.
    pub fn release_all_due(&mut self, now: u64) -> (out: Vec<T>)
        ensures
            out@ == due_items(old(self).pending(), now),
            final(self).pending() == waiting(old(self).pending(), now),
            final(self).rng_state() == old(self).rng_state(),
    {
        let ghost start = self.queue@;
        let ghost rng0 = self.rng;
        let mut out: Vec<T> = Vec::new();
        let mut keep: VecDeque<Pending<T>> = VecDeque::new();
        let ghost mut i: int = 0;
        while self.queue.len() > 0
            invariant
                self.rng == rng0,
                0 <= i <= start.len(),
                self.queue@ == start.skip(i),
                out@ == due_items(start.take(i), now),
                keep@ == waiting(start.take(i), now),
            decreases self.queue@.len(),
        {
            let p = self.queue.pop_front().unwrap();
            assert(p == start[i]);
            assert(start.take(i + 1).drop_last() == start.take(i));
            assert(start.take(i + 1).last() == p);
            if p.release_at <= now {
                out.push(p.item);
            } else {
                keep.push_back(p);
            }
            proof {
                i = i + 1;
            }
            assert(self.queue@ == start.skip(i));
        }
        assert(start.take(i) == start);
        self.queue = keep;
        out
    }
}

/// The delay is the low end of the window plus the fraction `r / 2^32`
/// of the window's width, rounded down to a whole nanosecond.
pub proof fn lemma_delay_is_scaled_draw(r: u32)
    ensures
        0x1_0000_0000 * (delay_for(r) - (BASE_DELAY_NANOS - DELAY_SPREAD_NANOS)) <= r * (2 * DELAY_SPREAD_NANOS),
        r * (2 * DELAY_SPREAD_NANOS) < 0x1_0000_0000 * (delay_for(r) - (BASE_DELAY_NANOS - DELAY_SPREAD_NANOS) + 1),
{
    let p = r * (2 * DELAY_SPREAD_NANOS);
    vstd::arithmetic::div_mod::lemma_fundamental_div_mod(p, 0x1_0000_0000);
    vstd::arithmetic::div_mod::lemma_mod_bound(p, 0x1_0000_0000);
}

/// A larger draw never gives a shorter delay.
pub proof fn lemma_delay_monotone(r1: u32, r2: u32)
    requires
        r1 <= r2,
    ensures
        delay_for(r1) <= delay_for(r2),
{
    assert(r1 * (2 * DELAY_SPREAD_NANOS) <= r2 * (2 * DELAY_SPREAD_NANOS)) by (nonlinear_arith)
        requires
            r1 <= r2,
            DELAY_SPREAD_NANOS == 20_000_000,
    ;
    vstd::arithmetic::div_mod::lemma_div_is_ordered(
        r1 * (2 * DELAY_SPREAD_NANOS),
        r2 * (2 * DELAY_SPREAD_NANOS),
        0x1_0000_0000,
    );
}

/// Delivering the due entries loses and duplicates nothing: the due
/// payloads and the still-waiting entries together number as many as
/// the queue held.
pub proof fn lemma_release_conserves<T>(s: Seq<Pending<T>>, now: u64)
    ensures
        due_items(s, now).len() + waiting(s, now).len() == s.len(),
    decreases s.len(),
{
    if s.len() > 0 {
        lemma_release_conserves(s.drop_last(), now);
    }
}

/// Nothing is held back for ever: at the end of the clock every queued
/// payload is due, in queue order, and nothing keeps waiting.
pub proof fn lemma_all_due_at_clock_end<T>(s: Seq<Pending<T>>)
    ensures
        due_items(s, u64::MAX) == items_of(s),
        waiting(s, u64::MAX) == Seq::<Pending<T>>::empty(),
    decreases s.len(),
{
    if s.len() > 0 {
        lemma_all_due_at_clock_end(s.drop_last());
        assert(items_of(s) == items_of(s.drop_last()).push(s.last().item));
    } else {
        assert(items_of(s) == Seq::<T>::empty());
    }
}

/// Every payload still waiting after delivery is not yet due, and every
/// waiting entry came from the queue.
pub proof fn lemma_waiting_not_due<T>(s: Seq<Pending<T>>, now: u64)
    ensures
        forall|j: int| 0 <= j < waiting(s, now).len() ==> (#[trigger] waiting(s, now)[j]).release_at > now,
        forall|j: int| 0 <= j < waiting(s, now).len() ==> s.contains(#[trigger] waiting(s, now)[j]),
    decreases s.len(),
{
    if s.len() > 0 {
        lemma_waiting_not_due(s.drop_last(), now);
        let w = waiting(s.drop_last(), now);
        assert forall|j: int| 0 <= j < waiting(s, now).len() implies s.contains(#[trigger] waiting(s, now)[j]) by {
            if j < w.len() {
                assert(waiting(s, now)[j] == w[j]);
                assert(s.drop_last().contains(w[j]));
                let k = choose|k: int| 0 <= k < s.drop_last().len() && s.drop_last()[k] == w[j];
                assert(s[k] == w[j]);
            } else {
                assert(s[s.len() - 1] == waiting(s, now)[j]);
            }
        }
    }
}

} // verus!
