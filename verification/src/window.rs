//! Bounded FIFO sample windows with oldest-first eviction.
//!
//! A sample is a non-negative duration in nanoseconds (either a ping round
//! trip or a per-byte transmission rate). A window retains at most
//! `capacity` samples; pushing onto a full window evicts exactly the oldest
//! sample. A window of capacity zero is degenerate: pushes are no-ops and
//! the average is always empty.

use vstd::arithmetic::div_mod::{lemma_div_is_ordered, lemma_div_multiples_vanish};
use vstd::prelude::*;

verus! {

/// What one bounded push does to the sample sequence `w` under capacity `cap`:
/// append, evicting the single oldest sample first when `w` is full.
pub open spec fn window_push(w: Seq<u64>, cap: nat, s: u64) -> Seq<u64> {
    if cap == 0 {
        w
    } else if w.len() < cap {
        w.push(s)
    } else {
        w.drop_first().push(s)
    }
}

/// The contents of an initially empty window of capacity `cap` after pushing
/// every sample of `pushed`, in order.
pub open spec fn window_after(cap: nat, pushed: Seq<u64>) -> Seq<u64>
    decreases pushed.len(),
{
    if pushed.len() == 0 {
        Seq::empty()
    } else {
        window_push(window_after(cap, pushed.drop_last()), cap, pushed.last())
    }
}

/// Sum of a sample sequence, as a mathematical integer.
pub open spec fn sum_of(s: Seq<u64>) -> int
    decreases s.len(),
{
    if s.len() == 0 {
        0
    } else {
        sum_of(s.drop_last()) + s.last()
    }
}

/// Arithmetic mean of a sample sequence, truncated to whole nanoseconds;
/// `None` when there are no samples.
pub open spec fn mean_of(s: Seq<u64>) -> Option<u64> {
    if s.len() == 0 {
        None
    } else {
        Some((sum_of(s) / (s.len() as int)) as u64)
    }
}

/// Arithmetic mean of a non-empty sample sequence, as a natural number.
pub open spec fn mean_val(s: Seq<u64>) -> nat
    recommends
        s.len() > 0,
{
    (sum_of(s) / (s.len() as int)) as nat
}

/// The sum of `n` samples is at most `n` times the largest sample value.
pub proof fn lemma_sum_bound(s: Seq<u64>)
    ensures
        0 <= sum_of(s) <= s.len() * (u64::MAX as int),
    decreases s.len(),
{
    if s.len() == 0 {
    } else {
        lemma_sum_bound(s.drop_last());
        assert(s.len() * (u64::MAX as int) == (s.len() - 1) * (u64::MAX as int) + u64::MAX) by (
        nonlinear_arith);
    }
}

/// The mean of a non-empty sample sequence is itself a valid sample value,
/// so truncating it to `u64` loses nothing.
pub proof fn lemma_mean_fits(s: Seq<u64>)
    requires
        s.len() > 0,
    ensures
        0 <= sum_of(s) / (s.len() as int) <= u64::MAX,
{
    lemma_sum_bound(s);
    lemma_div_is_ordered(0, sum_of(s), s.len() as int);
    lemma_div_is_ordered(sum_of(s), s.len() * (u64::MAX as int), s.len() as int);
    lemma_div_multiples_vanish(u64::MAX as int, s.len() as int);
}

/// The truncated mean of a non-empty sample sequence is a valid sample
/// value, and `mean_of` returns exactly it.
pub proof fn lemma_mean_of_val(s: Seq<u64>)
    requires
        s.len() > 0,
    ensures
        mean_val(s) <= u64::MAX,
        mean_of(s) == Some(mean_val(s) as u64),
{
    lemma_mean_fits(s);
}

/// A bounded FIFO of samples: insertion order is preserved and the oldest
/// sample is evicted first once `capacity` samples are held.
pub struct SlidingWindow {
    samples: Vec<u64>,
    capacity: usize,
}

impl View for SlidingWindow {
    type V = Seq<u64>;

    closed spec fn view(&self) -> Seq<u64> {
        self.samples@
    }
}

impl SlidingWindow {
    /// The number of samples this window retains.
    pub closed spec fn cap(&self) -> nat {
        self.capacity as nat
    }

    pub open spec fn well_formed(&self) -> bool {
        self@.len() <= self.cap()
    }

    pub fn new(window_size: usize) -> (w: SlidingWindow)
        ensures
            w@ == Seq::<u64>::empty(),
            w.cap() == window_size,
            w.well_formed(),
    {
        SlidingWindow { samples: Vec::new(), capacity: window_size }
    }

    pub fn capacity(&self) -> (c: usize)
        ensures
            c == self.cap(),
    {
        self.capacity
    }

    pub fn len(&self) -> (n: usize)
        ensures
            n == self@.len(),
    {
        self.samples.len()
    }

    /// Appends `sample`, evicting the single oldest sample first if the
    /// window is already full; a no-op on a window of capacity zero.
    pub fn push(&mut self, sample: u64)
        requires
            old(self).well_formed(),
        ensures
            final(self).well_formed(),
            final(self).cap() == old(self).cap(),
            final(self)@ == window_push(old(self)@, old(self).cap(), sample),
    {
        if self.capacity == 0 {
            return ;
        }
        if self.samples.len() == self.capacity {
            self.samples.remove(0);
            proof {
                assert(self.samples@ =~= old(self)@.drop_first());
            }
        }
        self.samples.push(sample);
    }

    /// Returns a copy of the retained samples, oldest first.
    pub fn samples(&self) -> (v: Vec<u64>)
        ensures
            v@ == self@,
    {
        let mut v: Vec<u64> = Vec::new();
        let mut i: usize = 0;
        while i < self.samples.len()
            invariant
                i <= self@.len(),
                v@ == self@.take(i as int),
            decreases self@.len() - i,
        {
            v.push(self.samples[i]);
            proof {
                assert(v@ =~= self@.take(i + 1));
            }
            i = i + 1;
        }
        proof {
            assert(self@.take(self@.len() as int) =~= self@);
        }
        v
    }

    /// The arithmetic mean of the current samples, truncated to whole
    /// nanoseconds, or `None` when the window is empty. Never divides by
    /// zero.
    pub fn average(&self) -> (r: Option<u64>)
        ensures
            r == mean_of(self@),
    {
        let n = self.samples.len();
        if n == 0 {
            return None;
        }
        let mut acc: u128 = 0;
        let mut i: usize = 0;
        while i < n
            invariant
                i <= n,
                n == self@.len(),
                acc == sum_of(self@.take(i as int)),
                acc <= i * (u64::MAX as int),
            decreases n - i,
        {
            proof {
                assert(self@.take(i + 1).drop_last() =~= self@.take(i as int));
                assert((i + 1) * (u64::MAX as int) == i * (u64::MAX as int) + u64::MAX) by (
                nonlinear_arith);
                assert(i * (u64::MAX as int) <= (usize::MAX as int) * (u64::MAX as int)) by (
                nonlinear_arith)
                    requires
                        0 <= i <= usize::MAX,
                ;
            }
            acc = acc + (self.samples[i] as u128);
            i = i + 1;
        }
        proof {
            assert(self@.take(n as int) =~= self@);
            lemma_mean_fits(self@);
            lemma_div_is_ordered(0, sum_of(self@), n as int);
        }
        Some((acc / (n as u128)) as u64)
    }
}

/// The window length after `N` pushes into an initially empty window of
/// capacity `K` is the smaller of `N` and `K`.
pub proof fn lemma_window_after_len(cap: nat, pushed: Seq<u64>)
    ensures
        window_after(cap, pushed).len() == if pushed.len() <= cap {
            pushed.len() as int
        } else {
            cap as int
        },
    decreases pushed.len(),
{
    if pushed.len() == 0 {
    } else {
        lemma_window_after_len(cap, pushed.drop_last());
    }
}

/// After any `N >= K` pushes into an initially empty window of capacity `K`,
/// the window holds exactly the last `K` samples pushed, in push order; with
/// fewer pushes it holds every sample pushed so far, in push order.
pub proof fn lemma_window_after_keeps_last(cap: nat, pushed: Seq<u64>)
    ensures
        window_after(cap, pushed) =~= pushed.skip(
            if pushed.len() <= cap {
                0
            } else {
                pushed.len() - cap
            },
        ),
    decreases pushed.len(),
{
    lemma_window_after_len(cap, pushed);
    if pushed.len() == 0 {
    } else {
        let head = pushed.drop_last();
        lemma_window_after_keeps_last(cap, head);
        lemma_window_after_len(cap, head);
    }
}

} // verus!
