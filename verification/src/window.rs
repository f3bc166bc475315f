//! Bounded FIFO sample windows and their mean-threshold test.
//!
//! A window holds the most recent samples of one utilization signal, oldest
//! first, never more than its configured capacity. The eviction policy asks
//! whether the mean of a full window is strictly below a threshold; with
//! integer samples that comparison is made exactly as `sum < threshold * len`.

use vstd::prelude::*;

verus! {

/// The window after pushing `x` into `w` under capacity `cap`: the sample is
/// appended and, if the window then exceeds its capacity, the oldest sample
/// is dropped.
pub open spec fn push_window(w: Seq<u64>, cap: nat, x: u64) -> Seq<u64> {
    let grown = w.push(x);
    if grown.len() > cap {
        grown.drop_first()
    } else {
        grown
    }
}

/// Sum of all samples in a window.
pub open spec fn window_sum(w: Seq<u64>) -> int
    decreases w.len(),
{
    if w.len() == 0 {
        0
    } else {
        window_sum(w.drop_last()) + w.last()
    }
}

/// A full window whose mean is strictly below `threshold`: the window holds
/// exactly `cap` samples (a non-disabled capacity) and `sum / cap < threshold`,
/// stated without division as `sum < threshold * cap`.
pub open spec fn window_breaches(w: Seq<u64>, cap: nat, threshold: u64) -> bool {
    &&& cap > 0
    &&& w.len() == cap
    &&& window_sum(w) < threshold * cap
}

/// The mean of a non-empty window, rounded toward zero.
pub open spec fn window_mean(w: Seq<u64>) -> int
    recommends
        w.len() > 0,
{
    window_sum(w) / (w.len() as int)
}

pub proof fn lemma_window_sum_nonneg(w: Seq<u64>)
    ensures
        window_sum(w) >= 0,
    decreases w.len(),
{
    if w.len() > 0 {
        lemma_window_sum_nonneg(w.drop_last());
    }
}

pub proof fn lemma_window_sum_bound(w: Seq<u64>)
    ensures
        window_sum(w) <= w.len() * (u64::MAX as int),
    decreases w.len(),
{
    if w.len() == 0 {
    } else {
        lemma_window_sum_bound(w.drop_last());
        assert(w.len() * (u64::MAX as int) == (w.len() - 1) * (u64::MAX as int) + (
        u64::MAX as int)) by (nonlinear_arith);
    }
}

/// Pushes one sample into a bounded FIFO window, dropping the oldest sample
/// if the capacity would otherwise be exceeded.
pub fn push_sample(w: &mut Vec<u64>, cap: usize, x: u64)
    requires
        old(w)@.len() <= cap,
    ensures
        final(w)@ == push_window(old(w)@, cap as nat, x),
        final(w)@.len() <= cap,
{
    w.push(x);
    if w.len() > cap {
        w.remove(0);
        assert(w@ =~= push_window(old(w)@, cap as nat, x));
    }
}

/// Sum of the samples of a window, exact (a 128-bit accumulator cannot
/// overflow: fewer than 2^64 samples, each below 2^64).
pub fn sum_samples(w: &Vec<u64>) -> (s: u128)
    ensures
        s == window_sum(w@),
{
    let mut s: u128 = 0;
    let mut i: usize = 0;
    while i < w.len()
        invariant
            i <= w@.len(),
            s == window_sum(w@.take(i as int)),
        decreases w@.len() - i,
    {
        proof {
            lemma_window_sum_bound(w@.take(i as int));
            assert(i * (u64::MAX as int) + (u64::MAX as int) < (u128::MAX as int))
                by (nonlinear_arith)
                requires
                    0 <= i < 0x1_0000_0000_0000_0000,
            ;
            assert(w@.take(i + 1).drop_last() =~= w@.take(i as int));
        }
        s = s + (w[i] as u128);
        i = i + 1;
    }
    proof {
        assert(w@.take(w@.len() as int) =~= w@);
    }
    s
}

/// Whether a window with configured capacity `cap` is full and its mean is
/// strictly below `threshold`; a window that is not yet full, or whose
/// capacity is 0, never breaches.
pub fn breaches(w: &Vec<u64>, cap: usize, threshold: u64) -> (r: bool)
    ensures
        r == window_breaches(w@, cap as nat, threshold),
{
    if cap == 0 || w.len() != cap {
        return false;
    }
    let s = sum_samples(w);
    proof {
        assert((threshold as int) * (cap as int) <= (u128::MAX as int)) by (nonlinear_arith)
            requires
                0 <= threshold < 0x1_0000_0000_0000_0000,
                0 <= cap < 0x1_0000_0000_0000_0000,
        ;
    }
    s < (threshold as u128) * (cap as u128)
}

/// The mean of a non-empty window, rounded toward zero; fits in a `u64`
/// because the mean never exceeds the largest sample.
pub fn mean_samples(w: &Vec<u64>) -> (m: u64)
    requires
        w@.len() > 0,
    ensures
        m == window_mean(w@),
{
    let s = sum_samples(w);
    let len = w.len();
    proof {
        lemma_window_sum_nonneg(w@);
        lemma_window_sum_bound(w@);
        assert(window_sum(w@) / (len as int) <= u64::MAX as int) by (nonlinear_arith)
            requires
                0 < len,
                0 <= window_sum(w@) <= (len as int) * (u64::MAX as int),
        ;
    }
    (s / (len as u128)) as u64
}

} // verus!
