//! Sample filters for analog scanning, and the analog threshold adapter.
//!
//! A hardware scan loop reads raw analog samples, runs them through an
//! [`AdcFilter`], and publishes every stabilized value it gets on a
//! [`crate::bus::BroadcastBus`]; between two raw reads it pauses for the
//! delay the filter asks for. A read failure skips the cycle — nothing is
//! published and the loop proceeds straight to the delay.
//!
//! [`SimpleAdcButton`] is the logical-button side: it decides, per
//! published sample, whether its voltage window reads as pressed.

use vstd::prelude::*;
use vstd::relations::sorted_by;
use vstd::relations::total_ordering;
use vstd::seq_lib::lemma_sorted_unique;

verus! {

/// The order in which the median filter ranks samples.
pub open spec fn sample_order() -> spec_fn(u16, u16) -> bool {
    |a: u16, b: u16| a <= b
}

/// The median of a sample window: the middle element (the upper one for an
/// even length) of the window in sorted order.
pub open spec fn median_of(s: Seq<u16>) -> u16 {
    s.sort_by(sample_order())[s.len() as int / 2]
}

proof fn lemma_sample_order_total()
    ensures
        total_ordering(sample_order()),
{
    let leq = sample_order();
    assert forall|x: u16, y: u16| #[trigger] leq(x, y) || #[trigger] leq(y, x) by {}
}

/// A stateful transform from raw analog readings to stabilized values.
///
/// `process` consumes one raw sample and yields a stabilized value once
/// the filter has seen enough; `inter_sample_delay` is the pause the
/// filter asks for between two raw reads, so it can pace the source.
/// `inv` is the filter's own well-formedness: constructors of the
/// provided filters establish it and `process` preserves it.
pub trait AdcFilter {
    /// Filter-specific well-formedness.
    spec fn inv(&self) -> bool;

    /// Feeds one raw sample; returns a stabilized value when one is ready.
    fn process(&mut self, new_sample: u16) -> (r: Option<u16>)
        requires
            old(self).inv(),
        ensures
            final(self).inv(),
    ;

    /// The pause to insert between two raw reads, in ticks.
    fn inter_sample_delay(&self) -> u64;
}

/// The trivial filter: every raw sample is immediately valid, no pacing.
pub struct RawFilter;

impl Default for RawFilter {
    fn default() -> (r: Self)
        ensures
            r.inv(),
    {
        RawFilter
    }
}

impl AdcFilter for RawFilter {
    closed spec fn inv(&self) -> bool {
        true
    }

    fn process(&mut self, new_sample: u16) -> (r: Option<u16>)
        ensures
            r == Some(new_sample),
    {
        Some(new_sample)
    }

    fn inter_sample_delay(&self) -> (d: u64)
        ensures
            d == 0,
    {
        0
    }
}

/// A median filter over a fixed window: it accumulates `size()` raw
/// samples, then emits their median and starts the next window at once.
/// Between raw reads it asks for a short settle delay.
pub struct MedianFilter {
    samples: Vec<u16>,
    index: usize,
}

impl MedianFilter {
    /// The window length the filter was built with.
    pub closed spec fn size(&self) -> int {
        self.samples@.len() as int
    }

    /// The raw samples accumulated so far in the current window.
    pub closed spec fn window(&self) -> Seq<u16> {
        self.samples@.take(self.index as int)
    }

    /// A median filter over windows of `n` samples. A zero-sized window
    /// would make the median meaningless, so it is rejected here, at
    /// construction time.
    pub fn new(n: usize) -> (f: MedianFilter)
        requires
            n >= 1,
        ensures
            f.inv(),
            f.size() == n,
            f.window() == Seq::<u16>::empty(),
    {
        let mut samples: Vec<u16> = Vec::new();
        let mut i: usize = 0;
        while i < n
            invariant
                i <= n,
                samples@.len() == i,
            decreases n - i,
        {
            samples.push(0);
            i += 1;
        }
        let f = MedianFilter { samples, index: 0 };
        proof {
            assert(f.window() =~= Seq::<u16>::empty());
        }
        f
    }
}

impl AdcFilter for MedianFilter {
    closed spec fn inv(&self) -> bool {
        self.index < self.samples@.len()
    }

    /// Stores the sample; on the window's last slot, emits the median of
    /// the whole window and resets for the next one.
    fn process(&mut self, new_sample: u16) -> (r: Option<u16>)
        ensures
            final(self).size() == old(self).size(),
            old(self).window().len() + 1 < old(self).size() ==> {
                &&& r is None
                &&& final(self).window() == old(self).window().push(new_sample)
            },
            old(self).window().len() + 1 == old(self).size() ==> {
                &&& r == Some(median_of(old(self).window().push(new_sample)))
                &&& final(self).window() == Seq::<u16>::empty()
            },
    {
        proof {
            assert(old(self).window().len() == old(self).index);
        }
        let n = self.samples.len();
        self.samples.set(self.index, new_sample);
        if self.index + 1 < n {
            self.index = self.index + 1;
            proof {
                assert(self.samples@.take(self.index as int) =~= old(self).samples@.take(
                    old(self).index as int,
                ).push(new_sample));
            }
            None
        } else {
            let ghost full = old(self).window().push(new_sample);
            proof {
                assert(self.samples@ =~= full);
            }
            let sorted = sorted_copy(&self.samples);
            proof {
                lemma_sample_order_total();
                full.lemma_sort_by_ensures(sample_order());
                broadcast use vstd::seq_lib::group_to_multiset_ensures;

                assert(sorted@.to_multiset() == full.to_multiset());
                lemma_sorted_unique(sorted@, full.sort_by(sample_order()), sample_order());
                assert(sorted@.to_multiset().len() == sorted@.len());
                assert(full.to_multiset().len() == full.len());
                assert(sorted@.len() == full.len());
            }
            let m = sorted[n / 2];
            self.index = 0;
            proof {
                assert(self.samples@.take(0int) =~= Seq::<u16>::empty());
            }
            Some(m)
        }
    }

    /// A fixed short settle delay between raw reads.
    fn inter_sample_delay(&self) -> (d: u64)
        ensures
            d == 100,
    {
        100
    }
}

/// Inserting anywhere in a sequence adds exactly that element to its
/// multiset of values.
proof fn lemma_insert_multiset(s: Seq<u16>, i: int, x: u16)
    requires
        0 <= i <= s.len(),
    ensures
        s.insert(i, x).to_multiset() == s.to_multiset().insert(x),
{
    broadcast use vstd::seq_lib::group_to_multiset_ensures;

    let t = s.insert(i, x);
    assert(t.remove(i) =~= s);
    assert(t[i] == x);
    assert(t.to_multiset().remove(x) == s.to_multiset());
    assert(t.contains(x));
    assert(t.to_multiset().count(x) > 0);
    assert(t.to_multiset() =~= s.to_multiset().insert(x));
}

/// Inserts `x` into an already sorted vector, keeping it sorted.
fn sorted_insert(out: &mut Vec<u16>, x: u16)
    requires
        sorted_by(old(out)@, sample_order()),
    ensures
        sorted_by(final(out)@, sample_order()),
        final(out)@.to_multiset() == old(out)@.to_multiset().insert(x),
{
    let mut k: usize = 0;
    while k < out.len() && out[k] <= x
        invariant
            k <= out@.len(),
            out@ == old(out)@,
            forall|t: int| 0 <= t < k ==> #[trigger] out@[t] <= x,
        decreases out@.len() - k,
    {
        k += 1;
    }
    let ghost before = out@;
    out.insert(k, x);
    proof {
        lemma_insert_multiset(before, k as int, x);
        let leq = sample_order();
        assert forall|a: int, b: int|
            0 <= a < b < out@.len() implies #[trigger] leq(out@[a], out@[b]) by {
            if a < k && b < k {
                assert(out@[a] == before[a] && out@[b] == before[b]);
            } else if a < k && b == k {
                assert(out@[a] == before[a] && out@[b] == x);
            } else if a < k && b > k {
                assert(out@[a] == before[a] && out@[b] == before[b - 1]);
            } else if a == k && b > k {
                // Everything at or past the insertion point exceeds x: the
                // scan stopped at the first element above it.
                assert(out@[b] == before[b - 1]);
                assert(leq(before[k as int], before[b - 1]));
            } else {
                assert(out@[a] == before[a - 1] && out@[b] == before[b - 1]);
            }
        }
    }
}

/// A sorted copy of `v`: same values, ranked by [`sample_order`].
fn sorted_copy(v: &Vec<u16>) -> (out: Vec<u16>)
    ensures
        sorted_by(out@, sample_order()),
        out@.to_multiset() == v@.to_multiset(),
{
    broadcast use vstd::seq_lib::group_to_multiset_ensures;

    let mut out: Vec<u16> = Vec::new();
    let mut i: usize = 0;
    proof {
        assert(v@.take(0int) =~= Seq::<u16>::empty());
        assert(out@.to_multiset() =~= v@.take(0int).to_multiset());
    }
    while i < v.len()
        invariant
            i <= v@.len(),
            sorted_by(out@, sample_order()),
            out@.to_multiset() == v@.take(i as int).to_multiset(),
        decreases v@.len() - i,
    {
        let x = v[i];
        sorted_insert(&mut out, x);
        proof {
            broadcast use vstd::seq_lib::group_to_multiset_ensures;

            assert(v@.take(i + 1 as int) =~= v@.take(i as int).push(x));
            assert(v@.take(i as int).push(x).to_multiset() == v@.take(
                i as int,
            ).to_multiset().insert(x));
        }
        i += 1;
    }
    proof {
        assert(v@.take(v@.len() as int) =~= v@);
    }
    out
}

/// The analog threshold adapter: a logical button that reads a published
/// sample as pressed exactly when it falls inside `[low, high]`.
pub struct SimpleAdcButton {
    threshold_low: u16,
    threshold_high: u16,
}

impl SimpleAdcButton {
    /// The lower bound of the pressed window, inclusive.
    pub closed spec fn threshold_low(&self) -> u16 {
        self.threshold_low
    }

    /// The upper bound of the pressed window, inclusive.
    pub closed spec fn threshold_high(&self) -> u16 {
        self.threshold_high
    }

    /// A threshold adapter for the window `[threshold_low, threshold_high]`.
    pub fn new(threshold_low: u16, threshold_high: u16) -> (b: SimpleAdcButton)
        ensures
            b.threshold_low() == threshold_low,
            b.threshold_high() == threshold_high,
    {
        SimpleAdcButton { threshold_low, threshold_high }
    }

    /// Does this published sample read as pressed?
    pub fn is_press_value(&self, value: u16) -> (r: bool)
        ensures
            r == (self.threshold_low() <= value <= self.threshold_high()),
    {
        self.threshold_low <= value && value <= self.threshold_high
    }

    /// Does this published sample read as released?
    pub fn is_release_value(&self, value: u16) -> (r: bool)
        ensures
            r == !(self.threshold_low() <= value <= self.threshold_high()),
    {
        value < self.threshold_low || value > self.threshold_high
    }
}

} // verus!
