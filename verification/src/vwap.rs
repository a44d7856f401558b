//! Volume-weighted average price.
//!
//! Two forms are provided. `VWAP` is the plain running accumulator: its
//! value is the weighted average of every update it ever saw. `CandleWindow`
//! is the bounded rolling window used by the signal generator: it keeps only
//! the newest candles, filters stale or duplicate timestamps, and its value
//! is recomputed from the retained window alone, so evicted candles no
//! longer contribute.

use vstd::prelude::*;
use vstd::arithmetic::div_mod::{lemma_div_is_ordered, lemma_div_multiples_vanish};
use vstd::arithmetic::mul::{lemma_mul_inequality, lemma_mul_nonnegative};
use vstd::seq_lib::group_to_multiset_ensures;
use crate::fixed::MAX_PRICE;

verus! {

/// Largest admitted per-candle volume, in fixed-point units.
pub const MAX_VOLUME: u64 = 1_000_000_000_000_000;

/// Most candles a rolling window may retain.
pub const MAX_WINDOW: usize = 10_000;

/// The sum of `price * volume` over a sequence of updates.
pub open spec fn spec_sum_pv(s: Seq<(u64, u64)>) -> int
    decreases s.len(),
{
    if s.len() == 0 {
        0
    } else {
        spec_sum_pv(s.drop_last()) + s.last().0 * s.last().1
    }
}

/// The sum of `volume` over a sequence of updates.
pub open spec fn spec_sum_v(s: Seq<(u64, u64)>) -> int
    decreases s.len(),
{
    if s.len() == 0 {
        0
    } else {
        spec_sum_v(s.drop_last()) + s.last().1
    }
}

/// The volume-weighted average price of a sequence of updates: the quotient
/// of the two sums, or zero while no volume has been observed.
pub open spec fn spec_vwap(s: Seq<(u64, u64)>) -> int {
    if spec_sum_v(s) == 0 {
        0
    } else {
        spec_sum_pv(s) / spec_sum_v(s)
    }
}

/// Every update's price at most `MAX_PRICE` and volume at most `MAX_VOLUME`.
pub open spec fn updates_bounded(s: Seq<(u64, u64)>) -> bool {
    forall|i: int|
        0 <= i < s.len() ==> (#[trigger] s[i]).0 <= MAX_PRICE && s[i].1 <= MAX_VOLUME
}

/// Both sums are non-negative, bounded by the count of updates times the
/// per-update caps, and the price-volume sum is at most `MAX_PRICE` times
/// the volume sum.
pub proof fn lemma_sums_bounded(s: Seq<(u64, u64)>)
    requires
        updates_bounded(s),
    ensures
        0 <= spec_sum_v(s) <= s.len() * (MAX_VOLUME as int),
        0 <= spec_sum_pv(s) <= (MAX_PRICE as int) * spec_sum_v(s),
    decreases s.len(),
{
    if s.len() == 0 {
    } else {
        assert(updates_bounded(s.drop_last())) by {
            assert(forall|i: int|
                0 <= i < s.drop_last().len() ==> #[trigger] s.drop_last()[i] == s[i]);
        };
        lemma_sums_bounded(s.drop_last());
        let x = s.last();
        lemma_mul_nonnegative(x.0 as int, x.1 as int);
        lemma_mul_inequality(x.0 as int, MAX_PRICE as int, x.1 as int);
        assert((MAX_PRICE as int) * spec_sum_v(s) == (MAX_PRICE as int) * spec_sum_v(s.drop_last())
            + (MAX_PRICE as int) * x.1) by (nonlinear_arith)
            requires
                spec_sum_v(s) == spec_sum_v(s.drop_last()) + x.1,
        ;
    }
}

/// Removing the update at index `i` takes exactly its contribution out of
/// both sums.
pub proof fn lemma_sum_remove(s: Seq<(u64, u64)>, i: int)
    requires
        0 <= i < s.len(),
    ensures
        spec_sum_pv(s.remove(i)) == spec_sum_pv(s) - s[i].0 * s[i].1,
        spec_sum_v(s.remove(i)) == spec_sum_v(s) - s[i].1,
    decreases s.len(),
{
    if i == s.len() - 1 {
        assert(s.remove(i) =~= s.drop_last());
    } else {
        let sr = s.remove(i);
        assert(sr.last() == s.last());
        assert(sr.drop_last() =~= s.drop_last().remove(i));
        lemma_sum_remove(s.drop_last(), i);
    }
}

/// The two sums — and with them the weighted average — are invariant under
/// any reordering of the updates: sequences with the same multiset of
/// updates have the same sums and the same average.
pub proof fn lemma_vwap_reorder(s1: Seq<(u64, u64)>, s2: Seq<(u64, u64)>)
    requires
        s1.to_multiset() == s2.to_multiset(),
    ensures
        spec_sum_pv(s1) == spec_sum_pv(s2),
        spec_sum_v(s1) == spec_sum_v(s2),
        spec_vwap(s1) == spec_vwap(s2),
    decreases s1.len(),
{
    broadcast use group_to_multiset_ensures;

    if s1.len() == 0 {
        assert(s2.to_multiset().len() == 0);
        assert(s2.len() == 0);
    } else {
        let x = s1.last();
        let last = s1.len() - 1;
        assert(s1.contains(x));
        assert(s1.to_multiset().count(x) > 0);
        assert(s2.contains(x));
        let i = choose|i: int| 0 <= i < s2.len() && s2[i] == x;
        assert(s1.drop_last() =~= s1.remove(last));
        assert(s1.remove(last).to_multiset() =~= s1.to_multiset().remove(x));
        assert(s2.remove(i).to_multiset() =~= s2.to_multiset().remove(x));
        assert(s1.drop_last().to_multiset() == s2.remove(i).to_multiset());
        lemma_vwap_reorder(s1.drop_last(), s2.remove(i));
        lemma_sum_remove(s2, i);
    }
}

/// The plain running accumulator: the sums over every update it ever saw,
/// with the full update history as its abstract state.
pub struct VWAP {
    sum_pv: u128,
    sum_v: u128,
    count: u64,
    history: Ghost<Seq<(u64, u64)>>,
}

impl View for VWAP {
    type V = Seq<(u64, u64)>;

    closed spec fn view(&self) -> Seq<(u64, u64)> {
        self.history@
    }
}

impl VWAP {
    /// The accumulator invariant: the stored sums are the sums over the
    /// history, every update was within the admitted caps, and the count
    /// matches the history.
    pub closed spec fn wf(self) -> bool {
        &&& self.sum_pv as int == spec_sum_pv(self.history@)
        &&& self.sum_v as int == spec_sum_v(self.history@)
        &&& self.count as int == self.history@.len()
        &&& updates_bounded(self.history@)
    }

    /// How many updates the accumulator has absorbed.
    pub fn count(&self) -> (r: u64)
        requires
            self.wf(),
        ensures
            r == self@.len(),
    {
        self.count
    }

    /// A fresh accumulator: no updates yet, so its value is zero.
    pub fn new() -> (r: VWAP)
        ensures
            r.wf(),
            r@ =~= Seq::<(u64, u64)>::empty(),
    {
        VWAP { sum_pv: 0, sum_v: 0, count: 0, history: Ghost(Seq::empty()) }
    }

    /// Absorbs one `(price, volume)` observation.
    pub fn update(&mut self, price: u64, volume: u64)
        requires
            old(self).wf(),
            price <= MAX_PRICE,
            volume <= MAX_VOLUME,
            old(self)@.len() < u32::MAX,
        ensures
            final(self).wf(),
            final(self)@ == old(self)@.push((price, volume)),
    {
        proof {
            lemma_sums_bounded(self.history@);
            lemma_mul_nonnegative(price as int, volume as int);
            lemma_mul_inequality(price as int, MAX_PRICE as int, volume as int);
            lemma_mul_inequality(volume as int, MAX_VOLUME as int, MAX_PRICE as int);
            lemma_mul_inequality(
                spec_sum_v(self.history@),
                (u32::MAX as int) * (MAX_VOLUME as int),
                MAX_PRICE as int,
            );
            assert((MAX_PRICE as int) * spec_sum_v(self.history@) == spec_sum_v(self.history@) * (
            MAX_PRICE as int)) by (nonlinear_arith);
            assert(self.history@.push((price, volume)).drop_last() =~= self.history@);
        }
        self.sum_pv = self.sum_pv + (price as u128) * (volume as u128);
        self.sum_v = self.sum_v + (volume as u128);
        self.count = self.count + 1;
        self.history = Ghost(self.history@.push((price, volume)));
    }

    /// The volume-weighted average of everything absorbed so far: exactly
    /// the quotient of the running sums, and exactly zero while no volume
    /// has been observed.
    pub fn value(&self) -> (r: u64)
        requires
            self.wf(),
        ensures
            r == spec_vwap(self@),
            self@.len() == 0 ==> r == 0,
    {
        proof {
            lemma_sums_bounded(self.history@);
            if spec_sum_v(self.history@) > 0 {
                lemma_div_is_ordered(
                    spec_sum_pv(self.history@),
                    (MAX_PRICE as int) * spec_sum_v(self.history@),
                    spec_sum_v(self.history@),
                );
                lemma_div_multiples_vanish(MAX_PRICE as int, spec_sum_v(self.history@));
                lemma_div_is_ordered(0, spec_sum_pv(self.history@), spec_sum_v(self.history@));
            }
        }
        if self.sum_v > 0 {
            (self.sum_pv / self.sum_v) as u64
        } else {
            0
        }
    }
}

/// A bounded rolling window of candles for one timeframe. Only the newest
/// `max_len` candles are retained; stale or repeated timestamps are
/// filtered out; and the window's average is computed from the retained
/// candles alone, so evicted candles no longer contribute.
#[derive(Debug)]
pub struct CandleWindow {
    pub max_len: usize,
    pub candles: Vec<(u64, u64)>,
    pub last_ts: i64,
}

impl CandleWindow {
    /// The window invariant: the capacity is within the admitted range, the
    /// window never exceeds it, and every retained candle is within the
    /// per-candle caps.
    pub open spec fn wf(self) -> bool {
        &&& 1 <= self.max_len <= MAX_WINDOW
        &&& self.candles@.len() <= self.max_len
        &&& updates_bounded(self.candles@)
    }

    /// A fresh, empty window retaining at most `max_len` candles.
    pub fn new(max_len: usize) -> (r: CandleWindow)
        requires
            1 <= max_len <= MAX_WINDOW,
        ensures
            r.wf(),
            r.max_len == max_len,
            r.candles@ =~= Seq::<(u64, u64)>::empty(),
            r.last_ts == 0,
    {
        CandleWindow { max_len, candles: Vec::new(), last_ts: 0 }
    }

    /// How many candles the window currently retains.
    pub fn len(&self) -> (r: usize)
        ensures
            r == self.candles@.len(),
    {
        self.candles.len()
    }

    /// Offers one closed candle to the window. A candle whose close
    /// timestamp does not come after the last accepted one is stale or a
    /// duplicate and is ignored. A fresh candle is appended, evicting the
    /// oldest retained candle if the window is full.
    pub fn push_candle(&mut self, price: u64, volume: u64, ts: i64) -> (fresh: bool)
        requires
            old(self).wf(),
            price <= MAX_PRICE,
            volume <= MAX_VOLUME,
        ensures
            final(self).wf(),
            fresh == (ts > old(self).last_ts),
            !fresh ==> *final(self) == *old(self),
            fresh ==> {
                &&& final(self).last_ts == ts
                &&& final(self).max_len == old(self).max_len
                &&& final(self).candles@ == if old(self).candles@.len() == old(self).max_len {
                    old(self).candles@.remove(0).push((price, volume))
                } else {
                    old(self).candles@.push((price, volume))
                }
            },
    {
        if ts <= self.last_ts {
            return false;
        }
        if self.candles.len() == self.max_len {
            self.candles.remove(0);
        }
        self.candles.push((price, volume));
        self.last_ts = ts;
        true
    }

    /// Recomputes the two sums from the retained window.
    pub fn sums(&self) -> (r: (u128, u128))
        requires
            self.wf(),
        ensures
            r.0 == spec_sum_pv(self.candles@),
            r.1 == spec_sum_v(self.candles@),
            0 <= r.1 <= (MAX_WINDOW as int) * (MAX_VOLUME as int),
    {
        let s = &self.candles;
        let n = s.len();
        let mut pv: u128 = 0;
        let mut v: u128 = 0;
        let mut i: usize = 0;
        proof {
            assert(s@.take(0) =~= Seq::<(u64, u64)>::empty());
        }
        while i < n
            invariant
                self.wf(),
                n == s@.len(),
                s == self.candles,
                0 <= i <= n,
                pv as int == spec_sum_pv(s@.take(i as int)),
                v as int == spec_sum_v(s@.take(i as int)),
            decreases n - i,
        {
            let (p, vol) = s[i];
            proof {
                let t1 = s@.take(i + 1);
                assert(t1.drop_last() =~= s@.take(i as int));
                assert(t1.last() == s@[i as int]);
                assert(updates_bounded(t1)) by {
                    assert(forall|j: int| 0 <= j < t1.len() ==> #[trigger] t1[j] == s@[j]);
                };
                lemma_sums_bounded(t1);
                lemma_mul_inequality(
                    spec_sum_v(t1),
                    (MAX_WINDOW as int) * (MAX_VOLUME as int),
                    MAX_PRICE as int,
                );
                assert((MAX_PRICE as int) * spec_sum_v(t1) == spec_sum_v(t1) * (MAX_PRICE as int))
                    by (nonlinear_arith);
            }
            pv = pv + (p as u128) * (vol as u128);
            v = v + (vol as u128);
            i = i + 1;
        }
        proof {
            assert(s@.take(n as int) =~= s@);
            lemma_sums_bounded(s@);
            lemma_mul_inequality(s@.len() as int, MAX_WINDOW as int, MAX_VOLUME as int);
        }
        (pv, v)
    }

    /// The volume-weighted average price of the retained window: the
    /// quotient of the recomputed sums, or zero while the window has seen
    /// no volume.
    pub fn value(&self) -> (r: u64)
        requires
            self.wf(),
        ensures
            r == spec_vwap(self.candles@),
            self.candles@.len() == 0 ==> r == 0,
    {
        let (pv, v) = self.sums();
        proof {
            lemma_sums_bounded(self.candles@);
            if spec_sum_v(self.candles@) > 0 {
                lemma_div_is_ordered(
                    spec_sum_pv(self.candles@),
                    (MAX_PRICE as int) * spec_sum_v(self.candles@),
                    spec_sum_v(self.candles@),
                );
                lemma_div_multiples_vanish(MAX_PRICE as int, spec_sum_v(self.candles@));
                lemma_div_is_ordered(0, spec_sum_pv(self.candles@), spec_sum_v(self.candles@));
            }
        }
        if v > 0 {
            (pv / v) as u64
        } else {
            0
        }
    }
}

} // verus!
