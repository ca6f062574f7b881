//! The bounded history of mid prices and the statistics taken from it.
//!
//! A sample is a receipt time in milliseconds and a mid price in mid units.
//! Returns are fixed-point units rounded away from zero, so that a move that is
//! not zero never reads as zero and a comparison against a threshold in the
//! same units gives what the exact quotient would give.

use std::collections::VecDeque;
use vstd::prelude::*;

verus! {

/// How long a sample is kept, in milliseconds.
pub const RETENTION_MS: i64 = 60_000;

/// The largest magnitude of a mid price: five times the span of two prices.
pub const MID_LIMIT: i128 = 92_233_720_368_547_758_080;

/// A mid price and when it was seen.
#[derive(Debug, Clone, Copy, PartialEq, Eq, Structural)]
pub struct MidSample {
    pub t_ms: i64,
    pub mid: i128,
}

/// Timestamps never go down along the sequence.
pub open spec fn time_ordered(s: Seq<MidSample>) -> bool {
    forall|i: int, j: int| 0 <= i <= j < s.len() ==> s[i].t_ms <= s[j].t_ms
}

/// What a history may hold.
pub open spec fn history_wf(s: Seq<MidSample>) -> bool {
    &&& time_ordered(s)
    &&& forall|i: int| 0 <= i < s.len() ==> -MID_LIMIT <= #[trigger] s[i].mid <= MID_LIMIT
}

/// How many samples at the head are older than `cutoff`.
pub open spec fn stale_prefix(s: Seq<MidSample>, cutoff: int) -> nat
    decreases s.len(),
{
    if s.len() == 0 || s[0].t_ms >= cutoff {
        0
    } else {
        1 + stale_prefix(s.drop_first(), cutoff)
    }
}

/// The samples from the first one that is not older than `cutoff`.
pub open spec fn window(s: Seq<MidSample>, cutoff: int) -> Seq<MidSample> {
    s.skip(stale_prefix(s, cutoff) as int)
}

/// The time a new sample is stamped with: now, but never before the sample
/// that precedes it.
pub open spec fn stamp(s: Seq<MidSample>, now: int) -> int {
    if s.len() > 0 && s.last().t_ms > now {
        s.last().t_ms as int
    } else {
        now
    }
}

/// The history after a sample is recorded: the sample is appended and what is
/// older than the retention time, counted from the new sample, leaves.
pub open spec fn after_record(s: Seq<MidSample>, now: i64, mid: i128) -> Seq<MidSample> {
    let t = stamp(s, now as int);
    window(s.push(MidSample { t_ms: t as i64, mid }), t - RETENTION_MS)
}

/// `n / d` rounded away from zero, for `d > 0`.
pub open spec fn div_away(n: int, d: int) -> int {
    if n >= 0 {
        (n + d - 1) / d
    } else {
        -((-n + d - 1) / d)
    }
}

/// The return from `old` to `cur` in fixed-point units: `(cur - old) / old`,
/// rounded away from zero. `old` is not zero.
pub open spec fn return_between(old: int, cur: int) -> int {
    if old > 0 {
        div_away((cur - old) * 100_000_000, old)
    } else {
        div_away((old - cur) * 100_000_000, -old)
    }
}

/// The return over a lookback: from the oldest sample inside the window to the
/// newest sample. None with fewer than two samples, with no sample inside the
/// window, or where the oldest sample inside it is zero.
pub open spec fn returns_of(s: Seq<MidSample>, cutoff: int) -> Option<int> {
    let w = window(s, cutoff);
    if s.len() < 2 || w.len() == 0 || w[0].mid == 0 {
        None
    } else {
        Some(return_between(w[0].mid as int, s.last().mid as int))
    }
}

/// The stale prefix ends at the first sample that is not older than the
/// cutoff.
pub proof fn lemma_stale_prefix_bounds(s: Seq<MidSample>, cutoff: int)
    ensures
        stale_prefix(s, cutoff) <= s.len(),
        forall|i: int| 0 <= i < stale_prefix(s, cutoff) ==> s[i].t_ms < cutoff,
        stale_prefix(s, cutoff) < s.len() ==> s[stale_prefix(s, cutoff) as int].t_ms >= cutoff,
    decreases s.len(),
{
    if s.len() > 0 && s[0].t_ms < cutoff {
        let t = s.drop_first();
        lemma_stale_prefix_bounds(t, cutoff);
        assert forall|i: int| 0 <= i < stale_prefix(s, cutoff) implies s[i].t_ms < cutoff by {
            if i > 0 {
                assert(s[i] == t[i - 1]);
            }
        }
        if stale_prefix(s, cutoff) < s.len() {
            assert(s[stale_prefix(s, cutoff) as int] == t[stale_prefix(t, cutoff) as int]);
        }
    }
}

/// The index that splits samples older than `cutoff` from the rest.
pub proof fn lemma_stale_prefix_is(s: Seq<MidSample>, cutoff: int, k: int)
    requires
        0 <= k <= s.len(),
        forall|i: int| 0 <= i < k ==> s[i].t_ms < cutoff,
        k < s.len() ==> s[k].t_ms >= cutoff,
    ensures
        stale_prefix(s, cutoff) == k,
    decreases s.len(),
{
    if s.len() > 0 && k > 0 {
        let t = s.drop_first();
        assert forall|i: int| 0 <= i < k - 1 implies t[i].t_ms < cutoff by {
            assert(t[i] == s[i + 1]);
        }
        if k - 1 < t.len() {
            assert(t[k - 1] == s[k]);
        }
        lemma_stale_prefix_is(t, cutoff, k - 1);
    }
}

/// In a time-ordered history the window holds exactly the samples that are
/// not older than the cutoff.
pub proof fn law_window_holds_the_fresh_samples(s: Seq<MidSample>, cutoff: int)
    requires
        time_ordered(s),
    ensures
        forall|i: int| 0 <= i < window(s, cutoff).len() ==> window(s, cutoff)[i].t_ms >= cutoff,
        forall|i: int| 0 <= i < s.len() - window(s, cutoff).len() ==> s[i].t_ms < cutoff,
{
    lemma_stale_prefix_bounds(s, cutoff);
    let k = stale_prefix(s, cutoff) as int;
    assert forall|i: int| 0 <= i < window(s, cutoff).len() implies window(s, cutoff)[i].t_ms
        >= cutoff by {
        assert(window(s, cutoff)[i] == s[k + i]);
        assert(s[k].t_ms <= s[k + i].t_ms);
    }
}

/// Rust's truncating division, corrected by one where there is a remainder,
/// rounds away from zero.
proof fn lemma_div_away(n: int, d: int, q: int, r: int)
    requires
        d > 0,
        n >= 0,
        n == q * d + r,
        0 <= r < d,
    ensures
        div_away(n, d) == if r == 0 {
            q
        } else {
            q + 1
        },
{
    let m = n + d - 1;
    if r == 0 {
        assert(m == q * d + (d - 1));
        vstd::arithmetic::div_mod::lemma_fundamental_div_mod_converse(m, d, q, d - 1);
    } else {
        assert(m == (q + 1) * d + (r - 1)) by (nonlinear_arith)
            requires
                m == n + d - 1,
                n == q * d + r,
        ;
        vstd::arithmetic::div_mod::lemma_fundamental_div_mod_converse(m, d, q + 1, r - 1);
    }
}

/// `div_away` of two machine integers.
fn div_round_away(n: i128, d: i128) -> (q: i128)
    requires
        d > 0,
        -i128::MAX <= n <= i128::MAX - d,
    ensures
        q == div_away(n as int, d as int),
{
    if n >= 0 {
        let q = n / d;
        let r = n % d;
        proof {
            vstd::arithmetic::div_mod::lemma_fundamental_div_mod(n as int, d as int);
            assert(n == q * d + r) by (nonlinear_arith)
                requires
                    n == d * q + r,
            ;
            lemma_div_away(n as int, d as int, q as int, r as int);
        }
        if r == 0 {
            q
        } else {
            q + 1
        }
    } else {
        let m = -n;
        let q = m / d;
        let r = m % d;
        proof {
            vstd::arithmetic::div_mod::lemma_fundamental_div_mod(m as int, d as int);
            assert(m == q * d + r) by (nonlinear_arith)
                requires
                    m == d * q + r,
            ;
            lemma_div_away(m as int, d as int, q as int, r as int);
            if r != 0 {
                assert(q < m) by (nonlinear_arith)
                    requires
                        m == q * d + r,
                        r > 0,
                        d >= 1,
                        q >= 0,
                ;
            }
        }
        if r == 0 {
            -q
        } else {
            -(q + 1)
        }
    }
}

/// The return from `old` to `cur`, both mid prices within the limit.
pub fn return_from(old: i128, cur: i128) -> (r: i128)
    requires
        old != 0,
        -MID_LIMIT <= old <= MID_LIMIT,
        -MID_LIMIT <= cur <= MID_LIMIT,
    ensures
        r == return_between(old as int, cur as int),
{
    if old > 0 {
        div_round_away((cur - old) * 100_000_000, old)
    } else {
        div_round_away((old - cur) * 100_000_000, -old)
    }
}

/// The mid-price history.
pub struct MidHistory {
    samples: VecDeque<MidSample>,
}

impl View for MidHistory {
    type V = Seq<MidSample>;

    /// The samples, oldest first.
    closed spec fn view(&self) -> Seq<MidSample> {
        self.samples@
    }
}

impl MidHistory {
    /// Timestamps in order, mid prices within the limit.
    pub open spec fn wf(&self) -> bool {
        history_wf(self@)
    }

    /// An empty history.
    pub fn new() -> (h: Self)
        ensures
            h@ == Seq::<MidSample>::empty(),
            h.wf(),
    {
        MidHistory { samples: VecDeque::new() }
    }

    /// Number of samples held.
    pub fn len(&self) -> (n: usize)
        ensures
            n == self@.len(),
    {
        self.samples.len()
    }

    /// A copy of the samples, oldest first.
    pub fn to_vec(&self) -> (v: Vec<MidSample>)
        ensures
            v@ == self@,
    {
        let mut v: Vec<MidSample> = Vec::new();
        let mut i: usize = 0;
        while i < self.samples.len()
            invariant
                0 <= i <= self.samples@.len(),
                v@ == self.samples@.subrange(0, i as int),
            decreases self.samples@.len() - i,
        {
            v.push(self.samples[i]);
            proof {
                assert(v@ =~= self.samples@.subrange(0, i + 1));
            }
            i = i + 1;
        }
        proof {
            assert(self.samples@.subrange(0, i as int) =~= self.samples@);
        }
        v
    }

    /// The newest sample.
    pub fn latest(&self) -> (s: Option<MidSample>)
        ensures
            self@.len() == 0 ==> s is None,
            self@.len() > 0 ==> s == Some(self@.last()),
    {
        let n = self.samples.len();
        if n == 0 {
            None
        } else {
            Some(self.samples[n - 1])
        }
    }

    /// Records a mid price seen at `now` and evicts what has grown older than
    /// the retention time.
    pub fn record(&mut self, now: i64, mid: i128)
        requires
            old(self).wf(),
            -MID_LIMIT <= mid <= MID_LIMIT,
        ensures
            final(self).wf(),
            final(self)@ == after_record(old(self)@, now, mid),
            final(self)@.len() > 0,
            final(self)@.last().mid == mid,
            final(self)@.last().t_ms == stamp(old(self)@, now as int),
            forall|i: int|
                0 <= i < final(self)@.len() ==> (#[trigger] final(self)@[i]).t_ms >= final(self)@.last().t_ms - RETENTION_MS,
    {
        let n = self.samples.len();
        let t: i64 = if n > 0 && self.samples[n - 1].t_ms > now {
            self.samples[n - 1].t_ms
        } else {
            now
        };
        let sample = MidSample { t_ms: t, mid };
        self.samples.push_back(sample);
        let ghost full = self.samples@;
        let cutoff: i128 = t as i128 - RETENTION_MS as i128;
        let ghost mut k: int = 0;
        proof {
            assert(time_ordered(full));
            assert(full.skip(0) =~= full);
        }
        while self.samples.len() > 0 && (self.samples[0].t_ms as i128) < cutoff
            invariant
                0 <= k <= full.len(),
                self.samples@ == full.skip(k),
                forall|i: int| 0 <= i < k ==> full[i].t_ms < cutoff,
            decreases self.samples@.len(),
        {
            proof {
                assert(self.samples@[0] == full[k]);
                assert(full.skip(k).subrange(1, full.skip(k).len() as int) =~= full.skip(k + 1));
            }
            self.samples.pop_front();
            proof {
                k = k + 1;
            }
        }
        proof {
            if k < full.len() {
                assert(self.samples@[0] == full[k]);
            }
            lemma_stale_prefix_is(full, cutoff as int, k);
            law_window_holds_the_fresh_samples(full, cutoff as int);
            // the new sample itself is never evicted
            assert(full.last().t_ms >= cutoff);
            assert(k < full.len());
            assert(self.samples@.last() == full.last());
            assert forall|i: int, j: int| 0 <= i <= j < self.samples@.len() implies self.samples@[i].t_ms
                <= self.samples@[j].t_ms by {
                assert(self.samples@[i] == full[k + i]);
                assert(self.samples@[j] == full[k + j]);
            }
            assert forall|i: int| 0 <= i < self.samples@.len() implies -MID_LIMIT
                <= #[trigger] self.samples@[i].mid <= MID_LIMIT by {
                assert(self.samples@[i] == full[k + i]);
            }
        }
    }

    /// Index of the oldest sample not older than `cutoff`.
    fn first_fresh(&self, cutoff: i128) -> (k: usize)
        ensures
            k == stale_prefix(self@, cutoff as int),
            k <= self@.len(),
    {
        let mut k: usize = 0;
        while k < self.samples.len() && (self.samples[k].t_ms as i128) < cutoff
            invariant
                0 <= k <= self.samples@.len(),
                forall|i: int| 0 <= i < k ==> self.samples@[i].t_ms < cutoff,
            decreases self.samples@.len() - k,
        {
            k = k + 1;
        }
        proof {
            lemma_stale_prefix_is(self.samples@, cutoff as int, k as int);
        }
        k
    }

    /// The return over the last `lookback_ms` milliseconds before `now`, in
    /// fixed-point units.
    pub fn return_over(&self, lookback_ms: i64, now: i64) -> (r: Option<i128>)
        requires
            self.wf(),
        ensures
            r matches Some(v) ==> returns_of(self@, now - lookback_ms) == Some(v as int),
            r is None ==> returns_of(self@, now - lookback_ms) is None,
    {
        let n = self.samples.len();
        if n < 2 {
            return None;
        }
        let cutoff: i128 = now as i128 - lookback_ms as i128;
        let k = self.first_fresh(cutoff);
        if k >= n {
            return None;
        }
        let old = self.samples[k].mid;
        let cur = self.samples[n - 1].mid;
        proof {
            assert(window(self@, cutoff as int)[0] == self@[k as int]);
        }
        if old == 0 {
            return None;
        }
        Some(return_from(old, cur))
    }
}

/// With fewer than two samples no return is defined.
pub proof fn law_returns_need_two_samples(s: Seq<MidSample>, cutoff: int)
    requires
        s.len() < 2,
    ensures
        returns_of(s, cutoff) is None,
{
}

/// The sign of a return is the sign of the move: positive exactly where the
/// current mid is above the old one, negative exactly where it is below, zero
/// exactly where they are equal. The old mid is positive.
pub proof fn law_return_sign(old: int, cur: int)
    requires
        old > 0,
    ensures
        return_between(old, cur) > 0 <==> cur > old,
        return_between(old, cur) < 0 <==> cur < old,
        return_between(old, cur) == 0 <==> cur == old,
{
    let n = (cur - old) * 100_000_000;
    if cur > old {
        lemma_div_away_exceeds(n, old, 0);
    } else if cur < old {
        lemma_div_away_exceeds(-n, old, 0);
    } else {
        assert(n + old - 1 == old - 1);
        vstd::arithmetic::div_mod::lemma_basic_div_specific_divisor(old);
    }
}

/// Rounding away from zero keeps comparisons against whole numbers exact:
/// the rounded quotient exceeds `t` exactly where `n > t * d`.
pub proof fn lemma_div_away_exceeds(n: int, d: int, t: int)
    requires
        d > 0,
        n >= 0,
        t >= 0,
    ensures
        div_away(n, d) > t <==> n > t * d,
{
    let m = n + d - 1;
    vstd::arithmetic::div_mod::lemma_fundamental_div_mod(m, d);
    let q = m / d;
    let r = m % d;
    assert(m == d * q + r);
    if n > t * d {
        // m >= t * d + d, so q >= t + 1
        if q <= t {
            assert(d * q <= d * t) by (nonlinear_arith)
                requires
                    q <= t,
                    d > 0,
            ;
            assert(t * d == d * t) by (nonlinear_arith);
            assert(false);
        }
    } else {
        if q > t {
            assert(d * q >= d * (t + 1)) by (nonlinear_arith)
                requires
                    q >= t + 1,
                    d > 0,
            ;
            assert(d * (t + 1) == t * d + d) by (nonlinear_arith);
            assert(false);
        }
    }
}

/// A return exceeds a threshold given in the same units exactly where the
/// exact quotient `(cur - old) / old` does; likewise below its negative.
pub proof fn law_return_threshold_exact(old: int, cur: int, threshold: int)
    requires
        old > 0,
        threshold >= 0,
    ensures
        return_between(old, cur) > threshold <==> (cur - old) * 100_000_000 > threshold * old,
        return_between(old, cur) < -threshold <==> (cur - old) * 100_000_000 < -(threshold * old),
{
    let n = (cur - old) * 100_000_000;
    if n >= 0 {
        lemma_div_away_exceeds(n, old, threshold);
        lemma_div_away_exceeds(n, old, 0);
        assert(threshold * old >= 0) by (nonlinear_arith)
            requires
                threshold >= 0,
                old > 0,
        ;
    } else {
        lemma_div_away_exceeds(-n, old, threshold);
    }
}

/// Sum of the mids, each taken relative to `base`.
pub open spec fn sum_off(w: Seq<MidSample>, base: int) -> int
    decreases w.len(),
{
    if w.len() == 0 {
        0
    } else {
        sum_off(w.drop_last(), base) + (w.last().mid - base)
    }
}

/// Sum of the squares of the mids, each taken relative to `base`.
pub open spec fn sum_off_sq(w: Seq<MidSample>, base: int) -> int
    decreases w.len(),
{
    if w.len() == 0 {
        0
    } else {
        sum_off_sq(w.drop_last(), base) + (w.last().mid - base) * (w.last().mid - base)
    }
}

/// `n * sum of squares - square of the sum`, with the mids taken relative to
/// `base`. It does not depend on `base`, and divided by `n * (n - 1)` it is the
/// sample variance.
pub open spec fn scatter_about(w: Seq<MidSample>, base: int) -> int {
    w.len() * sum_off_sq(w, base) - sum_off(w, base) * sum_off(w, base)
}

/// `n * sum of squares - square of the sum` of the mids.
pub open spec fn scatter(w: Seq<MidSample>) -> int {
    scatter_about(w, 0)
}

/// `r` is the sample standard deviation of the mids of `w`, rounded down:
/// the largest whole number whose square is at most the sample variance.
pub open spec fn is_std_dev(r: int, w: Seq<MidSample>) -> bool {
    let d = w.len() * (w.len() - 1);
    &&& r >= 0
    &&& r * r * d <= scatter(w)
    &&& scatter(w) < (r + 1) * (r + 1) * d
}

/// The samples lie close enough together for 128-bit sums: the squares of
/// their distances from the first, summed and multiplied by their number, fit.
pub open spec fn spread_fits(w: Seq<MidSample>) -> bool {
    w.len() > 0 && w.len() * sum_off_sq(w, w[0].mid as int) <= i128::MAX
}

proof fn lemma_sum_off_shift(w: Seq<MidSample>, base: int)
    ensures
        sum_off(w, base) == sum_off(w, 0) - w.len() * base,
        sum_off_sq(w, base) == sum_off_sq(w, 0) - 2 * base * sum_off(w, 0) + w.len() * base
            * base,
    decreases w.len(),
{
    if w.len() > 0 {
        let t = w.drop_last();
        lemma_sum_off_shift(t, base);
        let x = w.last().mid as int;
        let n = t.len() as int;
        let s0 = sum_off(t, 0);
        let q0 = sum_off_sq(t, 0);
        assert(w.len() == n + 1);
        assert((n + 1) * base == n * base + base) by (nonlinear_arith);
        assert(q0 - 2 * base * s0 + n * base * base + (x - base) * (x - base) == (q0 + (x - 0) * (x
            - 0)) - 2 * base * (s0 + (x - 0)) + (n + 1) * base * base) by (nonlinear_arith);
    }
}

/// The scatter does not depend on the point the mids are measured from.
pub proof fn lemma_scatter_shift(w: Seq<MidSample>, base: int)
    ensures
        scatter_about(w, base) == scatter(w),
{
    lemma_sum_off_shift(w, base);
    let n = w.len() as int;
    let s0 = sum_off(w, 0);
    let q0 = sum_off_sq(w, 0);
    assert(n * (q0 - 2 * base * s0 + n * base * base) - (s0 - n * base) * (s0 - n * base) == n * q0
        - s0 * s0) by (nonlinear_arith);
}

/// The square of a sum is at most the number of terms times the sum of squares.
pub proof fn lemma_scatter_nonnegative(w: Seq<MidSample>, base: int)
    ensures
        scatter_about(w, base) >= 0,
        sum_off_sq(w, base) >= 0,
    decreases w.len(),
{
    if w.len() > 0 {
        let t = w.drop_last();
        lemma_scatter_nonnegative(t, base);
        let d = w.last().mid - base;
        let k = t.len() as int;
        let s = sum_off(t, base);
        let q = sum_off_sq(t, base);
        assert(d * d >= 0) by (nonlinear_arith);
        assert(w.len() == k + 1);
        // k * (q + k d^2 - 2 s d) >= (k d - s)^2 >= 0
        if k > 0 {
            assert(q + k * d * d - 2 * s * d >= 0) by (nonlinear_arith)
                requires
                    k * q - s * s >= 0,
                    k > 0,
            {
                assert(k * (q + k * d * d - 2 * s * d) == (k * q - s * s) + (k * d - s) * (k * d
                    - s));
                assert((k * d - s) * (k * d - s) >= 0);
            }
        } else {
            assert(s == 0);
            assert(q == 0);
        }
        assert((k + 1) * (q + d * d) - (s + d) * (s + d) == (k * q - s * s) + (q + k * d * d - 2
            * s * d)) by (nonlinear_arith);
    }
}

proof fn lemma_sum_off_bounded(w: Seq<MidSample>, base: int)
    ensures
        -sum_off_sq(w, base) <= sum_off(w, base) <= sum_off_sq(w, base),
    decreases w.len(),
{
    if w.len() > 0 {
        lemma_sum_off_bounded(w.drop_last(), base);
        let d = w.last().mid - base;
        assert(-(d * d) <= d <= d * d) by (nonlinear_arith);
    }
}

proof fn lemma_sum_off_sq_prefix(w: Seq<MidSample>, base: int, k: int)
    requires
        0 <= k <= w.len(),
    ensures
        0 <= sum_off_sq(w.take(k), base) <= sum_off_sq(w, base),
    decreases w.len() - k,
{
    lemma_scatter_nonnegative(w.take(k), base);
    if k < w.len() {
        lemma_sum_off_sq_prefix(w, base, k + 1);
        assert(w.take(k + 1).drop_last() =~= w.take(k));
        let d = w.take(k + 1).last().mid - base;
        assert(d * d >= 0) by (nonlinear_arith);
    } else {
        assert(w.take(k) =~= w);
    }
}

/// Samples that are all equal have no scatter.
pub proof fn lemma_scatter_of_equal(w: Seq<MidSample>, value: int)
    requires
        forall|i: int| 0 <= i < w.len() ==> w[i].mid == value,
    ensures
        sum_off(w, value) == 0,
        sum_off_sq(w, value) == 0,
        scatter(w) == 0,
    decreases w.len(),
{
    if w.len() > 0 {
        let t = w.drop_last();
        assert forall|i: int| 0 <= i < t.len() implies t[i].mid == value by {
            assert(t[i] == w[i]);
        }
        lemma_scatter_of_equal(t, value);
    }
    lemma_scatter_shift(w, value);
    assert(w.len() * 0 - 0 * 0 == 0) by (nonlinear_arith);
}

/// The largest whole number whose square is at most `v`.
pub fn isqrt(v: u128) -> (r: u64)
    ensures
        r * r <= v,
        v < (r + 1) * (r + 1),
{
    let mut lo: u128 = 0;
    let mut hi: u128 = 0x1_0000_0000_0000_0000;
    proof {
        assert(0x1_0000_0000_0000_0000 * 0x1_0000_0000_0000_0000 > u128::MAX) by (nonlinear_arith);
    }
    while hi - lo > 1
        invariant
            lo < hi <= 0x1_0000_0000_0000_0000,
            lo * lo <= v,
            v < hi * hi,
        decreases hi - lo,
    {
        let mid: u128 = lo + (hi - lo) / 2;
        proof {
            assert(mid * mid < 0x1_0000_0000_0000_0000 * 0x1_0000_0000_0000_0000)
                by (nonlinear_arith)
                requires
                    0 <= mid < 0x1_0000_0000_0000_0000,
            ;
        }
        if mid * mid <= v {
            lo = mid;
        } else {
            hi = mid;
        }
    }
    lo as u64
}

impl MidHistory {
    /// The sample standard deviation of the mids seen in the last
    /// `lookback_ms` milliseconds before `now`, in mid units, rounded down.
    /// None with fewer than two samples inside the window, or where they lie
    /// too far apart for 128-bit sums.
    pub fn std_dev(&self, lookback_ms: i64, now: i64) -> (r: Option<i128>)
        requires
            self.wf(),
        ensures
            r matches Some(v) ==> window(self@, now - lookback_ms).len() >= 2 && is_std_dev(
                v as int,
                window(self@, now - lookback_ms),
            ),
            r is None ==> window(self@, now - lookback_ms).len() < 2 || !spread_fits(
                window(self@, now - lookback_ms),
            ),
    {
        let n = self.samples.len();
        let cutoff: i128 = now as i128 - lookback_ms as i128;
        let k = self.first_fresh(cutoff);
        let ghost w = window(self@, cutoff as int);
        if n - k < 2 {
            return None;
        }
        let base = self.samples[k].mid;
        let count: usize = n - k;
        let mut sum: i128 = 0;
        let mut sum_sq: i128 = 0;
        let mut i: usize = k;
        proof {
            assert(w.len() == count);
            assert(w[0] == self@[k as int]);
        }
        while i < n
            invariant
                k <= i <= n,
                n == self.samples@.len(),
                w == self.samples@.skip(k as int),
                w == window(self@, now - lookback_ms),
                history_wf(self.samples@),
                -MID_LIMIT <= base <= MID_LIMIT,
                base == w[0].mid,
                count == n - k,
                count >= 2,
                w.len() == count,
                sum == sum_off(w.take(i - k), base as int),
                sum_sq == sum_off_sq(w.take(i - k), base as int),
            decreases n - i,
        {
            let ghost next = w.take(i - k + 1);
            proof {
                assert(next.drop_last() =~= w.take(i - k));
                assert(next.last() == self.samples@[i as int]);
                lemma_sum_off_bounded(next, base as int);
                lemma_sum_off_sq_prefix(w, base as int, i - k + 1);
            }
            let d: i128 = self.samples[i].mid - base;
            let sq = match d.checked_mul(d) {
                Some(sq) => sq,
                None => {
                    proof {
                        lemma_scatter_nonnegative(w.take(i - k), base as int);
                        assert(d * d >= 0) by (nonlinear_arith);
                        assert(sum_off_sq(next, base as int) > i128::MAX);
                        lemma_spread_too_wide(w, base as int);
                    }
                    return None;
                },
            };
            sum_sq = match sum_sq.checked_add(sq) {
                Some(total) => total,
                None => {
                    proof {
                        assert(sum_off_sq(next, base as int) > i128::MAX);
                        lemma_spread_too_wide(w, base as int);
                    }
                    return None;
                },
            };
            sum = sum + d;
            i = i + 1;
        }
        proof {
            assert(w.take(n - k) =~= w);
            lemma_scatter_nonnegative(w, base as int);
            lemma_scatter_shift(w, base as int);
        }
        let total = match (count as i128).checked_mul(sum_sq) {
            Some(t) => t,
            None => {
                return None;
            },
        };
        proof {
            assert(0 <= sum * sum <= total) by (nonlinear_arith)
                requires
                    count * sum_sq - sum * sum >= 0,
                    total == count * sum_sq,
            ;
            assert(0 < count * (count - 1) <= u128::MAX) by (nonlinear_arith)
                requires
                    2 <= count <= 0xffff_ffff_ffff_ffff,
            ;
        }
        let numerator: u128 = (total - sum * sum) as u128;
        let denominator: u128 = (count as u128) * ((count - 1) as u128);
        let variance: u128 = numerator / denominator;
        let root = isqrt(variance);
        proof {
            let nn = numerator as int;
            let dd = denominator as int;
            let vv = variance as int;
            let rr = root as int;
            assert(dd == w.len() * (w.len() - 1));
            vstd::arithmetic::div_mod::lemma_fundamental_div_mod(nn, dd);
            assert(rr * rr * dd <= nn) by (nonlinear_arith)
                requires
                    rr * rr <= vv,
                    nn == dd * vv + nn % dd,
                    0 <= nn % dd,
                    dd > 0,
            ;
            assert(nn < (rr + 1) * (rr + 1) * dd) by (nonlinear_arith)
                requires
                    vv + 1 <= (rr + 1) * (rr + 1),
                    nn == dd * vv + nn % dd,
                    nn % dd < dd,
                    dd > 0,
            ;
        }
        Some(root as i128)
    }
}

/// Where a partial sum of squares is beyond 128 bits, so is the whole.
proof fn lemma_spread_too_wide(w: Seq<MidSample>, base: int)
    requires
        w.len() > 0,
        base == w[0].mid,
        exists|k: int| 0 <= k <= w.len() && #[trigger] sum_off_sq(w.take(k), base) > i128::MAX,
    ensures
        !spread_fits(w),
{
    let k = choose|k: int| 0 <= k <= w.len() && #[trigger] sum_off_sq(w.take(k), base) > i128::MAX;
    lemma_sum_off_sq_prefix(w, base, k);
    let q = sum_off_sq(w, base);
    let n = w.len() as int;
    assert(n * q >= q) by (nonlinear_arith)
        requires
            n >= 1,
            q >= 0,
    ;
}

/// A standard deviation is never negative, and that of two or more equal
/// samples is zero.
pub proof fn law_std_dev(r: int, w: Seq<MidSample>, value: int)
    requires
        w.len() >= 2,
        is_std_dev(r, w),
    ensures
        r >= 0,
        (forall|i: int| 0 <= i < w.len() ==> w[i].mid == value) ==> r == 0 && spread_fits(w),
{
    if forall|i: int| 0 <= i < w.len() ==> w[i].mid == value {
        lemma_scatter_of_equal(w, value);
        let d = w.len() * (w.len() - 1);
        assert(d >= 2) by (nonlinear_arith)
            requires
                d == w.len() * (w.len() - 1),
                w.len() >= 2,
        ;
        assert(r == 0) by (nonlinear_arith)
            requires
                r >= 0,
                r * r * d <= 0,
                d >= 2,
        ;
        assert(w.len() * 0 == 0) by (nonlinear_arith);
    }
}

} // verus!
