//! Short-term trend and anomaly signals over a series of samples.
//!
//! The slope of a window is `(last - first) / elapsed`, and the threshold it is
//! held against is divided by the same `elapsed`; so the comparison is made
//! exactly, in integers, on the change itself.

use vstd::prelude::*;
use circular_queue::CircularQueue;
use crate::models::{TimestampedValue, keep_recent, min_value, max_value, sum_values, cutoff_at};
use crate::queue::{queue_items, queue_to_vec};

verus! {

/// Direction of a series over its recent window.
#[derive(Debug, Clone, Copy, PartialEq, Eq)]
pub enum Trend {
    Increasing,
    Decreasing,
    Stable,
    Insufficient,
}

/// The preferred lookback windows, widest first, in seconds.
pub const WIDE_WINDOW_SECS: u64 = 30;
pub const NARROW_WINDOW_SECS: u64 = 15;

/// Fewest samples a trend is computed from.
pub const MIN_TREND_SAMPLES: usize = 3;

/// A window whose values span less than this is flat.
pub const FLAT_EPSILON: u64 = 1;

/// The smallest change that counts as movement: 0.01 of a unit.
pub const MIN_CHANGE: u64 = 10_000;

/// Fewest prior samples an anomaly is judged against, and most that are used.
pub const MIN_ANOMALY_SAMPLES: usize = 5;
pub const ANOMALY_LOOKBACK: usize = 10;

/// The samples of `s` inside the lookback window of `width` seconds that ends
/// at its newest sample.
pub open spec fn lookback(s: Seq<TimestampedValue>, width: u64) -> Seq<TimestampedValue> {
    keep_recent(s, cutoff_at(s.last().timestamp, width))
}

/// The window a trend is read from: the widest preferred window with enough
/// samples, else the whole series.
pub open spec fn trend_window(s: Seq<TimestampedValue>) -> Seq<TimestampedValue> {
    if lookback(s, WIDE_WINDOW_SECS).len() >= MIN_TREND_SAMPLES {
        lookback(s, WIDE_WINDOW_SECS)
    } else if lookback(s, NARROW_WINDOW_SECS).len() >= MIN_TREND_SAMPLES {
        lookback(s, NARROW_WINDOW_SECS)
    } else {
        s
    }
}

/// Whether a change of `delta` over `elapsed` seconds, from a level of
/// `magnitude`, exceeds the threshold `max(magnitude * 0.05, 0.01)`, raised by
/// half for windows shorter than the wide one.
pub open spec fn exceeds_threshold(delta: int, magnitude: int, elapsed: int) -> bool {
    let base = if magnitude > 20 * MIN_CHANGE { magnitude } else { 20 * MIN_CHANGE as int };
    let d = if delta >= 0 { delta } else { -delta };
    if elapsed < WIDE_WINDOW_SECS { 40 * d > 3 * base } else { 20 * d > base }
}

/// The trend of a window of at least `MIN_TREND_SAMPLES` samples.
pub open spec fn window_trend(w: Seq<TimestampedValue>) -> Trend {
    let first = w[0];
    let last = w.last();
    let elapsed = last.timestamp - first.timestamp;
    let delta = last.value - first.value;
    let magnitude = if first.value > last.value { first.value as int } else { last.value as int };
    if max_value(w) - min_value(w) < FLAT_EPSILON || elapsed <= 0 {
        Trend::Stable
    } else if exceeds_threshold(delta, magnitude, elapsed) {
        if delta > 0 { Trend::Increasing } else { Trend::Decreasing }
    } else {
        Trend::Stable
    }
}

/// The trend of a series, oldest sample first.
pub open spec fn trend_of(s: Seq<TimestampedValue>) -> Trend {
    if s.len() < MIN_TREND_SAMPLES {
        Trend::Insufficient
    } else {
        window_trend(trend_window(s))
    }
}

/// Whether `current` is far from the mean of the newest (at most ten) samples
/// of `s`: above one and a half times it, or below half of it.
pub open spec fn anomalous(s: Seq<TimestampedValue>, current: u64) -> bool {
    if s.len() < MIN_ANOMALY_SAMPLES {
        false
    } else {
        let k = if s.len() > ANOMALY_LOOKBACK { ANOMALY_LOOKBACK as int } else { s.len() as int };
        let total = sum_values(s.subrange(s.len() - k, s.len() as int));
        2 * current * k > 3 * total || 2 * current * k < total
    }
}

/// A series of fewer than three samples has no trend.
pub proof fn lemma_short_series_insufficient(s: Seq<TimestampedValue>)
    requires
        s.len() < 3,
    ensures
        trend_of(s) == Trend::Insufficient,
{
}

/// Every value of `s` is `v`.
pub open spec fn all_equal(s: Seq<TimestampedValue>, v: u64) -> bool {
    forall|i: int| 0 <= i < s.len() ==> #[trigger] s[i].value == v
}

proof fn lemma_all_equal_range(s: Seq<TimestampedValue>, v: u64)
    requires
        s.len() > 0,
        all_equal(s, v),
    ensures
        min_value(s) == v,
        max_value(s) == v,
    decreases s.len(),
{
    if s.len() > 1 {
        let t = s.drop_last();
        assert(all_equal(t, v)) by {
            assert forall|i: int| 0 <= i < t.len() implies #[trigger] t[i].value == v by {
                assert(t[i] == s[i]);
            }
        }
        lemma_all_equal_range(t, v);
        assert(s.last() == s[s.len() - 1]);
    }
}

proof fn lemma_keep_recent_all_equal(s: Seq<TimestampedValue>, cutoff: u64, v: u64)
    requires
        all_equal(s, v),
    ensures
        all_equal(keep_recent(s, cutoff), v),
    decreases s.len(),
{
    if s.len() > 0 {
        let t = s.drop_last();
        assert(all_equal(t, v)) by {
            assert forall|i: int| 0 <= i < t.len() implies #[trigger] t[i].value == v by {
                assert(t[i] == s[i]);
            }
        }
        lemma_keep_recent_all_equal(t, cutoff, v);
        assert(s.last() == s[s.len() - 1]);
        let r = keep_recent(t, cutoff);
        if s.last().timestamp >= cutoff {
            assert forall|i: int| 0 <= i < r.push(s.last()).len() implies #[trigger] r.push(s.last())[i].value == v by {
                if i < r.len() { assert(r.push(s.last())[i] == r[i]); }
            }
        }
    }
}

/// A series of at least three samples that all hold one value is stable.
pub proof fn lemma_flat_line_stable(s: Seq<TimestampedValue>, v: u64)
    requires
        s.len() >= 3,
        all_equal(s, v),
    ensures
        trend_of(s) == Trend::Stable,
{
    let wide = cutoff_at(s.last().timestamp, WIDE_WINDOW_SECS);
    let narrow = cutoff_at(s.last().timestamp, NARROW_WINDOW_SECS);
    lemma_keep_recent_all_equal(s, wide, v);
    lemma_keep_recent_all_equal(s, narrow, v);
    let w = trend_window(s);
    assert(w.len() >= 3);
    lemma_all_equal_range(w, v);
}

/// The least and greatest value of a non-empty series.
fn value_bounds(v: &Vec<TimestampedValue>) -> (r: (u64, u64))
    requires
        v@.len() > 0,
    ensures
        r.0 == min_value(v@),
        r.1 == max_value(v@),
{
    let mut lowest = v[0].value;
    let mut highest = v[0].value;
    let mut i: usize = 1;
    while i < v.len()
        invariant
            1 <= i <= v@.len(),
            lowest == min_value(v@.take(i as int)),
            highest == max_value(v@.take(i as int)),
        decreases v@.len() - i,
    {
        assert(v@.take(i as int + 1).drop_last() == v@.take(i as int));
        let x = v[i].value;
        if x < lowest {
            lowest = x;
        }
        if x > highest {
            highest = x;
        }
        i = i + 1;
    }
    assert(v@.take(i as int) == v@);
    (lowest, highest)
}

fn keep_window(v: &Vec<TimestampedValue>, width: u64) -> (r: Vec<TimestampedValue>)
    requires
        v@.len() > 0,
    ensures
        r@ == lookback(v@, width),
{
    let newest = v[v.len() - 1].timestamp;
    let cutoff = if newest >= width { newest - width } else { 0 };
    let mut r: Vec<TimestampedValue> = Vec::new();
    let mut i: usize = 0;
    while i < v.len()
        invariant
            i <= v@.len(),
            cutoff == cutoff_at(v@.last().timestamp, width),
            r@ == keep_recent(v@.take(i as int), cutoff),
        decreases v@.len() - i,
    {
        let item = v[i];
        assert(v@.take(i as int + 1).drop_last() == v@.take(i as int));
        if item.timestamp >= cutoff {
            r.push(item);
        }
        i = i + 1;
    }
    assert(v@.take(i as int) == v@);
    r
}

/// Computes `window_trend` for a window of at least three samples.
fn trend_in_window(w: &Vec<TimestampedValue>) -> (r: Trend)
    requires
        w@.len() >= MIN_TREND_SAMPLES,
    ensures
        r == window_trend(w@),
{
    let first = w[0];
    let last = w[w.len() - 1];
    let (lowest, highest) = value_bounds(w);
    proof {
        lemma_min_le_max(w@);
    }
    if highest - lowest < FLAT_EPSILON || last.timestamp <= first.timestamp {
        return Trend::Stable;
    }
    let elapsed = last.timestamp - first.timestamp;
    let magnitude: u128 = if first.value > last.value { first.value as u128 } else { last.value as u128 };
    let base: u128 = if magnitude > 20 * MIN_CHANGE as u128 { magnitude } else { 20 * MIN_CHANGE as u128 };
    let rising = last.value > first.value;
    let change: u128 = if rising { (last.value - first.value) as u128 } else { (first.value - last.value) as u128 };
    let exceeds = if elapsed < WIDE_WINDOW_SECS { 40 * change > 3 * base } else { 20 * change > base };
    if exceeds {
        if rising { Trend::Increasing } else { Trend::Decreasing }
    } else {
        Trend::Stable
    }
}

proof fn lemma_min_le_max(s: Seq<TimestampedValue>)
    requires
        s.len() > 0,
    ensures
        min_value(s) <= max_value(s),
    decreases s.len(),
{
    if s.len() > 1 {
        lemma_min_le_max(s.drop_last());
    }
}

/// Stateless trend and anomaly classification.
pub struct TrendAnalyzer;

impl TrendAnalyzer {
    /// The trend of a series given oldest sample first.
    pub fn trend(samples: &Vec<TimestampedValue>) -> (r: Trend)
        ensures
            r == trend_of(samples@),
    {
        if samples.len() < MIN_TREND_SAMPLES {
            return Trend::Insufficient;
        }
        let wide = keep_window(samples, WIDE_WINDOW_SECS);
        if wide.len() >= MIN_TREND_SAMPLES {
            return trend_in_window(&wide);
        }
        let narrow = keep_window(samples, NARROW_WINDOW_SECS);
        if narrow.len() >= MIN_TREND_SAMPLES {
            return trend_in_window(&narrow);
        }
        trend_in_window(samples)
    }

    /// The trend of the samples a queue holds.
    pub fn trend_of_queue(cq: &CircularQueue<TimestampedValue>) -> (r: Trend)
        ensures
            r == trend_of(queue_items(*cq)),
    {
        let v = queue_to_vec(cq);
        Self::trend(&v)
    }

    /// Whether `current` stands out from the recent samples (see `anomalous`).
    pub fn is_anomalous(samples: &Vec<TimestampedValue>, current: u64) -> (r: bool)
        ensures
            r == anomalous(samples@, current),
    {
        let n = samples.len();
        if n < MIN_ANOMALY_SAMPLES {
            return false;
        }
        let k: usize = if n > ANOMALY_LOOKBACK { ANOMALY_LOOKBACK } else { n };
        let start = n - k;
        let ghost recent = samples@.subrange(start as int, n as int);
        let mut total: u128 = 0;
        let mut i: usize = start;
        while i < n
            invariant
                n == samples@.len(),
                start <= i <= n,
                n - start <= ANOMALY_LOOKBACK,
                recent == samples@.subrange(start as int, n as int),
                total == sum_values(samples@.subrange(start as int, i as int)),
                total <= (i - start) * 0xFFFF_FFFF_FFFF_FFFFu64,
            decreases n - i,
        {
            assert(samples@.subrange(start as int, i as int + 1).drop_last()
                == samples@.subrange(start as int, i as int));
            total = total + samples[i].value as u128;
            i = i + 1;
        }
        assert(2 * (current as u128) * (k as u128) <= 2 * 0xFFFF_FFFF_FFFF_FFFFu128 * 10) by (nonlinear_arith)
            requires k <= 10, current <= 0xFFFF_FFFF_FFFF_FFFFu64;
        assert(samples@.subrange(start as int, n as int).len() == k);
        let scaled: u128 = 2 * (current as u128) * (k as u128);
        scaled > 3 * total || scaled < total
    }
}

} // verus!
