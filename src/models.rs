//! Metric samples, their statistics, and the bounded histories that hold them.
//!
//! Metric values are fixed-point numbers: a value of `UNITS_PER_WHOLE` stands
//! for one whole unit (one token per second, one megabyte, one percent).

use vstd::prelude::*;
use std::collections::VecDeque;
use circular_queue::CircularQueue;
use crate::text::str_eq;
use crate::queue::{queue_items, queue_capacity, ring_push, queue_new, queue_push, queue_clear, queue_to_vec, queue_len};

verus! {

/// Fixed-point scale of every metric value: millionths of a unit.
pub const UNITS_PER_WHOLE: u64 = 1_000_000;

/// Largest metric value a history accepts (just under 2^48 millionths).
pub const MAX_SAMPLE_VALUE: u64 = 281_474_976_710_655;

/// Largest number of samples a history can be asked to keep.
pub const MAX_CAPACITY: usize = 65_536;

/// One sample of a metric: seconds since the epoch, and the value.
#[derive(Debug, Clone, Copy, PartialEq, Eq)]
pub struct TimestampedValue {
    pub timestamp: u64,
    pub value: u64,
}

/// Summary of a series of samples. Every field is zero on an empty series.
#[derive(Debug, Clone, Copy, PartialEq, Eq)]
pub struct MetricStats {
    pub mean: u64,
    pub min: u64,
    pub max: u64,
    pub std_dev: u64,
    pub count: usize,
    pub current: u64,
}

pub open spec fn sum_values(s: Seq<TimestampedValue>) -> int
    decreases s.len(),
{
    if s.len() == 0 {
        0
    } else {
        sum_values(s.drop_last()) + s.last().value
    }
}

pub open spec fn sum_squares(s: Seq<TimestampedValue>) -> int
    decreases s.len(),
{
    if s.len() == 0 {
        0
    } else {
        sum_squares(s.drop_last()) + s.last().value * s.last().value
    }
}

pub open spec fn min_value(s: Seq<TimestampedValue>) -> int
    decreases s.len(),
{
    if s.len() <= 1 {
        if s.len() == 0 { 0 } else { s[0].value as int }
    } else {
        let m = min_value(s.drop_last());
        if s.last().value < m { s.last().value as int } else { m }
    }
}

pub open spec fn max_value(s: Seq<TimestampedValue>) -> int
    decreases s.len(),
{
    if s.len() <= 1 {
        if s.len() == 0 { 0 } else { s[0].value as int }
    } else {
        let m = max_value(s.drop_last());
        if s.last().value > m { s.last().value as int } else { m }
    }
}

/// `n * n` times the population variance of the values: `n * Σv² - (Σv)²`.
pub open spec fn spread(s: Seq<TimestampedValue>) -> int {
    s.len() * sum_squares(s) - sum_values(s) * sum_values(s)
}

/// Every value lies within what a history accepts.
pub open spec fn values_in_range(s: Seq<TimestampedValue>) -> bool {
    forall|i: int| 0 <= i < s.len() ==> #[trigger] s[i].value <= MAX_SAMPLE_VALUE
}

/// `r` summarises `s`: the count, the newest value, the least and greatest
/// value, the mean rounded down, and the population standard deviation
/// rounded down (`std_dev² <= variance < (std_dev + 1)²`).
pub open spec fn is_stats_of(r: MetricStats, s: Seq<TimestampedValue>) -> bool {
    if s.len() == 0 {
        r == MetricStats { mean: 0, min: 0, max: 0, std_dev: 0, count: 0, current: 0 }
    } else {
        let n = s.len() as int;
        &&& r.count == s.len()
        &&& r.current == s.last().value
        &&& r.min == min_value(s)
        &&& r.max == max_value(s)
        &&& r.mean == sum_values(s) / n
        &&& r.std_dev * r.std_dev * n * n <= spread(s)
        &&& spread(s) < (r.std_dev + 1) * (r.std_dev + 1) * n * n
    }
}

/// The statistics of an empty series are all zero.
pub proof fn lemma_stats_on_empty(r: MetricStats)
    requires
        is_stats_of(r, Seq::<TimestampedValue>::empty()),
    ensures
        r.count == 0 && r.mean == 0 && r.min == 0 && r.max == 0 && r.std_dev == 0 && r.current == 0,
{
}

proof fn lemma_sums_bounded(s: Seq<TimestampedValue>)
    requires
        values_in_range(s),
    ensures
        0 <= sum_values(s) <= s.len() * MAX_SAMPLE_VALUE,
        0 <= sum_squares(s) <= s.len() * (MAX_SAMPLE_VALUE * MAX_SAMPLE_VALUE),
    decreases s.len(),
{
    if s.len() > 0 {
        let t = s.drop_last();
        assert(values_in_range(t)) by {
            assert forall|i: int| 0 <= i < t.len() implies #[trigger] t[i].value <= MAX_SAMPLE_VALUE by {
                assert(t[i] == s[i]);
            }
        }
        lemma_sums_bounded(t);
        let v = s.last().value as int;
        assert(v <= MAX_SAMPLE_VALUE) by { assert(s.last() == s[s.len() - 1]); }
        assert(0 <= v * v <= MAX_SAMPLE_VALUE * MAX_SAMPLE_VALUE) by (nonlinear_arith)
            requires 0 <= v <= MAX_SAMPLE_VALUE;
        assert(t.len() * (MAX_SAMPLE_VALUE * MAX_SAMPLE_VALUE) + MAX_SAMPLE_VALUE * MAX_SAMPLE_VALUE
            == s.len() * (MAX_SAMPLE_VALUE * MAX_SAMPLE_VALUE)) by (nonlinear_arith)
            requires t.len() + 1 == s.len();
    }
}

/// `n * Σv² >= (Σv)²`: the spread of a series is never negative.
proof fn lemma_spread_nonneg(s: Seq<TimestampedValue>)
    ensures
        spread(s) >= 0,
    decreases s.len(),
{
    if s.len() > 0 {
        let t = s.drop_last();
        lemma_spread_nonneg(t);
        let m = t.len() as int;
        let a = sum_values(t);
        let q = sum_squares(t);
        let v = s.last().value as int;
        assert(m * q >= a * a);
        if m == 0 {
            assert(a == 0 && q == 0) by {
                assert(t.len() == 0);
            }
            assert((m + 1) * (q + v * v) - (a + v) * (a + v) == 0) by (nonlinear_arith)
                requires m == 0, a == 0, q == 0;
        } else {
            assert((m + 1) * (q + v * v) - (a + v) * (a + v) >= 0) by (nonlinear_arith)
                requires m > 0, m * q >= a * a;
        }
    }
}

/// The integer square root: `r * r <= x < (r + 1) * (r + 1)`.
pub fn isqrt(x: u128) -> (r: u64)
    ensures
        r * r <= x,
        x < (r + 1) * (r + 1),
{
    let mut lo: u128 = 0;
    let mut hi: u128 = 0x1_0000_0000_0000_0000;
    assert(x < hi * hi) by (nonlinear_arith)
        requires hi == 0x1_0000_0000_0000_0000u128, x <= u128::MAX;
    while hi - lo > 1
        invariant
            lo < hi <= 0x1_0000_0000_0000_0000u128,
            lo * lo <= x,
            x < hi * hi,
        decreases hi - lo,
    {
        let mid = lo + (hi - lo) / 2;
        assert(lo < mid < hi);
        assert(mid * mid <= (0x1_0000_0000_0000_0000u128 - 1) * (0x1_0000_0000_0000_0000u128 - 1))
            by (nonlinear_arith)
            requires mid < 0x1_0000_0000_0000_0000u128, mid >= 0;
        if mid * mid <= x {
            lo = mid;
        } else {
            hi = mid;
        }
    }
    assert(hi == lo + 1);
    lo as u64
}

/// Computes `is_stats_of` for the samples in `samples`.
fn stats_of_vec(samples: &Vec<TimestampedValue>) -> (r: MetricStats)
    requires
        samples@.len() <= MAX_CAPACITY,
        values_in_range(samples@),
    ensures
        is_stats_of(r, samples@),
{
    let n = samples.len();
    if n == 0 {
        return MetricStats { mean: 0, min: 0, max: 0, std_dev: 0, count: 0, current: 0 };
    }
    let mut sum: u128 = 0;
    let mut squares: u128 = 0;
    let mut lowest: u64 = samples[0].value;
    let mut highest: u64 = samples[0].value;
    let mut i: usize = 0;
    while i < n
        invariant
            n == samples@.len(),
            0 < n <= MAX_CAPACITY,
            values_in_range(samples@),
            i <= n,
            sum == sum_values(samples@.take(i as int)),
            squares == sum_squares(samples@.take(i as int)),
            i > 0 ==> lowest == min_value(samples@.take(i as int)),
            i > 0 ==> highest == max_value(samples@.take(i as int)),
            i == 0 ==> lowest == samples@[0].value && highest == samples@[0].value,
        decreases n - i,
    {
        let v = samples[i].value;
        proof {
            let t = samples@.take(i as int + 1);
            assert(t.drop_last() == samples@.take(i as int));
            assert(t.last() == samples@[i as int]);
            assert(values_in_range(t)) by {
                assert forall|j: int| 0 <= j < t.len() implies #[trigger] t[j].value <= MAX_SAMPLE_VALUE by {
                    assert(t[j] == samples@[j]);
                }
            }
            lemma_sums_bounded(t);
            assert(t.len() * MAX_SAMPLE_VALUE <= MAX_CAPACITY * MAX_SAMPLE_VALUE) by (nonlinear_arith)
                requires t.len() <= MAX_CAPACITY;
            assert(t.len() * (MAX_SAMPLE_VALUE * MAX_SAMPLE_VALUE)
                <= MAX_CAPACITY * (MAX_SAMPLE_VALUE * MAX_SAMPLE_VALUE)) by (nonlinear_arith)
                requires t.len() <= MAX_CAPACITY;
        }
        sum = sum + v as u128;
        squares = squares + (v as u128) * (v as u128);
        if v < lowest {
            lowest = v;
        }
        if v > highest {
            highest = v;
        }
        i = i + 1;
    }
    assert(samples@.take(n as int) == samples@);
    proof {
        lemma_sums_bounded(samples@);
        lemma_spread_nonneg(samples@);
        assert(n * squares <= MAX_CAPACITY * (MAX_CAPACITY * (MAX_SAMPLE_VALUE * MAX_SAMPLE_VALUE)))
            by (nonlinear_arith)
            requires n <= MAX_CAPACITY, squares <= n * (MAX_SAMPLE_VALUE * MAX_SAMPLE_VALUE), squares >= 0;
        assert(sum * sum <= (MAX_CAPACITY * MAX_SAMPLE_VALUE) * (MAX_CAPACITY * MAX_SAMPLE_VALUE))
            by (nonlinear_arith)
            requires 0 <= sum <= n * MAX_SAMPLE_VALUE, n <= MAX_CAPACITY;
    }
    let n128 = n as u128;
    let spread_value: u128 = n128 * squares - sum * sum;
    let root = isqrt(spread_value);
    let deviation = root as u128 / n128;
    proof {
        let d = deviation as int;
        let k = n as int;
        let r = root as int;
        let x = spread_value as int;
        assert(d * k <= r && r < (d + 1) * k) by (nonlinear_arith)
            requires d == r / k, k > 0, r >= 0;
        assert(d * d * k * k <= x) by (nonlinear_arith)
            requires d * k <= r, r * r <= x, d >= 0, k > 0;
        assert(x < (d + 1) * (d + 1) * k * k) by (nonlinear_arith)
            requires r < (d + 1) * k, x < (r + 1) * (r + 1), d >= 0, k > 0, r >= 0;
        assert(sum / n128 <= MAX_SAMPLE_VALUE) by (nonlinear_arith)
            requires sum <= n128 * MAX_SAMPLE_VALUE, n128 > 0;
        assert(deviation <= root) by (nonlinear_arith)
            requires deviation == root as u128 / n128, n128 > 0;
    }
    MetricStats {
        mean: (sum / n128) as u64,
        min: lowest,
        max: highest,
        std_dev: deviation as u64,
        count: n,
        current: samples[n - 1].value,
    }
}


/// The samples of `s` whose timestamp is at least `cutoff`, in order.
pub open spec fn keep_recent(s: Seq<TimestampedValue>, cutoff: u64) -> Seq<TimestampedValue>
    decreases s.len(),
{
    if s.len() == 0 {
        s
    } else {
        let r = keep_recent(s.drop_last(), cutoff);
        if s.last().timestamp >= cutoff { r.push(s.last()) } else { r }
    }
}

/// `s` without its leading samples older than `cutoff`.
pub open spec fn drop_stale(s: Seq<TimestampedValue>, cutoff: u64) -> Seq<TimestampedValue>
    decreases s.len(),
{
    if s.len() > 0 && s[0].timestamp < cutoff {
        drop_stale(s.drop_first(), cutoff)
    } else {
        s
    }
}

/// The newest `max_size` items of `s` (all of them when there are fewer).
pub open spec fn newest<T>(s: Seq<T>, max_size: nat) -> Seq<T> {
    if s.len() > max_size {
        s.subrange(s.len() - max_size, s.len() as int)
    } else {
        s
    }
}

/// The contents of a ring of capacity `cap` after pushing each of `xs` in turn.
pub open spec fn push_all<T>(s: Seq<T>, cap: nat, xs: Seq<T>) -> Seq<T>
    decreases xs.len(),
{
    if xs.len() == 0 {
        s
    } else {
        ring_push(push_all(s, cap, xs.drop_last()), cap, xs.last())
    }
}

/// A queue that the wrappers can have produced and whose values a history accepts.
pub open spec fn series_ok(q: CircularQueue<TimestampedValue>, cap: usize) -> bool {
    &&& queue_capacity(q) == cap
    &&& queue_items(q).len() <= cap
    &&& values_in_range(queue_items(q))
}

pub proof fn lemma_keep_recent_len(s: Seq<TimestampedValue>, cutoff: u64)
    ensures
        keep_recent(s, cutoff).len() <= s.len(),
        values_in_range(s) ==> values_in_range(keep_recent(s, cutoff)),
        forall|i: int| 0 <= i < keep_recent(s, cutoff).len()
            ==> #[trigger] keep_recent(s, cutoff)[i].timestamp >= cutoff,
    decreases s.len(),
{
    if s.len() > 0 {
        let t = s.drop_last();
        lemma_keep_recent_len(t, cutoff);
        if values_in_range(s) {
            assert(values_in_range(t)) by {
                assert forall|i: int| 0 <= i < t.len() implies #[trigger] t[i].value <= MAX_SAMPLE_VALUE by {
                    assert(t[i] == s[i]);
                }
            }
            assert(s.last().value <= MAX_SAMPLE_VALUE) by { assert(s.last() == s[s.len() - 1]); }
        }
    }
}

/// Trimming twice with the same cutoff leaves what trimming once leaves.
pub proof fn lemma_trim_idempotent(s: Seq<TimestampedValue>, cutoff: u64)
    ensures
        keep_recent(keep_recent(s, cutoff), cutoff) == keep_recent(s, cutoff),
        drop_stale(drop_stale(s, cutoff), cutoff) == drop_stale(s, cutoff),
    decreases s.len(),
{
    if s.len() > 0 {
        let t = s.drop_last();
        lemma_trim_idempotent(t, cutoff);
        let r = keep_recent(t, cutoff);
        if s.last().timestamp >= cutoff {
            assert(r.push(s.last()).drop_last() == r);
        }
        lemma_drop_stale_fixed(s, cutoff);
    }
}

/// Trimming at `earlier` and then at `later` leaves what trimming at `later` alone leaves.
pub proof fn lemma_trim_monotone(s: Seq<TimestampedValue>, earlier: u64, later: u64)
    requires
        earlier <= later,
    ensures
        keep_recent(keep_recent(s, earlier), later) == keep_recent(s, later),
    decreases s.len(),
{
    if s.len() > 0 {
        let t = s.drop_last();
        lemma_trim_monotone(t, earlier, later);
        let r = keep_recent(t, earlier);
        if s.last().timestamp >= earlier {
            assert(r.push(s.last()).drop_last() == r);
        }
    }
}

proof fn lemma_drop_stale_fixed(s: Seq<TimestampedValue>, cutoff: u64)
    ensures
        drop_stale(s, cutoff).len() == 0 || drop_stale(s, cutoff)[0].timestamp >= cutoff,
        drop_stale(drop_stale(s, cutoff), cutoff) == drop_stale(s, cutoff),
    decreases s.len(),
{
    if s.len() > 0 && s[0].timestamp < cutoff {
        lemma_drop_stale_fixed(s.drop_first(), cutoff);
    }
}

/// A ring of capacity `cap` that starts empty and is pushed `xs` holds the last
/// `min(|xs|, cap)` of them, in the order they were pushed.
pub proof fn lemma_bounded_buffer<T>(cap: nat, xs: Seq<T>)
    requires
        cap > 0,
    ensures
        push_all(Seq::<T>::empty(), cap, xs) == newest(xs, cap),
        push_all(Seq::<T>::empty(), cap, xs).len() == if xs.len() > cap { cap } else { xs.len() },
    decreases xs.len(),
{
    if xs.len() > 0 {
        let t = xs.drop_last();
        lemma_bounded_buffer(cap, t);
        let r = newest(t, cap);
        if t.len() < cap {
            assert(r == t);
            assert(t.push(xs.last()) == xs);
        } else {
            assert(r.len() == cap);
            assert(r.drop_first().push(xs.last()) == xs.subrange(xs.len() - cap, xs.len() as int));
        }
    }
}

/// A deque holding `s` after `push_value_to_deque` of each of `xs` in turn with `max_size`.
pub open spec fn deque_after_pushes(s: Seq<TimestampedValue>, max_size: nat, xs: Seq<TimestampedValue>)
    -> Seq<TimestampedValue>
    decreases xs.len(),
{
    if xs.len() == 0 {
        s
    } else {
        newest(deque_after_pushes(s, max_size, xs.drop_last()).push(xs.last()), max_size)
    }
}

/// A deque that starts empty and receives `xs` through `push_value_to_deque`
/// with one `max_size` holds the last `min(|xs|, max_size)` of them, in the
/// order they were pushed.
pub proof fn lemma_deque_bounded_buffer(max_size: nat, xs: Seq<TimestampedValue>)
    ensures
        deque_after_pushes(Seq::empty(), max_size, xs) == newest(xs, max_size),
        deque_after_pushes(Seq::empty(), max_size, xs).len()
            == if xs.len() > max_size { max_size } else { xs.len() },
    decreases xs.len(),
{
    if xs.len() > 0 {
        let t = xs.drop_last();
        lemma_deque_bounded_buffer(max_size, t);
        let r = newest(t, max_size);
        if t.len() <= max_size {
            assert(r == t);
            assert(t.push(xs.last()) == xs);
        } else {
            assert(r.len() == max_size);
            let p = r.push(xs.last());
            assert(p.subrange(1, p.len() as int) == xs.subrange(xs.len() - max_size, xs.len() as int));
        }
    }
}

/// Copies the items of a deque into a vector, in order.
fn deque_to_vec(data: &VecDeque<TimestampedValue>) -> (v: Vec<TimestampedValue>)
    ensures
        v@ == data@,
{
    let mut v: Vec<TimestampedValue> = Vec::new();
    let mut i: usize = 0;
    while i < data.len()
        invariant
            i <= data@.len(),
            v@ == data@.take(i as int),
        decreases data@.len() - i,
    {
        v.push(data[i]);
        i = i + 1;
        assert(v@ == data@.take(i as int));
    }
    assert(data@.take(i as int) == data@);
    v
}

/// Keeps the samples of `v` whose timestamp is at least `cutoff`.
fn keep_recent_vec(v: &Vec<TimestampedValue>, cutoff: u64) -> (r: Vec<TimestampedValue>)
    ensures
        r@ == keep_recent(v@, cutoff),
{
    let mut r: Vec<TimestampedValue> = Vec::new();
    let mut i: usize = 0;
    while i < v.len()
        invariant
            i <= v@.len(),
            r@ == keep_recent(v@.take(i as int), cutoff),
        decreases v@.len() - i,
    {
        let item = v[i];
        assert(v@.take(i as int + 1).drop_last() == v@.take(i as int));
        if item.timestamp >= cutoff {
            r.push(item);
        }
        i = i + 1;
    }
    assert(v@.take(i as int) == v@);
    r
}

/// Stateless operations on series of samples.
pub struct DataAnalyzer;

impl DataAnalyzer {
    /// The statistics of the samples in `data`.
    pub fn get_stats(data: &VecDeque<TimestampedValue>) -> (r: MetricStats)
        requires
            data@.len() <= MAX_CAPACITY,
            values_in_range(data@),
        ensures
            is_stats_of(r, data@),
            r.count == data@.len(),
    {
        let v = deque_to_vec(data);
        stats_of_vec(&v)
    }

    /// Appends a sample, then drops the oldest ones until at most `max_size` are left.
    pub fn push_value_to_deque(
        deque: &mut VecDeque<TimestampedValue>,
        value: u64,
        timestamp: u64,
        max_size: usize,
    )
        ensures
            final(deque)@ == newest(old(deque)@.push(TimestampedValue { timestamp, value }), max_size as nat),
    {
        let ghost pushed = old(deque)@.push(TimestampedValue { timestamp, value });
        deque.push_back(TimestampedValue { timestamp, value });
        while deque.len() > max_size
            invariant
                deque@.len() >= max_size ==> deque@ == pushed.subrange(pushed.len() - deque@.len(), pushed.len() as int),
                deque@.len() < max_size ==> deque@ == pushed,
                deque@.len() <= pushed.len(),
            decreases deque@.len(),
        {
            deque.pop_front();
        }
        proof {
            if pushed.len() > max_size {
                assert(deque@.len() == max_size);
            } else {
                assert(deque@ == pushed) by {
                    if deque@.len() >= max_size {
                        assert(deque@.len() == pushed.len());
                        assert(pushed.subrange(0, pushed.len() as int) == pushed);
                    }
                }
            }
        }
    }

    /// Drops samples older than `cutoff` from the front of the deque.
    pub fn trim_deque(deque: &mut VecDeque<TimestampedValue>, cutoff: u64)
        ensures
            final(deque)@ == drop_stale(old(deque)@, cutoff),
    {
        while deque.len() > 0 && deque[0].timestamp < cutoff
            invariant
                drop_stale(deque@, cutoff) == drop_stale(old(deque)@, cutoff),
            decreases deque@.len(),
        {
            deque.pop_front();
        }
    }

    /// The statistics of the samples held by a queue, oldest to newest.
    pub fn get_stats_from_circular_queue(cq: &CircularQueue<TimestampedValue>) -> (r: MetricStats)
        requires
            queue_items(*cq).len() <= MAX_CAPACITY,
            values_in_range(queue_items(*cq)),
        ensures
            is_stats_of(r, queue_items(*cq)),
            r.count == queue_items(*cq).len(),
    {
        let v = queue_to_vec(cq);
        stats_of_vec(&v)
    }

    /// Removes every sample older than `cutoff`, keeping the order of the rest.
    pub fn trim_circular_queue(cq: &mut CircularQueue<TimestampedValue>, cutoff: u64)
        requires
            queue_items(*old(cq)).len() <= queue_capacity(*old(cq)),
        ensures
            queue_capacity(*final(cq)) == queue_capacity(*old(cq)),
            queue_items(*final(cq)) == keep_recent(queue_items(*old(cq)), cutoff),
    {
        let all = queue_to_vec(cq);
        let kept = keep_recent_vec(&all, cutoff);
        proof {
            lemma_keep_recent_len(all@, cutoff);
        }
        queue_clear(cq);
        let ghost cap = queue_capacity(*cq);
        let mut j: usize = 0;
        while j < kept.len()
            invariant
                j <= kept@.len(),
                kept@.len() <= cap,
                cap == queue_capacity(*old(cq)),
                queue_capacity(*cq) == cap,
                queue_items(*cq) == kept@.take(j as int),
            decreases kept@.len() - j,
        {
            queue_push(cq, kept[j]);
            assert(kept@.take(j as int).push(kept@[j as int]) == kept@.take(j as int + 1));
            j = j + 1;
        }
        assert(kept@.take(j as int) == kept@);
    }
}


/// Samples kept per series by default: five minutes at one sample a second.
pub const HISTORY_SIZE: usize = 300;

/// How long a model's samples are kept, in seconds.
pub const MODEL_RETENTION_SECS: u64 = 305;

/// How long the system-wide samples are kept, in seconds.
pub const SYSTEM_RETENTION_SECS: u64 = 300;

/// The earliest timestamp a retention window of `window` seconds keeps at `now`.
pub open spec fn cutoff_at(now: u64, window: u64) -> u64 {
    if now >= window { (now - window) as u64 } else { 0 }
}

/// Readiness of a model, as the service reports it.
#[derive(Debug, Clone, Copy, PartialEq, Eq)]
pub enum ModelState {
    Running,
    Loading,
    Unknown,
}

/// The readiness that a reported state text stands for.
pub open spec fn model_state_of(state: Seq<char>) -> ModelState {
    if state == "ready"@ {
        ModelState::Running
    } else if state == "starting"@ || state == "stopping"@ {
        ModelState::Loading
    } else {
        ModelState::Unknown
    }
}

/// A model the service lists as running, with its reported state text.
#[derive(Debug, Clone)]
pub struct RunningModel {
    pub model: String,
    pub state: String,
}

impl RunningModel {
    /// `ready` is running, `starting` and `stopping` are loading, anything else is unknown.
    pub fn model_state(&self) -> (r: ModelState)
        ensures
            r == model_state_of(self.state@),
    {
        if str_eq(self.state.as_str(), "ready") {
            ModelState::Running
        } else if str_eq(self.state.as_str(), "starting") || str_eq(self.state.as_str(), "stopping") {
            ModelState::Loading
        } else {
            ModelState::Unknown
        }
    }
}

/// The list of running models the service reports.
#[derive(Debug, Clone)]
pub struct RunningResponse {
    pub running: Vec<RunningModel>,
}

/// Per-model figures from one probe. Rates and memory are fixed-point values.
#[derive(Debug, Clone, Copy, PartialEq, Eq)]
pub struct Metrics {
    pub prompt_tokens_per_sec: u64,
    pub predicted_tokens_per_sec: u64,
    pub requests_processing: u32,
    pub requests_deferred: u32,
    pub n_decode_total: u32,
    pub memory_mb: u64,
}

impl Default for Metrics {
    fn default() -> (r: Metrics)
        ensures
            r == (Metrics {
                prompt_tokens_per_sec: 0,
                predicted_tokens_per_sec: 0,
                requests_processing: 0,
                requests_deferred: 0,
                n_decode_total: 0,
                memory_mb: 0,
            }),
    {
        Metrics {
            prompt_tokens_per_sec: 0,
            predicted_tokens_per_sec: 0,
            requests_processing: 0,
            requests_deferred: 0,
            n_decode_total: 0,
            memory_mb: 0,
        }
    }
}

impl Metrics {
    /// The queue depth (requests in progress plus waiting) as a fixed-point value.
    pub open spec fn queue_depth(&self) -> int {
        (self.requests_processing + self.requests_deferred) * UNITS_PER_WHOLE
    }

    /// Every figure a history records fits the accepted range.
    pub open spec fn in_range(&self) -> bool {
        &&& self.prompt_tokens_per_sec <= MAX_SAMPLE_VALUE
        &&& self.predicted_tokens_per_sec <= MAX_SAMPLE_VALUE
        &&& self.memory_mb <= MAX_SAMPLE_VALUE
        &&& self.queue_depth() <= MAX_SAMPLE_VALUE
    }
}

/// How busy a model's request queue is.
#[derive(Debug, Clone, Copy, PartialEq, Eq, Structural)]
pub enum QueueStatus {
    Idle,
    Active(u32),
    Queued(u32),
    ActiveAndQueued(u32, u32),
}

impl Metrics {
    pub open spec fn queue_status_spec(self) -> QueueStatus {
        if self.requests_processing == 0 && self.requests_deferred == 0 {
            QueueStatus::Idle
        } else if self.requests_deferred == 0 {
            QueueStatus::Active(self.requests_processing)
        } else if self.requests_processing == 0 {
            QueueStatus::Queued(self.requests_deferred)
        } else {
            QueueStatus::ActiveAndQueued(self.requests_processing, self.requests_deferred)
        }
    }

    /// Requests in progress and waiting, by which of them there are.
    pub fn queue_status(&self) -> (r: QueueStatus)
        ensures
            r == self.queue_status_spec(),
    {
        if self.requests_processing == 0 && self.requests_deferred == 0 {
            QueueStatus::Idle
        } else if self.requests_deferred == 0 {
            QueueStatus::Active(self.requests_processing)
        } else if self.requests_processing == 0 {
            QueueStatus::Queued(self.requests_deferred)
        } else {
            QueueStatus::ActiveAndQueued(self.requests_processing, self.requests_deferred)
        }
    }
}

/// A model's name, its readiness and its figures from one probe.
#[derive(Debug, Clone)]
pub struct ModelMetrics {
    pub model_name: String,
    pub model_state: ModelState,
    pub metrics: Metrics,
}

/// Host-wide figures from one probe, as fixed-point values.
#[derive(Debug, Clone, Copy, PartialEq, Eq)]
pub struct SystemMetrics {
    pub cpu_usage_percent: u64,
    pub used_memory_gb: u64,
    pub memory_usage_percent: u64,
}

impl SystemMetrics {
    pub open spec fn in_range(&self) -> bool {
        &&& self.cpu_usage_percent <= MAX_SAMPLE_VALUE
        &&& self.used_memory_gb <= MAX_SAMPLE_VALUE
        &&& self.memory_usage_percent <= MAX_SAMPLE_VALUE
    }
}

/// Everything one successful probe reported.
#[derive(Debug, Clone)]
pub struct AllMetrics {
    pub models: Vec<ModelMetrics>,
    pub total_llama_memory_mb: u64,
    pub system_metrics: SystemMetrics,
}

/// `q` holds what a queue of capacity `cap` holding `before` holds once
/// `sample` is pushed and the samples older than `cutoff` are dropped.
pub open spec fn recorded(
    q: CircularQueue<TimestampedValue>,
    before: Seq<TimestampedValue>,
    cap: usize,
    sample: TimestampedValue,
    cutoff: u64,
) -> bool {
    &&& queue_capacity(q) == cap
    &&& queue_items(q) == keep_recent(ring_push(before, cap as nat, sample), cutoff)
}

/// `q` holds what `q0` held, without the samples older than `cutoff`.
pub open spec fn trimmed(
    q: CircularQueue<TimestampedValue>,
    q0: CircularQueue<TimestampedValue>,
    cutoff: u64,
) -> bool {
    &&& queue_capacity(q) == queue_capacity(q0)
    &&& queue_items(q) == keep_recent(queue_items(q0), cutoff)
}

/// The four series of one model: generation speed, prompt speed, memory and queue depth.
#[derive(Debug)]
pub struct MetricsHistory {
    pub tps: CircularQueue<TimestampedValue>,
    pub prompt_tps: CircularQueue<TimestampedValue>,
    pub memory_mb: CircularQueue<TimestampedValue>,
    pub queue_size: CircularQueue<TimestampedValue>,
    pub max_size: usize,
}

impl MetricsHistory {
    pub open spec fn wf(&self) -> bool {
        &&& self.max_size <= MAX_CAPACITY
        &&& series_ok(self.tps, self.max_size)
        &&& series_ok(self.prompt_tps, self.max_size)
        &&& series_ok(self.memory_mb, self.max_size)
        &&& series_ok(self.queue_size, self.max_size)
    }

    /// Every series is empty.
    pub open spec fn is_empty(&self) -> bool {
        &&& queue_items(self.tps).len() == 0
        &&& queue_items(self.prompt_tps).len() == 0
        &&& queue_items(self.memory_mb).len() == 0
        &&& queue_items(self.queue_size).len() == 0
    }

    /// `self` holds the four series given, each with `m`'s figure at `timestamp`
    /// pushed, then trimmed to the model retention window ending at `timestamp`.
    pub open spec fn records(
        &self,
        tps: Seq<TimestampedValue>,
        prompt_tps: Seq<TimestampedValue>,
        memory_mb: Seq<TimestampedValue>,
        queue_size: Seq<TimestampedValue>,
        m: Metrics,
        timestamp: u64,
    ) -> bool {
        let cutoff = cutoff_at(timestamp, MODEL_RETENTION_SECS);
        let cap = self.max_size;
        &&& recorded(self.tps, tps, cap,
            TimestampedValue { timestamp, value: m.predicted_tokens_per_sec }, cutoff)
        &&& recorded(self.prompt_tps, prompt_tps, cap,
            TimestampedValue { timestamp, value: m.prompt_tokens_per_sec }, cutoff)
        &&& recorded(self.memory_mb, memory_mb, cap,
            TimestampedValue { timestamp, value: m.memory_mb }, cutoff)
        &&& recorded(self.queue_size, queue_size, cap,
            TimestampedValue { timestamp, value: m.queue_depth() as u64 }, cutoff)
    }

    /// `self` is `prev` after recording `m` at `timestamp`.
    pub open spec fn is_push_of(&self, prev: MetricsHistory, m: Metrics, timestamp: u64) -> bool {
        &&& self.max_size == prev.max_size
        &&& self.records(queue_items(prev.tps), queue_items(prev.prompt_tps),
            queue_items(prev.memory_mb), queue_items(prev.queue_size), m, timestamp)
    }

    /// `self` is `prev` with every series trimmed at `cutoff`.
    pub open spec fn is_trim_of(&self, prev: MetricsHistory, cutoff: u64) -> bool {
        &&& self.max_size == prev.max_size
        &&& trimmed(self.tps, prev.tps, cutoff)
        &&& trimmed(self.prompt_tps, prev.prompt_tps, cutoff)
        &&& trimmed(self.memory_mb, prev.memory_mb, cutoff)
        &&& trimmed(self.queue_size, prev.queue_size, cutoff)
    }

    /// Empty series that keep `HISTORY_SIZE` samples each.
    pub fn new() -> (r: Self)
        ensures
            r.wf(),
            r.max_size == HISTORY_SIZE,
            r.is_empty(),
    {
        Self::with_capacity(HISTORY_SIZE)
    }

    /// Empty series that keep `capacity` samples each.
    pub fn with_capacity(capacity: usize) -> (r: Self)
        requires
            capacity <= MAX_CAPACITY,
        ensures
            r.wf(),
            r.max_size == capacity,
            r.is_empty(),
    {
        MetricsHistory {
            tps: queue_new(capacity),
            prompt_tps: queue_new(capacity),
            memory_mb: queue_new(capacity),
            queue_size: queue_new(capacity),
            max_size: capacity,
        }
    }

    /// Records one probe's figures at the current time and trims to the retention window.
    pub fn push(&mut self, metrics: &Metrics)
        requires
            old(self).wf(),
            metrics.in_range(),
        ensures
            final(self).wf(),
            exists|now: u64| final(self).is_push_of(*old(self), *metrics, now),
    {
        let now = current_timestamp();
        self.push_at(metrics, now);
    }

    /// Records one probe's figures at `timestamp` and trims to the retention window ending there.
    pub fn push_at(&mut self, metrics: &Metrics, timestamp: u64)
        requires
            old(self).wf(),
            metrics.in_range(),
        ensures
            final(self).wf(),
            final(self).is_push_of(*old(self), *metrics, timestamp),
    {
        let cap = self.max_size;
        let cutoff = if timestamp >= MODEL_RETENTION_SECS { timestamp - MODEL_RETENTION_SECS } else { 0 };
        let depth = (metrics.requests_processing as u64 + metrics.requests_deferred as u64) * UNITS_PER_WHOLE;
        record_sample(&mut self.tps, cap, TimestampedValue { timestamp, value: metrics.predicted_tokens_per_sec }, cutoff);
        record_sample(&mut self.prompt_tps, cap, TimestampedValue { timestamp, value: metrics.prompt_tokens_per_sec }, cutoff);
        record_sample(&mut self.memory_mb, cap, TimestampedValue { timestamp, value: metrics.memory_mb }, cutoff);
        record_sample(&mut self.queue_size, cap, TimestampedValue { timestamp, value: depth }, cutoff);
    }

    /// Drops the samples that have left the retention window at the current time.
    pub fn trim_old_data(&mut self)
        requires
            old(self).wf(),
        ensures
            final(self).wf(),
            exists|now: u64| final(self).is_trim_of(*old(self), cutoff_at(now, MODEL_RETENTION_SECS)),
    {
        let now = current_timestamp();
        let cutoff = if now >= MODEL_RETENTION_SECS { now - MODEL_RETENTION_SECS } else { 0 };
        self.trim_before(cutoff);
        assert(self.is_trim_of(*old(self), cutoff_at(now, MODEL_RETENTION_SECS)));
    }

    /// Drops every sample older than `cutoff`.
    pub fn trim_before(&mut self, cutoff: u64)
        requires
            old(self).wf(),
        ensures
            final(self).wf(),
            final(self).is_trim_of(*old(self), cutoff),
    {
        trim_series(&mut self.tps, cutoff);
        trim_series(&mut self.prompt_tps, cutoff);
        trim_series(&mut self.memory_mb, cutoff);
        trim_series(&mut self.queue_size, cutoff);
    }

    /// The statistics of one of the series.
    pub fn get_stats(&self, circular_queue: &CircularQueue<TimestampedValue>) -> (r: MetricStats)
        requires
            queue_items(*circular_queue).len() <= MAX_CAPACITY,
            values_in_range(queue_items(*circular_queue)),
        ensures
            is_stats_of(r, queue_items(*circular_queue)),
    {
        DataAnalyzer::get_stats_from_circular_queue(circular_queue)
    }

    /// Whether every series is empty.
    pub fn has_no_data(&self) -> (r: bool)
        ensures
            r == self.is_empty(),
    {
        queue_len(&self.tps) == 0 && queue_len(&self.prompt_tps) == 0
            && queue_len(&self.memory_mb) == 0 && queue_len(&self.queue_size) == 0
    }
}

/// Trims a well-formed series, keeping it well formed.
fn trim_series(q: &mut CircularQueue<TimestampedValue>, cutoff: u64)
    requires
        series_ok(*old(q), queue_capacity(*old(q)) as usize),
        queue_capacity(*old(q)) <= MAX_CAPACITY,
    ensures
        series_ok(*final(q), queue_capacity(*old(q)) as usize),
        trimmed(*final(q), *old(q), cutoff),
{
    proof {
        lemma_keep_recent_len(queue_items(*q), cutoff);
    }
    DataAnalyzer::trim_circular_queue(q, cutoff);
}

/// Pushes `sample` onto a well-formed series, then trims it at `cutoff`.
fn record_sample(q: &mut CircularQueue<TimestampedValue>, cap: usize, sample: TimestampedValue, cutoff: u64)
    requires
        series_ok(*old(q), cap),
        cap <= MAX_CAPACITY,
        sample.value <= MAX_SAMPLE_VALUE,
    ensures
        series_ok(*final(q), cap),
        recorded(*final(q), queue_items(*old(q)), cap, sample, cutoff),
{
    push_sample(q, cap, sample);
    trim_series(q, cutoff);
}

/// Pushes `sample` onto a well-formed series, keeping it well formed.
fn push_sample(q: &mut CircularQueue<TimestampedValue>, cap: usize, sample: TimestampedValue)
    requires
        series_ok(*old(q), cap),
        sample.value <= MAX_SAMPLE_VALUE,
    ensures
        series_ok(*final(q), cap),
        queue_items(*final(q)) == ring_push(queue_items(*old(q)), cap as nat, sample),
{
    let ghost before = queue_items(*q);
    queue_push(q, sample);
    proof {
        let after = queue_items(*q);
        assert forall|i: int| 0 <= i < after.len() implies #[trigger] after[i].value <= MAX_SAMPLE_VALUE by {
            if cap == 0 {
            } else if before.len() < cap {
                if i < before.len() { assert(after[i] == before[i]); }
            } else {
                if i < before.len() - 1 { assert(after[i] == before[i + 1]); }
            }
        }
    }
}

#[verifier::external_type_specification]
#[verifier::external_body]
pub struct ExSystemTime(std::time::SystemTime);

/// Relies on `SystemTime::now`: a reading of the system clock, of which nothing is promised.
pub assume_specification[ std::time::SystemTime::now ]() -> std::time::SystemTime;

/// Relies on `SystemTime::duration_since`: the whole seconds from the Unix
/// epoch to `t`, or zero when `t` is earlier than the epoch.
#[verifier::external_body]
fn secs_since_epoch(t: std::time::SystemTime) -> (r: u64) {
    t.duration_since(std::time::UNIX_EPOCH).map_or(0, |d| d.as_secs())
}

/// Seconds since the Unix epoch by the system clock.
pub(crate) fn current_timestamp() -> (r: u64) {
    secs_since_epoch(std::time::SystemTime::now())
}
/// The history of one model, under the model's name.
#[derive(Debug)]
pub struct ModelMetricsHistory {
    pub model_name: String,
    pub history: MetricsHistory,
}

/// `i` is the first position in `models` of an entry named `name`.
pub open spec fn is_first_named(models: Seq<ModelMetricsHistory>, name: Seq<char>, i: int) -> bool {
    &&& 0 <= i < models.len()
    &&& models[i].model_name@ == name
    &&& forall|j: int| 0 <= j < i ==> #[trigger] models[j].model_name@ != name
}

/// No entry of `models` is named `name`.
pub open spec fn lacks_name(models: Seq<ModelMetricsHistory>, name: Seq<char>) -> bool {
    forall|j: int| 0 <= j < models.len() ==> #[trigger] models[j].model_name@ != name
}

/// Every series of `e` would be empty once trimmed at `cutoff`.
pub open spec fn empties_at(e: ModelMetricsHistory, cutoff: u64) -> bool {
    &&& keep_recent(queue_items(e.history.tps), cutoff).len() == 0
    &&& keep_recent(queue_items(e.history.prompt_tps), cutoff).len() == 0
    &&& keep_recent(queue_items(e.history.memory_mb), cutoff).len() == 0
    &&& keep_recent(queue_items(e.history.queue_size), cutoff).len() == 0
}

/// `kept` is `prev` with every entry trimmed at `cutoff` and the entries left
/// without any sample removed, the others kept in order.
pub open spec fn pruned(kept: Seq<ModelMetricsHistory>, prev: Seq<ModelMetricsHistory>, cutoff: u64) -> bool
    decreases prev.len(),
{
    if prev.len() == 0 {
        kept.len() == 0
    } else if empties_at(prev.last(), cutoff) {
        pruned(kept, prev.drop_last(), cutoff)
    } else {
        &&& kept.len() > 0
        &&& kept.last().model_name == prev.last().model_name
        &&& kept.last().history.is_trim_of(prev.last().history, cutoff)
        &&& pruned(kept.drop_last(), prev.drop_last(), cutoff)
    }
}

/// Histories of every model plus the host-wide series.
#[derive(Debug)]
pub struct AllMetricsHistory {
    pub models: Vec<ModelMetricsHistory>,
    pub total_llama_memory_mb: CircularQueue<TimestampedValue>,
    pub cpu_usage_percent: CircularQueue<TimestampedValue>,
    pub memory_usage_percent: CircularQueue<TimestampedValue>,
    pub used_memory_gb: CircularQueue<TimestampedValue>,
    pub max_size: usize,
}

impl AllMetricsHistory {
    pub open spec fn entries_ok(models: Seq<ModelMetricsHistory>, max_size: usize) -> bool {
        forall|i: int| 0 <= i < models.len() ==> {
            &&& (#[trigger] models[i]).history.wf()
            &&& models[i].history.max_size == max_size
        }
    }

    /// No two entries share a name.
    pub open spec fn distinct_model_names(models: Seq<ModelMetricsHistory>) -> bool {
        forall|i: int, j: int| 0 <= i < j < models.len()
            ==> #[trigger] models[i].model_name@ != #[trigger] models[j].model_name@
    }

    pub open spec fn wf(&self) -> bool {
        &&& self.max_size <= MAX_CAPACITY
        &&& Self::distinct_model_names(self.models@)
        &&& series_ok(self.total_llama_memory_mb, self.max_size)
        &&& series_ok(self.cpu_usage_percent, self.max_size)
        &&& series_ok(self.memory_usage_percent, self.max_size)
        &&& series_ok(self.used_memory_gb, self.max_size)
        &&& Self::entries_ok(self.models@, self.max_size)
    }

    /// The host-wide series are those of `prev`.
    pub open spec fn same_system(&self, prev: AllMetricsHistory) -> bool {
        &&& self.total_llama_memory_mb == prev.total_llama_memory_mb
        &&& self.cpu_usage_percent == prev.cpu_usage_percent
        &&& self.memory_usage_percent == prev.memory_usage_percent
        &&& self.used_memory_gb == prev.used_memory_gb
        &&& self.max_size == prev.max_size
    }

    /// No models and empty host-wide series that keep `HISTORY_SIZE` samples each.
    pub fn new() -> (r: Self)
        ensures
            r.wf(),
            r.max_size == HISTORY_SIZE,
            r.models@.len() == 0,
    {
        Self::with_capacity(HISTORY_SIZE)
    }

    /// No models and empty host-wide series that keep `capacity` samples each.
    pub fn with_capacity(capacity: usize) -> (r: Self)
        requires
            capacity <= MAX_CAPACITY,
        ensures
            r.wf(),
            r.max_size == capacity,
            r.models@.len() == 0,
            queue_items(r.total_llama_memory_mb).len() == 0,
            queue_items(r.cpu_usage_percent).len() == 0,
            queue_items(r.memory_usage_percent).len() == 0,
            queue_items(r.used_memory_gb).len() == 0,
    {
        AllMetricsHistory {
            models: Vec::new(),
            total_llama_memory_mb: queue_new(capacity),
            cpu_usage_percent: queue_new(capacity),
            memory_usage_percent: queue_new(capacity),
            used_memory_gb: queue_new(capacity),
            max_size: capacity,
        }
    }

    /// `self` is `prev` with one host-wide sample of each series appended at `timestamp`.
    pub open spec fn is_system_record_of(&self, prev: AllMetricsHistory, system: SystemMetrics,
        llama_memory_mb: u64, timestamp: u64) -> bool {
        let cap = prev.max_size as nat;
        &&& self.models == prev.models
        &&& self.max_size == prev.max_size
        &&& queue_items(self.cpu_usage_percent) == ring_push(queue_items(prev.cpu_usage_percent), cap,
            TimestampedValue { timestamp, value: system.cpu_usage_percent })
        &&& queue_items(self.memory_usage_percent) == ring_push(queue_items(prev.memory_usage_percent), cap,
            TimestampedValue { timestamp, value: system.memory_usage_percent })
        &&& queue_items(self.used_memory_gb) == ring_push(queue_items(prev.used_memory_gb), cap,
            TimestampedValue { timestamp, value: system.used_memory_gb })
        &&& queue_items(self.total_llama_memory_mb) == ring_push(queue_items(prev.total_llama_memory_mb), cap,
            TimestampedValue { timestamp, value: llama_memory_mb })
    }

    /// Appends one host-wide sample of each series at `timestamp`.
    pub fn record_system(&mut self, system: &SystemMetrics, llama_memory_mb: u64, timestamp: u64)
        requires
            old(self).wf(),
            system.in_range(),
            llama_memory_mb <= MAX_SAMPLE_VALUE,
        ensures
            final(self).wf(),
            final(self).is_system_record_of(*old(self), *system, llama_memory_mb, timestamp),
    {
        let cap = self.max_size;
        push_sample(&mut self.cpu_usage_percent, cap, TimestampedValue { timestamp, value: system.cpu_usage_percent });
        push_sample(&mut self.memory_usage_percent, cap, TimestampedValue { timestamp, value: system.memory_usage_percent });
        push_sample(&mut self.used_memory_gb, cap, TimestampedValue { timestamp, value: system.used_memory_gb });
        push_sample(&mut self.total_llama_memory_mb, cap, TimestampedValue { timestamp, value: llama_memory_mb });
    }

    /// The position of the first entry named `name`, if any.
    fn position_of(&self, name: &str) -> (r: Option<usize>)
        ensures
            match r {
                Some(i) => is_first_named(self.models@, name@, i as int),
                None => lacks_name(self.models@, name@),
            },
    {
        let mut i: usize = 0;
        while i < self.models.len()
            invariant
                i <= self.models@.len(),
                forall|j: int| 0 <= j < i ==> #[trigger] self.models@[j].model_name@ != name@,
            decreases self.models@.len() - i,
        {
            if str_eq(self.models[i].model_name.as_str(), name) {
                return Some(i);
            }
            i = i + 1;
        }
        None
    }

    /// `self` is `prev` after recording `metrics` for the model named `name` at
    /// `timestamp`: the first entry of that name is pushed onto, or, when there
    /// is none, a new entry of that name is appended holding just this record.
    pub open spec fn is_record_of(&self, prev: AllMetricsHistory, name: Seq<char>, metrics: Metrics, timestamp: u64) -> bool {
        &&& self.same_system(prev)
        &&& forall|i: int| is_first_named(prev.models@, name, i) ==> {
            &&& self.models@.len() == prev.models@.len()
            &&& self.models@[i].model_name == prev.models@[i].model_name
            &&& self.models@[i].history.is_push_of(prev.models@[i].history, metrics, timestamp)
            &&& forall|j: int| 0 <= j < prev.models@.len() && j != i
                ==> #[trigger] self.models@[j] == prev.models@[j]
        }
        &&& lacks_name(prev.models@, name) ==> {
            &&& self.models@.len() == prev.models@.len() + 1
            &&& self.models@.take(prev.models@.len() as int) == prev.models@
            &&& self.models@.last().model_name@ == name
            &&& self.models@.last().history.max_size == prev.max_size
            &&& self.models@.last().history.records(Seq::empty(), Seq::empty(),
                Seq::empty(), Seq::empty(), metrics, timestamp)
        }
    }

    /// `trace` runs from `prev` to `self`, each step recording the next model of `models`.
    pub open spec fn is_record_trace(&self, prev: AllMetricsHistory, models: Seq<ModelMetrics>,
        timestamp: u64, trace: Seq<AllMetricsHistory>) -> bool {
        &&& trace.len() == models.len() + 1
        &&& trace[0] == prev
        &&& trace.last() == *self
        &&& forall|i: int| 0 <= i < models.len() ==> #[trigger] trace[i + 1].is_record_of(trace[i],
            models[i].model_name@, models[i].metrics, timestamp)
    }

    /// `self` is `prev` after recording each model of `models` in turn at `timestamp`.
    pub open spec fn is_record_all_of(&self, prev: AllMetricsHistory, models: Seq<ModelMetrics>, timestamp: u64) -> bool {
        exists|trace: Seq<AllMetricsHistory>| self.is_record_trace(prev, models, timestamp, trace)
    }

    /// Records `metrics` for the model named `model_name` at `timestamp`,
    /// creating its history on first use.
    pub fn record_model(&mut self, model_name: &String, metrics: &Metrics, timestamp: u64)
        requires
            old(self).wf(),
            metrics.in_range(),
        ensures
            final(self).wf(),
            final(self).is_record_of(*old(self), model_name@, *metrics, timestamp),
    {
        match self.position_of(model_name.as_str()) {
            Some(i) => {
                assert forall|i2: int| is_first_named(old(self).models@, model_name@, i2) implies i2 == i by {
                    if i2 < i {
                        assert(old(self).models@[i2].model_name@ != model_name@);
                    } else if i2 > i {
                        assert(old(self).models@[i as int].model_name@ != model_name@);
                    }
                }
                let ghost removed = old(self).models@.remove(i as int);
                let mut entry = self.models.remove(i);
                assert(entry == old(self).models@[i as int]);
                entry.history.push_at(metrics, timestamp);
                self.models.insert(i, entry);
                assert(self.models@ == removed.insert(i as int, entry));
                assert forall|j: int| 0 <= j < old(self).models@.len() && j != i
                    implies #[trigger] self.models@[j] == old(self).models@[j] by {
                    if j < i {
                        assert(self.models@[j] == removed[j]);
                    } else {
                        assert(self.models@[j] == removed[j - 1]);
                    }
                }
                assert forall|a: int, b: int| 0 <= a < b < self.models@.len()
                    implies #[trigger] self.models@[a].model_name@ != #[trigger] self.models@[b].model_name@ by {
                    assert(self.models@[a].model_name == old(self).models@[a].model_name);
                    assert(self.models@[b].model_name == old(self).models@[b].model_name);
                }
                assert forall|j: int| 0 <= j < self.models@.len() implies {
                    &&& (#[trigger] self.models@[j]).history.wf()
                    &&& self.models@[j].history.max_size == self.max_size
                } by {
                    if j != i { assert(self.models@[j] == old(self).models@[j]); }
                }
            },
            None => {
                let mut history = MetricsHistory::with_capacity(self.max_size);
                assert(queue_items(history.tps) =~= Seq::empty());
                assert(queue_items(history.prompt_tps) =~= Seq::empty());
                assert(queue_items(history.memory_mb) =~= Seq::empty());
                assert(queue_items(history.queue_size) =~= Seq::empty());
                history.push_at(metrics, timestamp);
                let name_copy = model_name.clone();
                assert(name_copy@ == model_name@);
                self.models.push(ModelMetricsHistory { model_name: name_copy, history });
                assert(self.models@.take(old(self).models@.len() as int) == old(self).models@);
                assert forall|a: int, b: int| 0 <= a < b < self.models@.len()
                    implies #[trigger] self.models@[a].model_name@ != #[trigger] self.models@[b].model_name@ by {
                    assert(self.models@[a] == old(self).models@[a]);
                    if b < old(self).models@.len() {
                        assert(self.models@[b] == old(self).models@[b]);
                    }
                }
                assert forall|j: int| 0 <= j < self.models@.len() implies {
                    &&& (#[trigger] self.models@[j]).history.wf()
                    &&& self.models@[j].history.max_size == self.max_size
                } by {
                    if j < old(self).models@.len() { assert(self.models@[j] == old(self).models@[j]); }
                }
            },
        }
    }

    /// Records each model of a probe at `timestamp`.
    pub fn record_models(&mut self, models: &Vec<ModelMetrics>, timestamp: u64)
        requires
            old(self).wf(),
            forall|i: int| 0 <= i < models@.len() ==> (#[trigger] models@[i]).metrics.in_range(),
        ensures
            final(self).wf(),
            final(self).is_record_all_of(*old(self), models@, timestamp),
            final(self).max_size == old(self).max_size,
    {
        let mut k: usize = 0;
        let ghost mut trace: Seq<AllMetricsHistory> = seq![*self];
        while k < models.len()
            invariant
                self.wf(),
                k <= models@.len(),
                forall|i: int| 0 <= i < models@.len() ==> (#[trigger] models@[i]).metrics.in_range(),
                self.is_record_trace(*old(self), models@.take(k as int), timestamp, trace),
                self.max_size == old(self).max_size,
            decreases models@.len() - k,
        {
            let ghost mid = *self;
            let model = &models[k];
            self.record_model(&model.model_name, &model.metrics, timestamp);
            proof {
                let before = trace;
                trace = trace.push(*self);
                let taken = models@.take(k as int + 1);
                assert forall|i: int| 0 <= i < taken.len() implies #[trigger] trace[i + 1].is_record_of(trace[i],
                    taken[i].model_name@, taken[i].metrics, timestamp) by {
                    if i < k {
                        assert(taken[i] == models@.take(k as int)[i]);
                        assert(trace[i + 1] == before[i + 1] && trace[i] == before[i]);
                    } else {
                        assert(taken[i] == models@[k as int]);
                        assert(trace[i] == mid);
                    }
                }
            }
            k = k + 1;
        }
        assert(models@.take(k as int) == models@);
    }

    /// Records a whole probe at the current time and trims to the retention windows.
    pub fn push(&mut self, all_metrics: &AllMetrics)
        requires
            old(self).wf(),
            all_metrics.system_metrics.in_range(),
            all_metrics.total_llama_memory_mb <= MAX_SAMPLE_VALUE,
            forall|i: int| 0 <= i < all_metrics.models@.len() ==> (#[trigger] all_metrics.models@[i]).metrics.in_range(),
        ensures
            final(self).wf(),
            exists|now: u64, sys: AllMetricsHistory, mid: AllMetricsHistory|
                #[trigger] sys.is_system_record_of(*old(self), all_metrics.system_metrics,
                    all_metrics.total_llama_memory_mb, now)
                && #[trigger] mid.is_record_all_of(sys, all_metrics.models@, now)
                && final(self).is_trim_at(mid, now),
    {
        let now = current_timestamp();
        self.record_system(&all_metrics.system_metrics, all_metrics.total_llama_memory_mb, now);
        let ghost sys = *self;
        self.record_models(&all_metrics.models, now);
        let ghost mid = *self;
        self.trim_old_data_at(now);
        assert(sys.is_system_record_of(*old(self), all_metrics.system_metrics, all_metrics.total_llama_memory_mb, now));
        assert(mid.is_record_all_of(sys, all_metrics.models@, now));
    }

    /// Drops what has left the retention windows at the current time.
    pub fn trim_old_data(&mut self)
        requires
            old(self).wf(),
        ensures
            final(self).wf(),
            exists|now: u64| final(self).is_trim_at(*old(self), now),
    {
        let now = current_timestamp();
        self.trim_old_data_at(now);
    }

    /// `self` is `prev` trimmed at `now`: host-wide series to their window, model
    /// series to theirs, and the models left without samples dropped.
    pub open spec fn is_trim_at(&self, prev: AllMetricsHistory, now: u64) -> bool {
        let c = cutoff_at(now, SYSTEM_RETENTION_SECS);
        &&& self.max_size == prev.max_size
        &&& trimmed(self.total_llama_memory_mb, prev.total_llama_memory_mb, c)
        &&& trimmed(self.cpu_usage_percent, prev.cpu_usage_percent, c)
        &&& trimmed(self.memory_usage_percent, prev.memory_usage_percent, c)
        &&& trimmed(self.used_memory_gb, prev.used_memory_gb, c)
        &&& pruned(self.models@, prev.models@, cutoff_at(now, MODEL_RETENTION_SECS))
    }

    /// Trims every series to its retention window ending at `now`, then drops
    /// the models whose series are all empty.
    pub fn trim_old_data_at(&mut self, now: u64)
        requires
            old(self).wf(),
        ensures
            final(self).wf(),
            final(self).is_trim_at(*old(self), now),
    {
        let system_cutoff = if now >= SYSTEM_RETENTION_SECS { now - SYSTEM_RETENTION_SECS } else { 0 };
        let model_cutoff = if now >= MODEL_RETENTION_SECS { now - MODEL_RETENTION_SECS } else { 0 };
        trim_series(&mut self.total_llama_memory_mb, system_cutoff);
        trim_series(&mut self.cpu_usage_percent, system_cutoff);
        trim_series(&mut self.memory_usage_percent, system_cutoff);
        trim_series(&mut self.used_memory_gb, system_cutoff);
        let mut rest: Vec<ModelMetricsHistory> = Vec::new();
        std::mem::swap(&mut self.models, &mut rest);
        let ghost all = rest@;
        let ghost max = self.max_size;
        let ghost mid = *self;
        let n = rest.len();
        let mut k: usize = 0;
        while rest.len() > 0
            invariant
                n == all.len(),
                k + rest@.len() == all.len(),
                self.max_size == max,
                self.same_system(mid),
                mid.max_size == max,
                rest@ == all.subrange(k as int, all.len() as int),
                Self::entries_ok(all, max),
                Self::entries_ok(self.models@, max),
                Self::distinct_model_names(all),
                Self::distinct_model_names(self.models@),
                forall|i: int| 0 <= i < self.models@.len() ==> exists|j: int| 0 <= j < k
                    && (#[trigger] self.models@[i]).model_name == all[j].model_name,
                pruned(self.models@, all.take(k as int), model_cutoff),
            decreases rest@.len(),
        {
            let mut entry = rest.remove(0);
            assert(entry == all[k as int]);
            assert(all.take(k as int + 1).drop_last() == all.take(k as int));
            entry.history.trim_before(model_cutoff);
            let ghost before = self.models@;
            if !entry.history.has_no_data() {
                self.models.push(entry);
                assert(self.models@.drop_last() == before);
                assert forall|a: int, b: int| 0 <= a < b < self.models@.len()
                    implies #[trigger] self.models@[a].model_name@ != #[trigger] self.models@[b].model_name@ by {
                    assert(self.models@[a] == before[a]);
                    if b < before.len() {
                        assert(self.models@[b] == before[b]);
                    } else {
                        let j = choose|j: int| 0 <= j < k && (#[trigger] before[a]).model_name == all[j].model_name;
                        assert(all[j].model_name@ != all[k as int].model_name@);
                    }
                }
                assert forall|i: int| 0 <= i < self.models@.len() implies exists|j: int| 0 <= j < k + 1
                    && (#[trigger] self.models@[i]).model_name == all[j].model_name by {
                    if i < before.len() {
                        assert(self.models@[i] == before[i]);
                        let j = choose|j: int| 0 <= j < k && (#[trigger] before[i]).model_name == all[j].model_name;
                        assert(0 <= j < k + 1 && self.models@[i].model_name == all[j].model_name);
                    } else {
                        assert(self.models@[i].model_name == all[k as int].model_name);
                    }
                }
            }
            k = k + 1;
        }
        assert(all.take(k as int) == all);
    }

    /// The history of the model named `model_name`, if there is one.
    pub fn get_model_history(&self, model_name: &str) -> (r: Option<&MetricsHistory>)
        ensures
            match r {
                Some(h) => exists|i: int| is_first_named(self.models@, model_name@, i)
                    && *h == self.models@[i].history,
                None => lacks_name(self.models@, model_name@),
            },
    {
        match self.position_of(model_name) {
            Some(i) => Some(&self.models[i].history),
            None => None,
        }
    }

    /// Statistics of host CPU use.
    pub fn get_cpu_stats(&self) -> (r: MetricStats)
        requires
            self.wf(),
        ensures
            is_stats_of(r, queue_items(self.cpu_usage_percent)),
    {
        DataAnalyzer::get_stats_from_circular_queue(&self.cpu_usage_percent)
    }

    /// Statistics of host memory use, in percent.
    pub fn get_system_memory_stats(&self) -> (r: MetricStats)
        requires
            self.wf(),
        ensures
            is_stats_of(r, queue_items(self.memory_usage_percent)),
    {
        DataAnalyzer::get_stats_from_circular_queue(&self.memory_usage_percent)
    }

    /// Statistics of the memory the model servers use.
    pub fn get_memory_stats(&self) -> (r: MetricStats)
        requires
            self.wf(),
        ensures
            is_stats_of(r, queue_items(self.total_llama_memory_mb)),
    {
        DataAnalyzer::get_stats_from_circular_queue(&self.total_llama_memory_mb)
    }
}

} // verus!
