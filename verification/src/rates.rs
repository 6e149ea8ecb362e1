use vstd::prelude::*;

verus! {

/// How far a cumulative counter advanced since the previous reading; 0
/// where it went backwards.
pub open spec fn delta(now: u64, prev: u64) -> int {
    if now >= prev {
        now - prev
    } else {
        0
    }
}

/// The busy share of an interval in percent, from the advance of the total
/// and of the idle counter. It is 0 where the total did not advance, and 0
/// where the idle counter advanced further than the total.
pub open spec fn utilization(d_total: int, d_idle: int) -> int {
    if d_total > 0 && d_idle <= d_total {
        (100 * (d_total - d_idle)) / d_total
    } else {
        0
    }
}

/// Kilobits sent per tick, from the bytes sent during it.
pub open spec fn kilobits(d_bytes: int) -> int {
    (d_bytes * 8) / 1024
}

/// `a - b`, and 0 where `b` is the larger.
pub open spec fn minus(a: u64, b: u64) -> u64 {
    if a >= b {
        (a - b) as u64
    } else {
        0
    }
}

/// `a + b`, held at the largest 64-bit number.
pub open spec fn plus(a: u64, b: u64) -> u64 {
    if a + b > u64::MAX {
        u64::MAX
    } else {
        (a + b) as u64
    }
}

/// The larger of two readings.
pub open spec fn higher(a: u64, b: u64) -> u64 {
    if b > a {
        b
    } else {
        a
    }
}

/// The high-water mark after the readings `seen` have been observed in
/// order, starting from `peak`.
pub open spec fn peak_after(peak: u64, seen: Seq<u64>) -> u64
    decreases seen.len(),
{
    if seen.len() == 0 {
        peak
    } else {
        higher(peak_after(peak, seen.drop_last()), seen.last())
    }
}

/// The utilization is a percentage.
pub proof fn lemma_utilization_is_percent(d_total: int, d_idle: int)
    requires
        0 <= d_total,
        0 <= d_idle,
    ensures
        0 <= utilization(d_total, d_idle) <= 100,
{
    if d_total > 0 && d_idle <= d_total {
        let busy = d_total - d_idle;
        assert(0 <= (100 * busy) / d_total <= 100) by (nonlinear_arith)
            requires
                0 <= busy <= d_total,
                d_total > 0,
        ;
    }
}

/// For counters that did not go backwards, the utilization is a percentage.
pub proof fn lemma_percent_of_counters(total1: u64, idle1: u64, total2: u64, idle2: u64)
    requires
        total2 >= total1,
        idle2 >= idle1,
    ensures
        0 <= utilization(delta(total2, total1), delta(idle2, idle1)) <= 100,
{
    lemma_utilization_is_percent(delta(total2, total1), delta(idle2, idle1));
}

/// Where the total counter went backwards the utilization is 0, whatever
/// the idle counter did.
pub proof fn lemma_reset_gives_zero(total1: u64, idle1: u64, total2: u64, idle2: u64)
    requires
        total2 < total1,
    ensures
        utilization(delta(total2, total1), delta(idle2, idle1)) == 0,
{
}

/// The advance of a counter, saturating at 0.
pub fn counter_delta(now: u64, prev: u64) -> (d: u64)
    ensures
        d == delta(now, prev),
{
    if now >= prev {
        now - prev
    } else {
        0
    }
}

/// The busy share in percent over the interval between two readings of the
/// total and the idle counter.
pub fn utilization_percent(total: u64, idle: u64, prev_total: u64, prev_idle: u64) -> (p: u64)
    ensures
        p == utilization(delta(total, prev_total), delta(idle, prev_idle)),
        p <= 100,
{
    let d_total: u64 = counter_delta(total, prev_total);
    let d_idle: u64 = counter_delta(idle, prev_idle);
    proof {
        lemma_utilization_is_percent(d_total as int, d_idle as int);
    }
    if d_total > 0 && d_idle <= d_total {
        let busy: u128 = (d_total - d_idle) as u128;
        let scaled: u128 = 100 * busy;
        let p: u128 = scaled / (d_total as u128);
        p as u64
    } else {
        0
    }
}

/// Kilobits sent during the tick between two readings of a byte counter.
pub fn rate_kbps(bytes: u64, prev_bytes: u64) -> (r: u64)
    ensures
        r == kilobits(delta(bytes, prev_bytes)),
{
    let d: u64 = counter_delta(bytes, prev_bytes);
    d / 128
}

/// The high-water mark of one metric.
#[derive(Clone, Copy, Debug, PartialEq, Eq, Structural)]
pub struct PeakTracker {
    pub peak: u64,
}

impl PeakTracker {
    /// A tracker that has seen nothing yet.
    pub fn new() -> (t: Self)
        ensures
            t.peak == 0,
    {
        PeakTracker { peak: 0 }
    }

    /// Takes note of one reading and returns the high-water mark.
    pub fn observe(&mut self, value: u64) -> (peak: u64)
        ensures
            final(self).peak == higher(old(self).peak, value),
            final(self).peak >= old(self).peak,
            peak == final(self).peak,
    {
        if value > self.peak {
            self.peak = value;
        }
        self.peak
    }
}

/// The high-water mark never decreases: after any further readings it is at
/// least what it was after the first `n` of them.
pub proof fn lemma_peak_never_decreases(peak: u64, seen: Seq<u64>, n: int)
    requires
        0 <= n <= seen.len(),
    ensures
        peak_after(peak, seen.take(n)) <= peak_after(peak, seen),
    decreases seen.len(),
{
    if n == seen.len() {
        assert(seen.take(n) =~= seen);
    } else {
        lemma_peak_never_decreases(peak, seen.drop_last(), n);
        assert(seen.drop_last().take(n) =~= seen.take(n));
    }
}

/// The high-water mark is at least what it started from.
pub proof fn lemma_peak_keeps_start(peak: u64, seen: Seq<u64>)
    ensures
        peak <= peak_after(peak, seen),
    decreases seen.len(),
{
    if seen.len() > 0 {
        lemma_peak_keeps_start(peak, seen.drop_last());
    }
}

/// The high-water mark is at least every reading that was observed.
pub proof fn lemma_peak_covers(peak: u64, seen: Seq<u64>, i: int)
    requires
        0 <= i < seen.len(),
    ensures
        seen[i] <= peak_after(peak, seen),
    decreases seen.len(),
{
    if i < seen.len() - 1 {
        lemma_peak_covers(peak, seen.drop_last(), i);
    }
}

} // verus!
