use crate::pattern::regex_split;
use crate::pattern::split_by_pattern;
use crate::rates::delta;
use crate::rates::higher;
use crate::rates::lemma_utilization_is_percent;
use crate::rates::utilization;
use crate::rates::utilization_percent;
use crate::rates::PeakTracker;
use crate::text::decimal_or_zero;
use crate::text::first_line;
use crate::text::first_line_of;
use crate::text::drop_empty_ends;
use crate::text::value_or_zero;
use crate::text::views;
use crate::text::without_empty_ends;
use vstd::prelude::*;

verus! {

/// What the processor sampler keeps from one tick to the next: the previous
/// cumulative counters and the highest utilization seen so far.
#[derive(Clone, Copy, Debug, PartialEq, Eq, Structural)]
pub struct CpuSampler {
    pub prev_total: u64,
    pub prev_idle: u64,
    pub peak: PeakTracker,
}

/// The decimal number in field `k`, and 0 where the field is missing or
/// holds no number.
pub open spec fn field_value(fields: Seq<Seq<u8>>, k: int) -> u64 {
    if 0 <= k < fields.len() {
        value_or_zero(fields[k], 10)
    } else {
        0
    }
}

/// The sum of the numbers in the fields `1..n`.
pub open spec fn counters_sum(fields: Seq<Seq<u8>>, n: int) -> int
    decreases n,
{
    if n <= 1 {
        0
    } else {
        counters_sum(fields, n - 1) + field_value(fields, n - 1)
    }
}

/// The total of the seven time-in-state counters that follow the label,
/// held at the largest 64-bit number where the sum exceeds it.
pub open spec fn counters_total(fields: Seq<Seq<u8>>) -> u64 {
    if counters_sum(fields, 8) > u64::MAX {
        u64::MAX
    } else {
        counters_sum(fields, 8) as u64
    }
}

/// The idle counter: the fourth counter after the label.
pub open spec fn counters_idle(fields: Seq<Seq<u8>>) -> u64 {
    field_value(fields, 4)
}

/// Whether a line has enough fields to be read as the aggregate line.
pub open spec fn is_counter_line(fields: Seq<Seq<u8>>) -> bool {
    fields.len() > 4
}

/// The utilization that a sampler in state `st` reports for the aggregate
/// line `fields`; 0 for a line with too few fields.
pub open spec fn usage_of(st: CpuSampler, fields: Seq<Seq<u8>>) -> int {
    if is_counter_line(fields) {
        utilization(
            delta(counters_total(fields), st.prev_total),
            delta(counters_idle(fields), st.prev_idle),
        )
    } else {
        0
    }
}

/// The state of a sampler after it has read the aggregate line `fields`. A
/// line with too few fields leaves it as it was.
pub open spec fn sampler_after(st: CpuSampler, fields: Seq<Seq<u8>>) -> CpuSampler {
    if is_counter_line(fields) {
        CpuSampler {
            prev_total: counters_total(fields),
            prev_idle: counters_idle(fields),
            peak: PeakTracker { peak: higher(st.peak.peak, usage_of(st, fields) as u64) },
        }
    } else {
        st
    }
}

/// The fields of the aggregate line of a counter table: its first line
/// cut at every run of whitespace, without the empty piece that whitespace
/// at the beginning or at the end of the line leaves.
pub open spec fn aggregate_fields(table: Seq<u8>) -> Seq<Seq<u8>> {
    match regex_split("\\s+"@, first_line_of(table)) {
        Some(pieces) => without_empty_ends(pieces),
        None => Seq::empty(),
    }
}

/// Reads field `k` as a decimal number.
pub fn read_field(fields: &Vec<Vec<u8>>, k: usize) -> (v: u64)
    ensures
        v == field_value(views(*fields), k as int),
{
    if k < fields.len() {
        decimal_or_zero(fields[k].as_slice())
    } else {
        0
    }
}

/// Adds up the seven counters that follow the label.
pub fn total_of(fields: &Vec<Vec<u8>>) -> (total: u64)
    ensures
        total == counters_total(views(*fields)),
{
    let mut acc: u64 = 0;
    let mut k: usize = 1;
    while k < 8
        invariant
            1 <= k <= 8,
            counters_sum(views(*fields), k as int) >= 0,
            acc == if counters_sum(views(*fields), k as int) > u64::MAX {
                u64::MAX
            } else {
                counters_sum(views(*fields), k as int) as u64
            },
        decreases 8 - k,
    {
        acc = acc.saturating_add(read_field(fields, k));
        k += 1;
    }
    acc
}

impl CpuSampler {
    /// A sampler that has read nothing yet.
    pub fn new() -> (s: Self)
        ensures
            s == (CpuSampler { prev_total: 0, prev_idle: 0, peak: PeakTracker { peak: 0 } }),
    {
        CpuSampler { prev_total: 0, prev_idle: 0, peak: PeakTracker::new() }
    }

    /// Takes the fields of the aggregate line, returns the utilization in
    /// percent over the interval since the previous reading, and remembers
    /// the counters and the peak.
    pub fn observe_fields(&mut self, fields: &Vec<Vec<u8>>) -> (usage: u64)
        ensures
            usage == usage_of(*old(self), views(*fields)),
            usage <= 100,
            *final(self) == sampler_after(*old(self), views(*fields)),
            final(self).peak.peak >= old(self).peak.peak,
    {
        if fields.len() > 4 {
            let total: u64 = total_of(fields);
            let idle: u64 = read_field(fields, 4);
            let usage: u64 = utilization_percent(total, idle, self.prev_total, self.prev_idle);
            self.prev_total = total;
            self.prev_idle = idle;
            let _ = self.peak.observe(usage);
            usage
        } else {
            0
        }
    }

    /// Takes the text of the counter table and does the same with the
    /// fields of its aggregate line.
    pub fn observe_table(&mut self, table: &[u8]) -> (usage: u64)
        ensures
            usage == usage_of(*old(self), aggregate_fields(table@)),
            usage <= 100,
            *final(self) == sampler_after(*old(self), aggregate_fields(table@)),
            final(self).peak.peak >= old(self).peak.peak,
    {
        let line: Vec<u8> = first_line(table);
        match split_by_pattern("\\s+", line.as_slice()) {
            Some(pieces) => {
                let fields: Vec<Vec<u8>> = drop_empty_ends(pieces);
                self.observe_fields(&fields)
            },
            None => {
                let fields: Vec<Vec<u8>> = Vec::new();
                assert(views(fields) =~= Seq::<Seq<u8>>::empty());
                self.observe_fields(&fields)
            },
        }
    }
}

/// Whatever line a sampler reads, its peak does not decrease, and it is at
/// least the utilization just measured.
pub proof fn lemma_sampler_peak(st: CpuSampler, fields: Seq<Seq<u8>>)
    ensures
        sampler_after(st, fields).peak.peak >= st.peak.peak,
        is_counter_line(fields) ==> sampler_after(st, fields).peak.peak >= usage_of(st, fields),
        0 <= usage_of(st, fields) <= 100,
{
    if is_counter_line(fields) {
        lemma_utilization_is_percent(
            delta(counters_total(fields), st.prev_total),
            delta(counters_idle(fields), st.prev_idle),
        );
    }
}

} // verus!
