use crate::rates::counter_delta;
use crate::rates::delta;
use crate::rates::kilobits;
use crate::rates::plus;
use crate::rates::rate_kbps;
use crate::text::contains;
use crate::text::decimal_or_zero;
use crate::text::fields;
use crate::text::has_substring;
use crate::text::lines;
use crate::text::split_fields;
use crate::text::split_lines;
use crate::text::value_or_zero;
use crate::text::views;
use vstd::prelude::*;

verus! {

/// The cumulative counters of the watched interface.
#[derive(Clone, Copy, Debug, PartialEq, Eq, Structural)]
pub struct NetCounters {
    pub tx_bytes: u64,
    pub errors: u64,
}

/// What the interface did during one tick.
#[derive(Clone, Copy, Debug, PartialEq, Eq, Structural)]
pub struct NetRates {
    pub kbps: u64,
    pub new_errors: u64,
}

/// What the network sampler keeps from one tick to the next.
#[derive(Clone, Copy, Debug, PartialEq, Eq, Structural)]
pub struct NetSampler {
    pub prev_tx: u64,
    pub prev_errors: u64,
}

/// The name `wlan0`.
pub open spec fn name_wireless() -> Seq<u8> {
    seq![119u8, 108, 97, 110, 48]
}

/// The name `eth0`.
pub open spec fn name_wired() -> Seq<u8> {
    seq![101u8, 116, 104, 48]
}

/// Whether a line of the interface table names a watched interface.
pub open spec fn names_interface(line: Seq<u8>) -> bool {
    has_substring(line, name_wireless()) || has_substring(line, name_wired())
}

/// The first line from position `i` on that names a watched interface.
pub open spec fn interface_line(table: Seq<Seq<u8>>, i: int) -> Option<Seq<u8>>
    decreases table.len() - i,
{
    if 0 <= i < table.len() {
        if names_interface(table[i]) {
            Some(table[i])
        } else {
            interface_line(table, i + 1)
        }
    } else {
        None
    }
}

/// The counters that a line of the interface table gives: the bytes sent
/// from its tenth field and the errors from its third and fourth, each 0
/// where it is no number. A line of fewer than eleven fields gives zeros.
pub open spec fn counters_in(line: Seq<u8>) -> NetCounters {
    let f = split_fields(line);
    if f.len() > 10 {
        NetCounters {
            tx_bytes: value_or_zero(f[9], 10),
            errors: plus(value_or_zero(f[2], 10), value_or_zero(f[3], 10)),
        }
    } else {
        NetCounters { tx_bytes: 0, errors: 0 }
    }
}

/// The counters that an interface table gives: those of its first line
/// that names a watched interface, zeros where there is none.
pub open spec fn counters_of(table: Seq<Seq<u8>>) -> NetCounters {
    match interface_line(table, 0) {
        Some(line) => counters_in(line),
        None => NetCounters { tx_bytes: 0, errors: 0 },
    }
}

/// Whether a line of the interface table names a watched interface.
pub fn is_interface_line(line: &[u8]) -> (r: bool)
    ensures
        r == names_interface(line@),
{
    let wireless: [u8; 5] = [119, 108, 97, 110, 48];
    let wired: [u8; 4] = [101, 116, 104, 48];
    assert(wireless@ =~= name_wireless());
    assert(wired@ =~= name_wired());
    contains(line, wireless.as_slice()) || contains(line, wired.as_slice())
}

/// Reads the counters from one line of the interface table.
pub fn read_counters(line: &[u8]) -> (c: NetCounters)
    ensures
        c == counters_in(line@),
{
    let f: Vec<Vec<u8>> = fields(line);
    if f.len() > 10 {
        let tx: u64 = decimal_or_zero(f[9].as_slice());
        let rx_errs: u64 = decimal_or_zero(f[2].as_slice());
        let rx_drop: u64 = decimal_or_zero(f[3].as_slice());
        NetCounters { tx_bytes: tx, errors: rx_errs.saturating_add(rx_drop) }
    } else {
        NetCounters { tx_bytes: 0, errors: 0 }
    }
}

/// Reads the counters of the watched interface from the interface table.
pub fn parse_counters(table: &[u8]) -> (c: NetCounters)
    ensures
        c == counters_of(split_lines(table@)),
{
    let ls: Vec<Vec<u8>> = lines(table);
    let mut i: usize = 0;
    while i < ls.len()
        invariant
            i <= ls@.len(),
            views(ls) == split_lines(table@),
            interface_line(views(ls), 0) == interface_line(views(ls), i as int),
        decreases ls@.len() - i,
    {
        if is_interface_line(ls[i].as_slice()) {
            return read_counters(ls[i].as_slice());
        }
        i += 1;
    }
    NetCounters { tx_bytes: 0, errors: 0 }
}

impl NetSampler {
    /// A sampler that has read nothing yet.
    pub fn new() -> (s: Self)
        ensures
            s == (NetSampler { prev_tx: 0, prev_errors: 0 }),
    {
        NetSampler { prev_tx: 0, prev_errors: 0 }
    }

    /// Takes the counters of this tick, returns what the interface did
    /// since the previous one, and remembers the counters.
    pub fn observe(&mut self, c: NetCounters) -> (r: NetRates)
        ensures
            r.kbps == kilobits(delta(c.tx_bytes, old(self).prev_tx)),
            r.new_errors == delta(c.errors, old(self).prev_errors),
            *final(self) == (NetSampler { prev_tx: c.tx_bytes, prev_errors: c.errors }),
    {
        let kbps: u64 = rate_kbps(c.tx_bytes, self.prev_tx);
        let new_errors: u64 = counter_delta(c.errors, self.prev_errors);
        self.prev_tx = c.tx_bytes;
        self.prev_errors = c.errors;
        NetRates { kbps, new_errors }
    }
}

} // verus!
