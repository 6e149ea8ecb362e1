use crate::quantize::CompositePoint;
use crate::rates::minus;
use crate::rates::plus;
use crate::text::fields;
use crate::text::lines;
use crate::text::decimal_or_zero;
use crate::text::remove_byte;
use crate::text::same_bytes;
use crate::text::split_fields;
use crate::text::split_lines;
use crate::text::value_or_zero;
use crate::text::views;
use crate::text::without_byte;
use vstd::prelude::*;

verus! {

/// The entries of the memory table that the dashboard reads, each `None`
/// until the table has named it. Sizes are in the table's own unit.
#[derive(Clone, Copy, Debug, PartialEq, Eq)]
pub struct MemInfo {
    pub mem_total: Option<u64>,
    pub mem_free: Option<u64>,
    pub cached: Option<u64>,
    pub buffers: Option<u64>,
    pub cma_total: Option<u64>,
    pub cma_free: Option<u64>,
}

/// The key `MemTotal`.
pub open spec fn key_mem_total() -> Seq<u8> {
    seq![77u8, 101, 109, 84, 111, 116, 97, 108]
}

/// The key `MemFree`.
pub open spec fn key_mem_free() -> Seq<u8> {
    seq![77u8, 101, 109, 70, 114, 101, 101]
}

/// The key `Cached`.
pub open spec fn key_cached() -> Seq<u8> {
    seq![67u8, 97, 99, 104, 101, 100]
}

/// The key `Buffers`.
pub open spec fn key_buffers() -> Seq<u8> {
    seq![66u8, 117, 102, 102, 101, 114, 115]
}

/// The key `CmaTotal`.
pub open spec fn key_cma_total() -> Seq<u8> {
    seq![67u8, 109, 97, 84, 111, 116, 97, 108]
}

/// The key `CmaFree`.
pub open spec fn key_cma_free() -> Seq<u8> {
    seq![67u8, 109, 97, 70, 114, 101, 101]
}

/// A table that has named nothing.
pub open spec fn no_entries() -> MemInfo {
    MemInfo {
        mem_total: None,
        mem_free: None,
        cached: None,
        buffers: None,
        cma_total: None,
        cma_free: None,
    }
}

/// `info` after the entry `key` has been set to `v`. A key that the
/// dashboard does not read changes nothing.
pub open spec fn with_entry(info: MemInfo, key: Seq<u8>, v: u64) -> MemInfo {
    if key == key_mem_total() {
        MemInfo { mem_total: Some(v), ..info }
    } else if key == key_mem_free() {
        MemInfo { mem_free: Some(v), ..info }
    } else if key == key_cached() {
        MemInfo { cached: Some(v), ..info }
    } else if key == key_buffers() {
        MemInfo { buffers: Some(v), ..info }
    } else if key == key_cma_total() {
        MemInfo { cma_total: Some(v), ..info }
    } else if key == key_cma_free() {
        MemInfo { cma_free: Some(v), ..info }
    } else {
        info
    }
}

/// `info` after one line of the table: a line of at least two fields sets
/// the entry named by its first field, colons removed, to the number in its
/// second field, or to 0 where that is no number.
pub open spec fn with_line(info: MemInfo, line: Seq<u8>) -> MemInfo {
    let f = split_fields(line);
    if f.len() >= 2 {
        with_entry(info, without_byte(f[0], 58), value_or_zero(f[1], 10))
    } else {
        info
    }
}

/// What the lines of a table name, a later line overriding an earlier one.
pub open spec fn entries_of(table: Seq<Seq<u8>>) -> MemInfo
    decreases table.len(),
{
    if table.len() == 0 {
        no_entries()
    } else {
        with_line(entries_of(table.drop_last()), table.last())
    }
}

/// An entry, or `default` where the table did not name it.
pub open spec fn entry_or(entry: Option<u64>, default: u64) -> u64 {
    match entry {
        Some(v) => v,
        None => default,
    }
}

/// The memory held by caches and buffers.
pub open spec fn cache_of(info: MemInfo) -> u64 {
    plus(entry_or(info.cached, 0), entry_or(info.buffers, 0))
}

/// The memory held by applications: what is neither free nor cache.
pub open spec fn app_of(info: MemInfo) -> u64 {
    minus(minus(entry_or(info.mem_total, 1), entry_or(info.mem_free, 0)), cache_of(info))
}

/// The point of the memory graph: applications, applications and cache,
/// against all memory.
pub open spec fn ram_point_of(info: MemInfo) -> CompositePoint {
    CompositePoint {
        val1: app_of(info),
        val2: plus(app_of(info), cache_of(info)),
        total: entry_or(info.mem_total, 1),
    }
}

/// The point of the reserved-region graph: the active buffers, given in
/// bytes and drawn in units of 1024, and the part of the region that is not
/// free, against the whole region.
pub open spec fn cma_point_of(info: MemInfo, active_bytes: u64) -> CompositePoint {
    CompositePoint {
        val1: active_bytes / 1024,
        val2: minus(entry_or(info.cma_total, 1), entry_or(info.cma_free, 0)),
        total: entry_or(info.cma_total, 1),
    }
}

/// The second layer of the memory point never lies under the first; where
/// applications hold any memory, it is exactly applications plus cache and
/// does not exceed the total.
pub proof fn lemma_ram_layers(info: MemInfo)
    ensures
        app_of(info) <= ram_point_of(info).val2,
        app_of(info) > 0 ==> ram_point_of(info).val2 == app_of(info) + cache_of(info)
            && ram_point_of(info).val2 <= ram_point_of(info).total,
{
}

fn or_default(entry: Option<u64>, default: u64) -> (v: u64)
    ensures
        v == entry_or(entry, default),
{
    match entry {
        Some(v) => v,
        None => default,
    }
}

impl MemInfo {
    /// A table that has named nothing.
    pub fn new() -> (info: Self)
        ensures
            info == no_entries(),
    {
        MemInfo {
            mem_total: None,
            mem_free: None,
            cached: None,
            buffers: None,
            cma_total: None,
            cma_free: None,
        }
    }

    /// Sets the entry named `key`.
    pub fn set(&mut self, key: &[u8], v: u64)
        ensures
            *final(self) == with_entry(*old(self), key@, v),
    {
        let mem_total: [u8; 8] = [77, 101, 109, 84, 111, 116, 97, 108];
        assert(mem_total@ =~= key_mem_total());
        let mem_free: [u8; 7] = [77, 101, 109, 70, 114, 101, 101];
        assert(mem_free@ =~= key_mem_free());
        let cached: [u8; 6] = [67, 97, 99, 104, 101, 100];
        assert(cached@ =~= key_cached());
        let buffers: [u8; 7] = [66, 117, 102, 102, 101, 114, 115];
        assert(buffers@ =~= key_buffers());
        let cma_total: [u8; 8] = [67, 109, 97, 84, 111, 116, 97, 108];
        assert(cma_total@ =~= key_cma_total());
        let cma_free: [u8; 7] = [67, 109, 97, 70, 114, 101, 101];
        assert(cma_free@ =~= key_cma_free());
        if same_bytes(key, mem_total.as_slice()) {
            self.mem_total = Some(v);
        } else if same_bytes(key, mem_free.as_slice()) {
            self.mem_free = Some(v);
        } else if same_bytes(key, cached.as_slice()) {
            self.cached = Some(v);
        } else if same_bytes(key, buffers.as_slice()) {
            self.buffers = Some(v);
        } else if same_bytes(key, cma_total.as_slice()) {
            self.cma_total = Some(v);
        } else if same_bytes(key, cma_free.as_slice()) {
            self.cma_free = Some(v);
        }
    }

    /// Takes in one line of the table.
    pub fn read_line(&mut self, line: &[u8])
        ensures
            *final(self) == with_line(*old(self), line@),
    {
        let f: Vec<Vec<u8>> = fields(line);
        if f.len() >= 2 {
            let key: Vec<u8> = remove_byte(f[0].as_slice(), 58);
            let v: u64 = decimal_or_zero(f[1].as_slice());
            self.set(key.as_slice(), v);
        }
    }

    /// Reads a whole table.
    pub fn parse(table: &[u8]) -> (info: Self)
        ensures
            info == entries_of(split_lines(table@)),
    {
        let ls: Vec<Vec<u8>> = lines(table);
        let mut info: MemInfo = MemInfo::new();
        let mut i: usize = 0;
        assert(views(ls).take(0) =~= Seq::<Seq<u8>>::empty());
        while i < ls.len()
            invariant
                i <= ls@.len(),
                info == entries_of(views(ls).take(i as int)),
            decreases ls@.len() - i,
        {
            assert(views(ls).take(i + 1).drop_last() =~= views(ls).take(i as int));
            info.read_line(ls[i].as_slice());
            i += 1;
        }
        assert(views(ls).take(ls@.len() as int) =~= views(ls));
        info
    }

    /// The memory held by caches and buffers.
    pub fn cache(&self) -> (v: u64)
        ensures
            v == cache_of(*self),
    {
        or_default(self.cached, 0).saturating_add(or_default(self.buffers, 0))
    }

    /// The point of the memory graph.
    pub fn ram_point(&self) -> (pt: CompositePoint)
        ensures
            pt == ram_point_of(*self),
    {
        let total: u64 = or_default(self.mem_total, 1);
        let cache: u64 = self.cache();
        let app: u64 = total.saturating_sub(or_default(self.mem_free, 0)).saturating_sub(cache);
        CompositePoint { val1: app, val2: app.saturating_add(cache), total }
    }

    /// The point of the reserved-region graph, given the size of the
    /// active buffers in bytes.
    pub fn cma_point(&self, active_bytes: u64) -> (pt: CompositePoint)
        ensures
            pt == cma_point_of(*self, active_bytes),
    {
        let total: u64 = or_default(self.cma_total, 1);
        let reserved: u64 = total.saturating_sub(or_default(self.cma_free, 0));
        CompositePoint { val1: active_bytes / 1024, val2: reserved, total }
    }
}

} // verus!
