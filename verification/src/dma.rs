use crate::rates::plus;
use crate::text::contains;
use crate::text::decimal_or_zero;
use crate::text::fields;
use crate::text::has_substring;
use crate::text::lines;
use crate::text::occurs_at;
use crate::text::parse_hex;
use crate::text::split_fields;
use crate::text::split_lines;
use crate::text::starts_with;
use crate::text::unsigned_value;
use crate::text::value_or_zero;
use crate::text::views;
use vstd::prelude::*;

verus! {

/// The kinds of owner that a buffer row is put down to.
#[derive(Clone, Copy, Debug, PartialEq, Eq, Structural)]
pub enum Category {
    GpuShared,
    CameraApp,
    SysIsp,
}

/// The buffers of one category: their sizes added up, and how many they are.
#[derive(Clone, Copy, Debug, PartialEq, Eq, Structural)]
pub struct Tally {
    pub size: u64,
    pub count: u64,
}

/// What one buffer report says: the active size its total row gives, and
/// the tally of each category.
#[derive(Clone, Copy, Debug, PartialEq, Eq, Structural)]
pub struct DmaReport {
    pub active: u64,
    pub gpu_shared: Tally,
    pub camera_app: Tally,
    pub sys_isp: Tally,
}

/// The word `Total`.
pub open spec fn word_total() -> Seq<u8> {
    seq![84u8, 111, 116, 97, 108]
}

/// The word `size`.
pub open spec fn word_size() -> Seq<u8> {
    seq![115u8, 105, 122, 101]
}

/// The word `vc_sm`.
pub open spec fn word_vc_sm() -> Seq<u8> {
    seq![118u8, 99, 95, 115, 109]
}

/// The word `rpicam`.
pub open spec fn word_rpicam() -> Seq<u8> {
    seq![114u8, 112, 105, 99, 97, 109]
}

/// A report without any row.
pub open spec fn no_rows() -> DmaReport {
    DmaReport {
        active: 0,
        gpu_shared: Tally { size: 0, count: 0 },
        camera_app: Tally { size: 0, count: 0 },
        sys_isp: Tally { size: 0, count: 0 },
    }
}

/// The category of a buffer row, by the first hint that its text holds.
pub open spec fn category_of(row: Seq<u8>) -> Category {
    if has_substring(row, word_vc_sm()) {
        Category::GpuShared
    } else if has_substring(row, word_rpicam()) {
        Category::CameraApp
    } else {
        Category::SysIsp
    }
}

/// The size that a buffer row gives: the hexadecimal number in the first
/// field of a row of at least six fields that is neither the header nor
/// the total row. `None` for any other row.
pub open spec fn buffer_size(row: Seq<u8>) -> Option<u64> {
    let f = split_fields(row);
    if f.len() >= 6 && !occurs_at(row, word_size(), 0) && !has_substring(row, word_total()) {
        unsigned_value(f[0], 16)
    } else {
        None
    }
}

/// The active size that a total row gives: the decimal number in its
/// fourth field, 0 where that is no number. `None` for any other row.
pub open spec fn active_size(row: Seq<u8>) -> Option<u64> {
    let f = split_fields(row);
    if has_substring(row, word_total()) && f.len() >= 4 {
        Some(value_or_zero(f[3], 10))
    } else {
        None
    }
}

/// A tally with one more buffer of size `sz`.
pub open spec fn tally_plus(t: Tally, sz: u64) -> Tally {
    Tally { size: plus(t.size, sz), count: plus(t.count, 1) }
}

/// The tally of one category.
pub open spec fn tally_of(r: DmaReport, cat: Category) -> Tally {
    match cat {
        Category::GpuShared => r.gpu_shared,
        Category::CameraApp => r.camera_app,
        Category::SysIsp => r.sys_isp,
    }
}

/// `r` with one more buffer of size `sz` in category `cat`.
pub open spec fn credited(r: DmaReport, cat: Category, sz: u64) -> DmaReport {
    match cat {
        Category::GpuShared => DmaReport { gpu_shared: tally_plus(r.gpu_shared, sz), ..r },
        Category::CameraApp => DmaReport { camera_app: tally_plus(r.camera_app, sz), ..r },
        Category::SysIsp => DmaReport { sys_isp: tally_plus(r.sys_isp, sz), ..r },
    }
}

/// `r` after one row: a total row sets the active size, a buffer row is
/// added to the tally of its category, any other row changes nothing.
pub open spec fn with_row(r: DmaReport, row: Seq<u8>) -> DmaReport {
    let seen = match active_size(row) {
        Some(v) => DmaReport { active: v, ..r },
        None => r,
    };
    match buffer_size(row) {
        Some(sz) => credited(seen, category_of(row), sz),
        None => seen,
    }
}

/// What the rows of a report add up to.
pub open spec fn report_of(rows: Seq<Seq<u8>>) -> DmaReport
    decreases rows.len(),
{
    if rows.len() == 0 {
        no_rows()
    } else {
        with_row(report_of(rows.drop_last()), rows.last())
    }
}

/// Puts a buffer row down to its category.
pub fn classify(row: &[u8]) -> (cat: Category)
    ensures
        cat == category_of(row@),
{
    let vc_sm: [u8; 5] = [118, 99, 95, 115, 109];
    let rpicam: [u8; 6] = [114, 112, 105, 99, 97, 109];
    assert(vc_sm@ =~= word_vc_sm());
    assert(rpicam@ =~= word_rpicam());
    if contains(row, vc_sm.as_slice()) {
        Category::GpuShared
    } else if contains(row, rpicam.as_slice()) {
        Category::CameraApp
    } else {
        Category::SysIsp
    }
}

fn add_to(t: Tally, sz: u64) -> (out: Tally)
    ensures
        out == tally_plus(t, sz),
{
    Tally { size: t.size.saturating_add(sz), count: t.count.saturating_add(1) }
}

impl DmaReport {
    /// A report without any row.
    pub fn new() -> (r: Self)
        ensures
            r == no_rows(),
    {
        DmaReport {
            active: 0,
            gpu_shared: Tally { size: 0, count: 0 },
            camera_app: Tally { size: 0, count: 0 },
            sys_isp: Tally { size: 0, count: 0 },
        }
    }

    /// The tally of one category.
    pub fn tally(&self, cat: Category) -> (t: Tally)
        ensures
            t == tally_of(*self, cat),
    {
        match cat {
            Category::GpuShared => self.gpu_shared,
            Category::CameraApp => self.camera_app,
            Category::SysIsp => self.sys_isp,
        }
    }

    /// Takes in one row of the report.
    pub fn read_row(&mut self, row: &[u8])
        ensures
            *final(self) == with_row(*old(self), row@),
    {
        let total: [u8; 5] = [84, 111, 116, 97, 108];
        let size: [u8; 4] = [115, 105, 122, 101];
        assert(total@ =~= word_total());
        assert(size@ =~= word_size());
        let f: Vec<Vec<u8>> = fields(row);
        let is_total: bool = contains(row, total.as_slice());
        if is_total && f.len() >= 4 {
            self.active = decimal_or_zero(f[3].as_slice());
        }
        if f.len() >= 6 && !starts_with(row, size.as_slice()) && !is_total {
            match parse_hex(f[0].as_slice()) {
                Some(sz) => {
                    match classify(row) {
                        Category::GpuShared => {
                            self.gpu_shared = add_to(self.gpu_shared, sz);
                        },
                        Category::CameraApp => {
                            self.camera_app = add_to(self.camera_app, sz);
                        },
                        Category::SysIsp => {
                            self.sys_isp = add_to(self.sys_isp, sz);
                        },
                    }
                },
                None => {},
            }
        }
    }

    /// Reads a whole report.
    pub fn parse(report: &[u8]) -> (r: Self)
        ensures
            r == report_of(split_lines(report@)),
    {
        let ls: Vec<Vec<u8>> = lines(report);
        let mut r: DmaReport = DmaReport::new();
        let mut i: usize = 0;
        assert(views(ls).take(0) =~= Seq::<Seq<u8>>::empty());
        while i < ls.len()
            invariant
                i <= ls@.len(),
                r == report_of(views(ls).take(i as int)),
            decreases ls@.len() - i,
        {
            assert(views(ls).take(i + 1).drop_last() =~= views(ls).take(i as int));
            r.read_row(ls[i].as_slice());
            i += 1;
        }
        assert(views(ls).take(ls@.len() as int) =~= views(ls));
        r
    }

    /// The categories that hold at least one buffer, the largest first.
    /// Which of two categories of the same size comes first is left open.
    pub fn ranked(&self) -> (out: Vec<(Category, Tally)>)
        ensures
            out@.len() <= 3,
            forall|i: int, j: int|
                0 <= i < j < out@.len() ==> out@[i].1.size >= out@[j].1.size && out@[i].0
                    != out@[j].0,
            forall|i: int|
                0 <= i < out@.len() ==> (#[trigger] out@[i]).1 == tally_of(*self, out@[i].0)
                    && out@[i].1.count > 0,
            forall|cat: Category|
                tally_of(*self, cat).count > 0 ==> exists|i: int|
                    0 <= i < out@.len() && out@[i] == (cat, #[trigger] tally_of(*self, cat)),
    {
        let mut e0: (Category, Tally) = (Category::GpuShared, self.gpu_shared);
        let mut e1: (Category, Tally) = (Category::CameraApp, self.camera_app);
        let mut e2: (Category, Tally) = (Category::SysIsp, self.sys_isp);
        if e0.1.size < e1.1.size {
            let t: (Category, Tally) = e0;
            e0 = e1;
            e1 = t;
        }
        if e1.1.size < e2.1.size {
            let t: (Category, Tally) = e1;
            e1 = e2;
            e2 = t;
        }
        if e0.1.size < e1.1.size {
            let t: (Category, Tally) = e0;
            e0 = e1;
            e1 = t;
        }
        let mut out: Vec<(Category, Tally)> = Vec::new();
        if e0.1.count > 0 {
            out.push(e0);
        }
        if e1.1.count > 0 {
            out.push(e1);
        }
        if e2.1.count > 0 {
            out.push(e2);
        }
        assert forall|cat: Category| tally_of(*self, cat).count > 0 implies exists|i: int|
            0 <= i < out@.len() && out@[i] == (cat, #[trigger] tally_of(*self, cat)) by {
            let entry = (cat, tally_of(*self, cat));
            assert(entry == e0 || entry == e1 || entry == e2);
            if entry == e0 {
                assert(out@[0] == entry);
            } else if entry == e1 {
                let k = if e0.1.count > 0 {
                    1int
                } else {
                    0int
                };
                assert(out@[k] == entry);
            } else {
                let k = out@.len() - 1;
                assert(out@[k] == entry);
            }
        }
        out
    }
}

} // verus!
