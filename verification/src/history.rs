use std::collections::VecDeque;
use vstd::prelude::*;

verus! {

/// A sliding window over the most recent points of one metric.
///
/// The window is created full and every push evicts the oldest point, so its
/// width never changes. Its view is the sequence of points, oldest first.
pub struct HistoryWindow<T> {
    points: VecDeque<T>,
}

/// The window that results from pushing `point` onto the window `s`: the
/// new point goes to the end and the oldest point leaves.
pub open spec fn slide<T>(s: Seq<T>, point: T) -> Seq<T> {
    s.push(point).drop_first()
}

/// The window that results from pushing `points`, in order, onto `s`.
pub open spec fn slide_all<T>(s: Seq<T>, points: Seq<T>) -> Seq<T>
    decreases points.len(),
{
    if points.len() == 0 {
        s
    } else {
        slide(slide_all(s, points.drop_last()), points.last())
    }
}

impl<T: Copy> HistoryWindow<T> {
    /// The points of the window in chronological order, oldest first.
    pub closed spec fn view(&self) -> Seq<T> {
        self.points@
    }

    /// A window of `width` points, each of them `fill`.
    pub fn new(width: usize, fill: T) -> (w: Self)
        requires
            width > 0,
        ensures
            w@ == Seq::new(width as nat, |i: int| fill),
    {
        let mut points: VecDeque<T> = VecDeque::new();
        let mut i: usize = 0;
        while i < width
            invariant
                i <= width,
                points@ == Seq::new(i as nat, |k: int| fill),
            decreases width - i,
        {
            points.push_back(fill);
            i += 1;
            assert(points@ =~= Seq::new(i as nat, |k: int| fill));
        }
        HistoryWindow { points }
    }

    /// The width of the window.
    pub fn len(&self) -> (n: usize)
        ensures
            n == self@.len(),
    {
        self.points.len()
    }

    /// The point at position `i`, counted from the oldest.
    pub fn get(&self, i: usize) -> (p: T)
        requires
            i < self@.len(),
        ensures
            p == self@[i as int],
    {
        self.points[i]
    }

    /// Appends the newest point and evicts the oldest.
    pub fn push(&mut self, point: T)
        ensures
            final(self)@ == slide(old(self)@, point),
            final(self)@.len() == old(self)@.len(),
    {
        self.points.push_back(point);
        let _ = self.points.pop_front();
        assert(self.points@ =~= slide(old(self).points@, point));
    }

    /// The points of the window, oldest first.
    pub fn to_vec(&self) -> (v: Vec<T>)
        ensures
            v@ == self@,
    {
        let mut v: Vec<T> = Vec::new();
        let n: usize = self.points.len();
        let mut i: usize = 0;
        while i < n
            invariant
                i <= n,
                n == self.points@.len(),
                v@ == self.points@.take(i as int),
            decreases n - i,
        {
            v.push(self.points[i]);
            i += 1;
            assert(v@ =~= self.points@.take(i as int));
        }
        assert(self.points@.take(n as int) =~= self.points@);
        v
    }
}

/// One push leaves the width of a window unchanged.
pub proof fn lemma_slide_keeps_width<T>(s: Seq<T>, point: T)
    ensures
        slide(s, point).len() == s.len(),
{
}

/// However many points are pushed, the width of a window stays what it was
/// when the window was made.
pub proof fn lemma_width_invariant<T>(s: Seq<T>, points: Seq<T>)
    ensures
        slide_all(s, points).len() == s.len(),
    decreases points.len(),
{
    if points.len() > 0 {
        lemma_width_invariant(s, points.drop_last());
    }
}

/// A window as wide as the number of points pushed since holds exactly
/// those points, oldest first.
pub proof fn lemma_slide_all_full<T>(s: Seq<T>, points: Seq<T>)
    requires
        points.len() == s.len(),
    ensures
        slide_all(s, points) == points,
{
    lemma_slide_all_suffix(s, points);
    assert((s + points).subrange(points.len() as int, (s + points).len() as int) =~= points);
}

/// Pushing `points` onto `s` leaves the last `s.len()` elements of `s`
/// followed by `points`.
pub proof fn lemma_slide_all_suffix<T>(s: Seq<T>, points: Seq<T>)
    ensures
        slide_all(s, points) == (s + points).subrange(
            points.len() as int,
            (s + points).len() as int,
        ),
    decreases points.len(),
{
    let all = s + points;
    if points.len() == 0 {
        assert(all.subrange(0, all.len() as int) =~= s);
    } else {
        let init = points.drop_last();
        lemma_slide_all_suffix(s, init);
        let prev = s + init;
        assert(slide(prev.subrange(init.len() as int, prev.len() as int), points.last())
            =~= all.subrange(points.len() as int, all.len() as int));
    }
}

} // verus!
