use crate::history::HistoryWindow;
use vstd::prelude::*;

verus! {

/// One sample of a stacked metric: two layered quantities and the capacity
/// they are drawn against. The ordering `val1 <= val2 <= total` is usual but
/// not required.
#[derive(Clone, Copy, Debug, PartialEq, Eq, Structural)]
pub struct CompositePoint {
    pub val1: u64,
    pub val2: u64,
    pub total: u64,
}

/// What one cell of a graph shows.
#[derive(Clone, Copy, Debug, PartialEq, Eq, Structural)]
pub enum Level {
    /// Nothing reaches this row.
    Empty,
    /// Only the second layer of a stacked metric reaches this row.
    Secondary,
    /// The value, or the first layer of a stacked metric, reaches this row.
    Primary,
}

/// The value a point must reach to be drawn at `row` (row 0 is the top) of
/// a graph `height` rows high whose full scale is `max_val`.
pub open spec fn row_threshold(row: int, height: int, max_val: int) -> int {
    ((height - row) * max_val) / height
}

/// The cell of a simple graph for a point of `value`.
pub open spec fn simple_level(value: u64, threshold: int) -> Level {
    if value >= threshold {
        Level::Primary
    } else {
        Level::Empty
    }
}

/// The cell of a stacked graph: the first layer covers the second.
pub open spec fn stacked_level(pt: CompositePoint, threshold: int) -> Level {
    if pt.val1 >= threshold {
        Level::Primary
    } else if pt.val2 >= threshold {
        Level::Secondary
    } else {
        Level::Empty
    }
}

/// The rows of a simple graph, top row first, each row oldest point first.
pub open spec fn simple_frame(window: Seq<u64>, max_val: u64, height: nat) -> Seq<Seq<Level>> {
    Seq::new(
        height,
        |r: int|
            Seq::new(
                window.len(),
                |c: int| simple_level(window[c], row_threshold(r, height as int, max_val as int)),
            ),
    )
}

/// The rows of a stacked graph, top row first, each row oldest point first.
pub open spec fn stacked_frame(window: Seq<CompositePoint>, height: nat) -> Seq<Seq<Level>> {
    Seq::new(
        height,
        |r: int|
            Seq::new(
                window.len(),
                |c: int|
                    stacked_level(
                        window[c],
                        row_threshold(r, height as int, window[c].total as int),
                    ),
            ),
    )
}

/// The rows of a rendered graph as sequences.
pub open spec fn frame_view(rows: Vec<Vec<Level>>) -> Seq<Seq<Level>> {
    Seq::new(rows@.len(), |r: int| rows@[r]@)
}

/// How many of the rows `0..n` of a frame are filled at column `col`.
pub open spec fn filled_in_column(frame: Seq<Seq<Level>>, col: int, n: nat) -> nat
    decreases n,
{
    if n == 0 {
        0
    } else {
        let above = filled_in_column(frame, col, (n - 1) as nat);
        if frame[n - 1][col] == Level::Primary {
            above + 1
        } else {
            above
        }
    }
}

/// The threshold never exceeds the scale and is never negative.
pub proof fn lemma_threshold_bounds(row: int, height: int, max_val: int)
    requires
        0 <= row < height,
        0 <= max_val,
    ensures
        0 <= row_threshold(row, height, max_val) <= max_val,
{
    assert(0 <= (height - row) * max_val <= height * max_val) by (nonlinear_arith)
        requires
            0 <= row < height,
            0 <= max_val,
    ;
    assert(((height - row) * max_val) / height <= max_val) by (nonlinear_arith)
        requires
            0 < height,
            (height - row) * max_val <= height * max_val,
    ;
    assert(0 <= ((height - row) * max_val) / height) by (nonlinear_arith)
        requires
            0 < height,
            0 <= (height - row) * max_val,
    ;
}

/// Computes the threshold of one row.
pub fn threshold(row: usize, height: usize, max_val: u64) -> (t: u64)
    requires
        row < height,
    ensures
        t == row_threshold(row as int, height as int, max_val as int),
        t <= max_val,
{
    let span: u128 = (height - row) as u128;
    proof {
        lemma_threshold_bounds(row as int, height as int, max_val as int);
        assert(span * (max_val as u128) <= 0xffff_ffff_ffff_ffff * 0xffff_ffff_ffff_ffff)
            by (nonlinear_arith)
            requires
                span <= 0xffff_ffff_ffff_ffff,
                max_val <= 0xffff_ffff_ffff_ffff,
        ;
    }
    let scaled: u128 = span * (max_val as u128);
    let t: u128 = scaled / (height as u128);
    t as u64
}

/// The cell of a simple graph for one point and one row's threshold.
pub fn simple_cell(value: u64, threshold: u64) -> (l: Level)
    ensures
        l == simple_level(value, threshold as int),
{
    if value >= threshold {
        Level::Primary
    } else {
        Level::Empty
    }
}

/// The cell of a stacked graph for one point and one row's threshold. The
/// first layer wins wherever it reaches the threshold, whatever the second
/// layer holds.
pub fn stacked_cell(pt: CompositePoint, threshold: u64) -> (l: Level)
    ensures
        l == stacked_level(pt, threshold as int),
        pt.val1 >= threshold ==> l == Level::Primary,
{
    if pt.val1 >= threshold {
        Level::Primary
    } else if pt.val2 >= threshold {
        Level::Secondary
    } else {
        Level::Empty
    }
}

/// Renders a simple metric: `height` rows, top first, one cell per point of
/// the window, against the fixed scale `max_val`.
pub fn render_simple(window: &HistoryWindow<u64>, max_val: u64, height: usize) -> (rows: Vec<
    Vec<Level>,
>)
    ensures
        frame_view(rows) == simple_frame(window@, max_val, height as nat),
{
    let width: usize = window.len();
    let mut rows: Vec<Vec<Level>> = Vec::new();
    let mut r: usize = 0;
    while r < height
        invariant
            r <= height,
            width == window@.len(),
            rows@.len() == r,
            forall|k: int|
                0 <= k < r ==> (#[trigger] rows@[k])@ == simple_frame(
                    window@,
                    max_val,
                    height as nat,
                )[k],
        decreases height - r,
    {
        let t: u64 = threshold(r, height, max_val);
        let mut line: Vec<Level> = Vec::new();
        let mut c: usize = 0;
        while c < width
            invariant
                c <= width,
                width == window@.len(),
                line@.len() == c,
                forall|k: int|
                    0 <= k < c ==> #[trigger] line@[k] == simple_level(window@[k], t as int),
            decreases width - c,
        {
            line.push(simple_cell(window.get(c), t));
            c += 1;
        }
        assert(line@ =~= simple_frame(window@, max_val, height as nat)[r as int]);
        rows.push(line);
        r += 1;
    }
    assert(frame_view(rows) =~= simple_frame(window@, max_val, height as nat));
    rows
}

/// Renders a stacked metric: `height` rows, top first, one cell per point of
/// the window, each point against its own capacity. A point without any
/// capacity has a threshold of 0 in every row, so its first layer fills its
/// whole column.
pub fn render_stacked(window: &HistoryWindow<CompositePoint>, height: usize) -> (rows: Vec<
    Vec<Level>,
>)
    ensures
        frame_view(rows) == stacked_frame(window@, height as nat),
{
    let width: usize = window.len();
    let mut rows: Vec<Vec<Level>> = Vec::new();
    let mut r: usize = 0;
    while r < height
        invariant
            r <= height,
            width == window@.len(),
            rows@.len() == r,
            forall|k: int|
                0 <= k < r ==> (#[trigger] rows@[k])@ == stacked_frame(window@, height as nat)[k],
        decreases height - r,
    {
        let mut line: Vec<Level> = Vec::new();
        let mut c: usize = 0;
        while c < width
            invariant
                c <= width,
                r < height,
                width == window@.len(),
                line@.len() == c,
                forall|k: int|
                    0 <= k < c ==> #[trigger] line@[k] == stacked_level(
                        window@[k],
                        row_threshold(r as int, height as int, window@[k].total as int),
                    ),
            decreases width - c,
        {
            let pt: CompositePoint = window.get(c);
            let t: u64 = threshold(r, height, pt.total);
            line.push(stacked_cell(pt, t));
            c += 1;
        }
        assert(line@ =~= stacked_frame(window@, height as nat)[r as int]);
        rows.push(line);
        r += 1;
    }
    assert(frame_view(rows) =~= stacked_frame(window@, height as nat));
    rows
}

/// Raising one point of a window never lowers the number of filled rows
/// in its column, counted over the rows `0..n` or over the whole graph.
pub proof fn lemma_fill_monotonic(
    window: Seq<u64>,
    col: int,
    higher: u64,
    max_val: u64,
    height: nat,
    n: nat,
)
    requires
        0 <= col < window.len(),
        window[col] <= higher,
        n <= height,
    ensures
        filled_in_column(simple_frame(window, max_val, height), col, n) <= filled_in_column(
            simple_frame(window.update(col, higher), max_val, height),
            col,
            n,
        ),
    decreases n,
{
    if n > 0 {
        lemma_fill_monotonic(window, col, higher, max_val, height, (n - 1) as nat);
        lemma_frame_monotonic(window, col, higher, max_val, height, n - 1);
    }
}

/// Raising one point of a window never turns a filled cell of its column
/// into an empty one, and leaves every other column as it was.
pub proof fn lemma_frame_monotonic(
    window: Seq<u64>,
    col: int,
    higher: u64,
    max_val: u64,
    height: nat,
    row: int,
)
    requires
        0 <= col < window.len(),
        0 <= row < height,
        window[col] <= higher,
    ensures
        simple_frame(window, max_val, height)[row][col] == Level::Primary ==> simple_frame(
            window.update(col, higher),
            max_val,
            height,
        )[row][col] == Level::Primary,
        forall|c: int|
            0 <= c < window.len() && c != col ==> simple_frame(
                window.update(col, higher),
                max_val,
                height,
            )[row][c] == simple_frame(window, max_val, height)[row][c],
{
}

/// Rendering depends on the window, the scale and the height alone: two
/// renderings of the same window with the same scale are identical.
pub proof fn lemma_render_repeatable(
    first: Vec<Vec<Level>>,
    second: Vec<Vec<Level>>,
    window: Seq<u64>,
    max_val: u64,
    height: nat,
)
    requires
        frame_view(first) == simple_frame(window, max_val, height),
        frame_view(second) == simple_frame(window, max_val, height),
    ensures
        frame_view(first) == frame_view(second),
        first@.len() == second@.len(),
        forall|r: int, c: int|
            0 <= r < first@.len() && 0 <= c < window.len() ==> first@[r]@[c] == second@[r]@[c],
{
    assert(frame_view(first).len() == first@.len());
    assert(frame_view(second).len() == second@.len());
    assert forall|r: int, c: int|
        0 <= r < first@.len() && 0 <= c < window.len() implies first@[r]@[c] == second@[r]@[c] by {
        assert(frame_view(first)[r] == first@[r]@);
        assert(frame_view(second)[r] == second@[r]@);
    }
}

/// Two renderings of the same window of stacked points are identical.
pub proof fn lemma_stacked_render_repeatable(
    first: Vec<Vec<Level>>,
    second: Vec<Vec<Level>>,
    window: Seq<CompositePoint>,
    height: nat,
)
    requires
        frame_view(first) == stacked_frame(window, height),
        frame_view(second) == stacked_frame(window, height),
    ensures
        frame_view(first) == frame_view(second),
        first@.len() == second@.len(),
        forall|r: int, c: int|
            0 <= r < first@.len() && 0 <= c < window.len() ==> first@[r]@[c] == second@[r]@[c],
{
    assert(frame_view(first).len() == first@.len());
    assert(frame_view(second).len() == second@.len());
    assert forall|r: int, c: int|
        0 <= r < first@.len() && 0 <= c < window.len() implies first@[r]@[c] == second@[r]@[c] by {
        assert(frame_view(first)[r] == first@[r]@);
        assert(frame_view(second)[r] == second@[r]@);
    }
}

/// The thresholds fall from the top row to the bottom row.
pub proof fn lemma_threshold_falls(upper: int, lower: int, height: int, max_val: int)
    requires
        0 <= upper <= lower < height,
        0 <= max_val,
    ensures
        row_threshold(lower, height, max_val) <= row_threshold(upper, height, max_val),
{
    assert((height - lower) * max_val <= (height - upper) * max_val) by (nonlinear_arith)
        requires
            upper <= lower,
            0 <= max_val,
    ;
    let a = (height - lower) * max_val;
    let b = (height - upper) * max_val;
    assert(a / height <= b / height) by (nonlinear_arith)
        requires
            a <= b,
            0 < height,
    ;
}

/// A bar stands on the bottom row: a point that fills a row fills every
/// row below it.
pub proof fn lemma_bar_is_bottom_anchored(
    window: Seq<u64>,
    max_val: u64,
    height: nat,
    col: int,
    upper: int,
    lower: int,
)
    requires
        0 <= col < window.len(),
        0 <= upper <= lower < height,
        simple_frame(window, max_val, height)[upper][col] == Level::Primary,
    ensures
        simple_frame(window, max_val, height)[lower][col] == Level::Primary,
{
    lemma_threshold_falls(upper, lower, height as int, max_val as int);
}

/// A point at or over the scale fills every row of its column.
pub proof fn lemma_over_scale_fills(
    window: Seq<u64>,
    max_val: u64,
    height: nat,
    col: int,
    row: int,
)
    requires
        0 <= col < window.len(),
        0 <= row < height,
        window[col] >= max_val,
    ensures
        simple_frame(window, max_val, height)[row][col] == Level::Primary,
{
    lemma_threshold_bounds(row, height as int, max_val as int);
}

/// A point without any capacity fills its whole column with the first
/// layer, whatever its two layers hold.
pub proof fn lemma_no_capacity_fills(window: Seq<CompositePoint>, height: nat, row: int, col: int)
    requires
        0 <= row < height,
        0 <= col < window.len(),
        window[col].total == 0,
    ensures
        stacked_frame(window, height)[row][col] == Level::Primary,
{
    lemma_threshold_bounds(row, height as int, 0);
}

/// In a stacked graph the first layer is drawn wherever it reaches the row's
/// threshold, whatever the second layer holds.
pub proof fn lemma_primary_covers(window: Seq<CompositePoint>, height: nat, row: int, col: int)
    requires
        0 <= row < height,
        0 <= col < window.len(),
        window[col].val1 >= row_threshold(row, height as int, window[col].total as int),
    ensures
        stacked_frame(window, height)[row][col] == Level::Primary,
{
}

} // verus!
