//! Partition of the displayable bins into pixel columns, and the per-column
//! peak pick and falloff rule.
//!
//! Display coordinates are integers in units of `1 / SUBPIXELS` of a pixel;
//! smaller `y` is a louder (taller) point. Inputs are indexed by bin: entry
//! `b` of `xs` and `ys` is where bin `b` lands on screen. Bin `0` (DC) is
//! never displayed.
use vstd::arithmetic::div_mod::{lemma_fundamental_div_mod, lemma_fundamental_div_mod_converse};
use vstd::prelude::*;

verus! {

/// Display units per pixel.
pub const SUBPIXELS: i64 = 1000;

/// Bound on the magnitude of every display coordinate.
pub const COORD_LIMIT: i64 = 0x4_0000_0000_0000;

/// How far below the window's bottom edge a released peak may fall.
pub const RELEASE_MARGIN: i64 = 100 * SUBPIXELS;

/// The falloff rate is given in units of `1 / FALLOFF_SCALE` of the window
/// height per frame.
pub const FALLOFF_SCALE: i64 = 1000;

/// Why no display could be built.
#[derive(Debug, Clone, Copy, PartialEq, Eq, Structural)]
pub enum SpectrumError {
    /// Fewer than two pixel columns came out, so no line can be drawn.
    TooFewColumns,
}

/// A contiguous range `lo..hi` of bins shown as one pixel column.
#[derive(Debug, Clone, Copy, PartialEq, Eq, Structural)]
pub struct PixelColumn {
    pub lo: usize,
    pub hi: usize,
}

/// A point of the displayed line: the column's peak bin and where it is drawn.
#[derive(Debug, Clone, Copy, PartialEq, Eq, Structural)]
pub struct DisplayPoint {
    pub bin: usize,
    pub x: i64,
    pub y: i64,
}

/// The resolution step that `x` falls in: `floor(x / resolution)`.
pub open spec fn step_of(x: int, resolution: int) -> int {
    x / resolution
}

/// Bin `b` opens a new column: it is the first displayable bin, or its
/// position crosses into another resolution step than the bin before it.
pub open spec fn starts_column(xs: Seq<i64>, resolution: int, b: int) -> bool {
    b == 1 || step_of(xs[b] as int, resolution) != step_of(xs[b - 1] as int, resolution)
}

/// Some bin after the first displayable one opens a column, so that at
/// least two columns come out.
pub open spec fn has_two_columns(xs: Seq<i64>, resolution: int) -> bool {
    exists|b: int| 2 <= b < xs.len() && #[trigger] starts_column(xs, resolution, b)
}

/// `cols` splits bins `1..end` into columns, each a maximal run of bins
/// in one resolution step, in increasing order.
pub open spec fn is_partition(cols: Seq<PixelColumn>, xs: Seq<i64>, resolution: int, end: int) -> bool {
    &&& cols.len() > 0 ==> cols[0].lo == 1 && cols.last().hi == end
    &&& forall|k: int| 0 <= k < cols.len() ==> 1 <= #[trigger] cols[k].lo < cols[k].hi <= end
    &&& forall|k: int| 0 <= k < cols.len() - 1 ==> #[trigger] cols[k].hi == cols[k + 1].lo
    &&& forall|k: int| 0 < k < cols.len() ==> starts_column(xs, resolution, #[trigger] cols[k].lo as int)
    &&& forall|k: int, b: int|
        #![trigger cols[k], starts_column(xs, resolution, b)]
        0 <= k < cols.len() && cols[k].lo < b < cols[k].hi ==> !starts_column(xs, resolution, b)
}

/// `p` is the first bin of `lo..hi` with the smallest `y`: the tallest point.
pub open spec fn is_first_min(ys: Seq<i64>, lo: int, hi: int, p: int) -> bool {
    &&& lo <= p < hi
    &&& forall|b: int| lo <= b < hi ==> ys[p] <= #[trigger] ys[b]
    &&& forall|b: int| lo <= b < p ==> ys[p] < #[trigger] ys[b]
}

/// Every coordinate lies within `COORD_LIMIT`.
pub open spec fn coords_bounded(v: Seq<i64>) -> bool {
    forall|i: int| 0 <= i < v.len() ==> -COORD_LIMIT <= #[trigger] v[i] <= COORD_LIMIT
}

/// `floor(x / d)`, rounding toward negative infinity.
pub fn floor_div(x: i64, d: i64) -> (r: i64)
    requires
        d > 0,
    ensures
        r == x as int / d as int,
{
    if x >= 0 {
        let q = (x as u64) / (d as u64);
        q as i64
    } else {
        let m: u64 = (-(x + 1)) as u64;
        let q = m / (d as u64);
        let rem = m % (d as u64);
        proof {
            lemma_fundamental_div_mod(m as int, d as int);
            assert(m == d * q + rem);
            assert(x == (-(q as int) - 1) * d + (d - rem - 1)) by (nonlinear_arith)
                requires
                    m == d * q + rem,
                    m == -(x + 1),
            ;
            lemma_fundamental_div_mod_converse(x as int, d as int, -(q as int) - 1, d - rem - 1);
        }
        -(q as i64) - 1
    }
}

/// `pts` holds, for each column of `cols`, its tallest bin and that bin's
/// position.
pub open spec fn are_peaks(
    pts: Seq<DisplayPoint>,
    cols: Seq<PixelColumn>,
    xs: Seq<i64>,
    ys: Seq<i64>,
) -> bool {
    &&& pts.len() == cols.len()
    &&& forall|k: int|
        0 <= k < pts.len() ==> {
            &&& is_first_min(ys, cols[k].lo as int, cols[k].hi as int, #[trigger] pts[k].bin as int)
            &&& pts[k].x == xs[pts[k].bin as int]
            &&& pts[k].y == ys[pts[k].bin as int]
        }
}

/// Splits bins `1..xs.len()` into pixel columns, each a maximal run of bins
/// whose positions lie in one resolution step, and gives each column's
/// tallest point. Fails when fewer than two columns come out.
pub fn build_columns(xs: &[i64], ys: &[i64], resolution: i64) -> (r: Result<
    (Vec<PixelColumn>, Vec<DisplayPoint>),
    SpectrumError,
>)
    requires
        resolution > 0,
        xs@.len() == ys@.len(),
    ensures
        r is Err <==> !has_two_columns(xs@, resolution as int),
        r is Err ==> r == Err::<(Vec<PixelColumn>, Vec<DisplayPoint>), _>(
            SpectrumError::TooFewColumns,
        ),
        r matches Ok((cols, pts)) ==> {
            &&& cols@.len() >= 2
            &&& is_partition(cols@, xs@, resolution as int, xs@.len() as int)
            &&& are_peaks(pts@, cols@, xs@, ys@)
        },
{
    let n = xs.len();
    if n < 2 {
        return Err(SpectrumError::TooFewColumns);
    }
    let ghost res = resolution as int;
    let mut cols: Vec<PixelColumn> = Vec::new();
    let mut pts: Vec<DisplayPoint> = Vec::new();
    let mut lo: usize = 1;
    let mut best: usize = 1;
    let mut cur_step = floor_div(xs[1], resolution);
    let mut b: usize = 2;
    while b < n
        invariant
            n == xs@.len() == ys@.len(),
            resolution > 0,
            res == resolution as int,
            1 <= lo < b <= n,
            cur_step == step_of(xs@[b - 1] as int, res),
            lo == 1 <==> cols@.len() == 0,
            starts_column(xs@, res, lo as int),
            forall|c: int| lo < c < b ==> !#[trigger] starts_column(xs@, res, c),
            is_first_min(ys@, lo as int, b as int, best as int),
            is_partition(cols@, xs@, res, lo as int),
            are_peaks(pts@, cols@, xs@, ys@),
        decreases n - b,
    {
        let s = floor_div(xs[b], resolution);
        if s != cur_step {
            let col = PixelColumn { lo, hi: b };
            let pt = DisplayPoint { bin: best, x: xs[best], y: ys[best] };
            let ghost old_cols = cols@;
            cols.push(col);
            pts.push(pt);
            proof {
                assert(starts_column(xs@, res, b as int));
                assert forall|k: int, c: int|
                    #![trigger cols@[k], starts_column(xs@, res, c)]
                    0 <= k < cols@.len() && cols@[k].lo < c < cols@[k].hi implies !starts_column(
                        xs@,
                        res,
                        c,
                    ) by {
                    if k < old_cols.len() {
                        assert(cols@[k] == old_cols[k]);
                    }
                }
            }
            lo = b;
            best = b;
            cur_step = s;
        } else {
            proof {
                assert(!starts_column(xs@, res, b as int));
            }
            if ys[b] < ys[best] {
                best = b;
            }
        }
        b += 1;
    }
    let col = PixelColumn { lo, hi: n };
    let pt = DisplayPoint { bin: best, x: xs[best], y: ys[best] };
    let ghost old_cols = cols@;
    cols.push(col);
    pts.push(pt);
    proof {
        assert forall|k: int, c: int|
            #![trigger cols@[k], starts_column(xs@, res, c)]
            0 <= k < cols@.len() && cols@[k].lo < c < cols@[k].hi implies !starts_column(
                xs@,
                res,
                c,
            ) by {
            if k < old_cols.len() {
                assert(cols@[k] == old_cols[k]);
            }
        }
    }
    if cols.len() < 2 {
        proof {
            assert forall|c: int| 2 <= c < n implies !#[trigger] starts_column(xs@, res, c) by {}
        }
        return Err(SpectrumError::TooFewColumns);
    }
    proof {
        assert(lo > 1);
        assert(starts_column(xs@, res, lo as int));
    }
    Ok((cols, pts))
}

/// How far a peak falls per frame: `falloff * height`.
pub open spec fn decay_of(falloff: int, height: int) -> int {
    height * falloff / FALLOFF_SCALE as int
}

/// The peak-hold rule for one column: a reading at or above the decayed
/// peak (`new_y <= state_y + decay`) is taken at once; otherwise the peak
/// falls by `decay`, but not below `ceiling`.
pub open spec fn falloff(state_y: int, new_y: int, decay: int, ceiling: int) -> int {
    if new_y <= state_y + decay {
        new_y
    } else if state_y + decay <= ceiling {
        state_y + decay
    } else {
        ceiling
    }
}

/// A falloff rate in `(0, 1)` and a window height that display
/// coordinates can hold.
pub open spec fn valid_falloff(falloff: int, height: int) -> bool {
    &&& 0 < falloff < FALLOFF_SCALE
    &&& 0 < height <= COORD_LIMIT
}

/// A held peak lies within `COORD_LIMIT` above, and no lower than the
/// release floor below.
pub open spec fn state_bounded(y: int) -> bool {
    -COORD_LIMIT <= y <= COORD_LIMIT + RELEASE_MARGIN
}

/// The next held peak of a column whose held peak is `state_y` and whose
/// reading this frame is `new_y`, in a window of height `height` with the
/// given falloff rate. A peak falls at most to `height + RELEASE_MARGIN`.
pub fn falloff_step(state_y: i64, new_y: i64, falloff_rate: i64, height: i64) -> (r: i64)
    requires
        valid_falloff(falloff_rate as int, height as int),
        state_bounded(state_y as int),
        -COORD_LIMIT <= new_y <= COORD_LIMIT,
    ensures
        r == falloff(
            state_y as int,
            new_y as int,
            decay_of(falloff_rate as int, height as int),
            height + RELEASE_MARGIN,
        ),
        state_bounded(r as int),
{
    proof {
        assert(height * falloff_rate <= COORD_LIMIT * FALLOFF_SCALE) by (nonlinear_arith)
            requires
                0 < height <= COORD_LIMIT,
                0 < falloff_rate < FALLOFF_SCALE,
        ;
        assert(0 <= height * falloff_rate / FALLOFF_SCALE as int <= height) by (nonlinear_arith)
            requires
                0 < height,
                0 < falloff_rate < FALLOFF_SCALE,
        ;
    }
    let decay = height * falloff_rate / FALLOFF_SCALE;
    let ceiling = height + RELEASE_MARGIN;
    let released = state_y + decay;
    if new_y <= released {
        new_y
    } else if released <= ceiling {
        released
    } else {
        ceiling
    }
}

/// The first bin of `lo..hi` with the smallest `y`.
pub fn peak_bin(ys: &[i64], lo: usize, hi: usize) -> (r: usize)
    requires
        lo < hi <= ys@.len(),
    ensures
        is_first_min(ys@, lo as int, hi as int, r as int),
{
    let mut best = lo;
    let mut b = lo + 1;
    while b < hi
        invariant
            lo < b <= hi <= ys@.len(),
            is_first_min(ys@, lo as int, b as int, best as int),
        decreases hi - b,
    {
        if ys[b] < ys[best] {
            best = b;
        }
        b += 1;
    }
    best
}

/// Where bin positions do not decrease with the bin, as on a logarithmic
/// frequency axis, the points of the line come out in increasing bin order
/// and with non-decreasing `x`.
pub proof fn lemma_points_ordered(
    pts: Seq<DisplayPoint>,
    cols: Seq<PixelColumn>,
    xs: Seq<i64>,
    ys: Seq<i64>,
    resolution: int,
)
    requires
        is_partition(cols, xs, resolution, xs.len() as int),
        are_peaks(pts, cols, xs, ys),
        forall|a: int, b: int| 1 <= a <= b < xs.len() ==> xs[a] <= xs[b],
    ensures
        forall|k: int, j: int|
            #![trigger pts[k], pts[j]]
            0 <= k < j < pts.len() ==> (pts[k].bin < pts[j].bin && pts[k].x <= pts[j].x),
{
    assert forall|k: int, j: int|
        #![trigger pts[k], pts[j]]
        0 <= k < j < pts.len() implies (pts[k].bin < pts[j].bin && pts[k].x <= pts[j].x) by {
        assert(is_first_min(ys, cols[k].lo as int, cols[k].hi as int, pts[k].bin as int));
        assert(is_first_min(ys, cols[j].lo as int, cols[j].hi as int, pts[j].bin as int));
        lemma_columns_ascend(cols, k, j);
    }
}

/// Later columns start at or after the end of earlier ones.
proof fn lemma_columns_ascend(cols: Seq<PixelColumn>, k: int, j: int)
    requires
        forall|i: int| 0 <= i < cols.len() ==> #[trigger] cols[i].lo < cols[i].hi,
        forall|i: int| 0 <= i < cols.len() - 1 ==> #[trigger] cols[i].hi == cols[i + 1].lo,
        0 <= k < j < cols.len(),
    ensures
        cols[k].hi <= cols[j].lo,
    decreases j - k,
{
    if j > k + 1 {
        lemma_columns_ascend(cols, k, j - 1);
        assert(cols[j - 1].hi == cols[j].lo);
    } else {
        assert(cols[k].hi == cols[k + 1].lo);
    }
}

} // verus!
