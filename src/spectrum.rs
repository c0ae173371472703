//! The per-frame display state: pixel columns with their held peaks, rebuilt
//! when the geometry changes and updated by the falloff rule otherwise.
use crate::columns::{
    are_peaks, build_columns, coords_bounded, decay_of, falloff, falloff_step, has_two_columns,
    is_first_min, is_partition, peak_bin, state_bounded, DisplayPoint, PixelColumn,
    SpectrumError, COORD_LIMIT, FALLOFF_SCALE, RELEASE_MARGIN,
};
use vstd::prelude::*;

verus! {

/// What a `Spectrum` holds, as plain values.
pub struct SpectrumView {
    /// Width and height of the drawing surface the columns were built for.
    pub window_size: (i64, i64),
    /// The width of one resolution step.
    pub resolution: i64,
    /// The falloff rate, in units of `1 / FALLOFF_SCALE` of the height per frame.
    pub falloff: i64,
    /// The held peak of each column.
    pub state: Seq<i64>,
    /// The bin range of each column.
    pub pixel_bins: Seq<PixelColumn>,
    /// The number of bins the columns were built over, DC included.
    pub bin_count: usize,
}

/// The display state of the spectrum line: a partition of the bins into
/// pixel columns and one held peak per column. The two are replaced together.
pub struct Spectrum {
    window_size: (i64, i64),
    resolution: i64,
    falloff: i64,
    state: Vec<i64>,
    pixel_bins: Vec<PixelColumn>,
    bin_count: usize,
}

impl View for Spectrum {
    type V = SpectrumView;

    closed spec fn view(&self) -> SpectrumView {
        SpectrumView {
            window_size: self.window_size,
            resolution: self.resolution,
            falloff: self.falloff,
            state: self.state@,
            pixel_bins: self.pixel_bins@,
            bin_count: self.bin_count,
        }
    }
}

/// The columns must be built (again): there are none yet, or the drawing
/// surface or the number of bins differs from what they were built for.
pub open spec fn rebuild_due(s: SpectrumView, width: i64, height: i64, bin_count: int) -> bool {
    s.state.len() == 0 || s.window_size != (width, height) || s.bin_count != bin_count
}

/// `new` is `old` after a rebuild for a surface of `width` by `height` from
/// bin positions `xs`, `ys`, with result `r`: on success the columns are
/// the partition of the bins by resolution step and each held peak is its
/// column's tallest point; on failure nothing changed.
pub open spec fn rebuilt(
    old: SpectrumView,
    new: SpectrumView,
    width: i64,
    height: i64,
    xs: Seq<i64>,
    ys: Seq<i64>,
    r: Result<Vec<DisplayPoint>, SpectrumError>,
) -> bool {
    &&& r is Err <==> !has_two_columns(xs, old.resolution as int)
    &&& match r {
        Err(e) => e == SpectrumError::TooFewColumns && new == old,
        Ok(pts) => {
            &&& is_partition(new.pixel_bins, xs, old.resolution as int, xs.len() as int)
            &&& new.pixel_bins.len() >= 2
            &&& are_peaks(pts@, new.pixel_bins, xs, ys)
            &&& new.state == pts@.map_values(|p: DisplayPoint| p.y)
            &&& new.window_size == (width, height)
            &&& new.bin_count == xs.len()
            &&& new.resolution == old.resolution
            &&& new.falloff == old.falloff
        },
    }
}

/// `new` is `old` after one steady frame in a window of height `height`,
/// with bin positions `xs`, `ys`, giving points `pts`: the columns stay, each
/// column's reading is its tallest bin this frame, and each held peak
/// follows the falloff rule.
pub open spec fn ticked(
    old: SpectrumView,
    new: SpectrumView,
    height: i64,
    xs: Seq<i64>,
    ys: Seq<i64>,
    pts: Seq<DisplayPoint>,
) -> bool {
    &&& new.pixel_bins == old.pixel_bins
    &&& new.window_size == old.window_size
    &&& new.bin_count == old.bin_count
    &&& new.resolution == old.resolution
    &&& new.falloff == old.falloff
    &&& new.state.len() == old.state.len()
    &&& pts.len() == old.state.len()
    &&& forall|k: int|
        0 <= k < pts.len() ==> {
            &&& is_first_min(
                ys,
                old.pixel_bins[k].lo as int,
                old.pixel_bins[k].hi as int,
                #[trigger] pts[k].bin as int,
            )
            &&& pts[k].x == xs[pts[k].bin as int]
            &&& new.state[k] == falloff(
                old.state[k] as int,
                ys[pts[k].bin as int] as int,
                decay_of(old.falloff as int, height as int),
                height + RELEASE_MARGIN,
            )
            &&& pts[k].y == new.state[k]
        }
}

impl Spectrum {
    /// Held peaks and columns agree in number, every column is a non-empty
    /// range of displayable bins, and every held peak is in bounds.
    pub closed spec fn wf(&self) -> bool {
        &&& self.state@.len() == self.pixel_bins@.len()
        &&& 0 < self.falloff < FALLOFF_SCALE
        &&& self.resolution > 0
        &&& forall|k: int|
            0 <= k < self.pixel_bins@.len() ==> 1 <= #[trigger] self.pixel_bins@[k].lo
                < self.pixel_bins@[k].hi <= self.bin_count
        &&& forall|k: int| 0 <= k < self.state@.len() ==> state_bounded(#[trigger] self.state@[k] as int)
    }

    /// A display with no columns yet, for a surface of `window_size`, with
    /// the given falloff rate and resolution step.
    pub fn new(falloff: i64, window_size: (i64, i64), resolution: i64) -> (r: Self)
        requires
            0 < falloff < FALLOFF_SCALE,
            resolution > 0,
        ensures
            r.wf(),
            r@.window_size == window_size,
            r@.falloff == falloff,
            r@.resolution == resolution,
            r@.state.len() == 0,
            r@.pixel_bins.len() == 0,
            r@.bin_count == 0,
    {
        Spectrum {
            window_size,
            resolution,
            falloff,
            state: Vec::new(),
            pixel_bins: Vec::new(),
            bin_count: 0,
        }
    }

    /// Whether the next frame must rebuild the columns.
    pub fn needs_rebuild(&self, width: i64, height: i64, bin_count: usize) -> (r: bool)
        ensures
            r == rebuild_due(self@, width, height, bin_count as int),
    {
        self.state.len() == 0 || self.window_size.0 != width || self.window_size.1 != height
            || self.bin_count != bin_count
    }

    /// Rebuilds the columns for a surface of `width` by `height` from the
    /// bins' positions, seeds each held peak with its column's tallest
    /// point, and returns the points of the line.
    pub fn render_resize(&mut self, width: i64, height: i64, xs: &[i64], ys: &[i64]) -> (r: Result<
        Vec<DisplayPoint>,
        SpectrumError,
    >)
        requires
            old(self).wf(),
            xs@.len() == ys@.len(),
            coords_bounded(ys@),
        ensures
            final(self).wf(),
            rebuilt(old(self)@, final(self)@, width, height, xs@, ys@, r),
    {
        match build_columns(xs, ys, self.resolution) {
            Err(e) => Err(e),
            Ok((cols, pts)) => {
                let mut state: Vec<i64> = Vec::with_capacity(pts.len());
                let mut k: usize = 0;
                while k < pts.len()
                    invariant
                        k <= pts@.len(),
                        are_peaks(pts@, cols@, xs@, ys@),
                        coords_bounded(ys@),
                        is_partition(cols@, xs@, self.resolution as int, xs@.len() as int),
                        state@ == pts@.subrange(0, k as int).map_values(|p: DisplayPoint| p.y),
                    decreases pts@.len() - k,
                {
                    state.push(pts[k].y);
                    k += 1;
                    assert(state@ =~= pts@.subrange(0, k as int).map_values(|p: DisplayPoint| p.y));
                }
                assert(pts@.subrange(0, k as int) =~= pts@);
                self.state = state;
                self.pixel_bins = cols;
                self.window_size = (width, height);
                self.bin_count = xs.len();
                proof {
                    assert forall|j: int| 0 <= j < self.state@.len() implies state_bounded(
                        #[trigger] self.state@[j] as int,
                    ) by {
                        assert(is_first_min(
                            ys@,
                            self.pixel_bins@[j].lo as int,
                            self.pixel_bins@[j].hi as int,
                            pts@[j].bin as int,
                        ));
                    }
                }
                Ok(pts)
            },
        }
    }

    /// One frame of the display: rebuilds the columns when that is due,
    /// else moves every held peak by the falloff rule toward its column's
    /// tallest bin. Returns the points of the line.
    pub fn render(&mut self, width: i64, height: i64, xs: &[i64], ys: &[i64]) -> (r: Result<
        Vec<DisplayPoint>,
        SpectrumError,
    >)
        requires
            old(self).wf(),
            xs@.len() == ys@.len(),
            coords_bounded(ys@),
            0 < height <= COORD_LIMIT,
        ensures
            final(self).wf(),
            rebuild_due(old(self)@, width, height, xs@.len() as int) ==> rebuilt(
                old(self)@,
                final(self)@,
                width,
                height,
                xs@,
                ys@,
                r,
            ),
            !rebuild_due(old(self)@, width, height, xs@.len() as int) ==> (r matches Ok(pts)
                && ticked(old(self)@, final(self)@, height, xs@, ys@, pts@)),
    {
        if self.needs_rebuild(width, height, xs.len()) {
            return self.render_resize(width, height, xs, ys);
        }
        let ghost before = self@;
        let n = self.pixel_bins.len();
        let mut pts: Vec<DisplayPoint> = Vec::with_capacity(n);
        let mut k: usize = 0;
        while k < n
            invariant
                self.wf(),
                n == self.pixel_bins@.len(),
                !rebuild_due(before, width, height, xs@.len() as int),
                xs@.len() == ys@.len(),
                coords_bounded(ys@),
                0 < height <= COORD_LIMIT,
                k <= n,
                pts@.len() == k,
                self@.pixel_bins == before.pixel_bins,
                self@.window_size == before.window_size,
                self@.bin_count == before.bin_count,
                self@.resolution == before.resolution,
                self@.falloff == before.falloff,
                self@.state.len() == before.state.len(),
                forall|j: int| k <= j < n ==> self@.state[j] == before.state[j],
                forall|j: int|
                    0 <= j < k ==> {
                        &&& is_first_min(
                            ys@,
                            before.pixel_bins[j].lo as int,
                            before.pixel_bins[j].hi as int,
                            #[trigger] pts@[j].bin as int,
                        )
                        &&& pts@[j].x == xs@[pts@[j].bin as int]
                        &&& self@.state[j] == falloff(
                            before.state[j] as int,
                            ys@[pts@[j].bin as int] as int,
                            decay_of(before.falloff as int, height as int),
                            height + RELEASE_MARGIN,
                        )
                        &&& pts@[j].y == self@.state[j]
                    },
            decreases n - k,
        {
            let col = self.pixel_bins[k];
            let bin = peak_bin(ys, col.lo, col.hi);
            let y = falloff_step(self.state[k], ys[bin], self.falloff, height);
            self.state.set(k, y);
            pts.push(DisplayPoint { bin, x: xs[bin], y });
            k += 1;
        }
        Ok(pts)
    }

    /// Changes the resolution step; a new step drops the columns, so that
    /// the next frame rebuilds them.
    pub fn set_resolution(&mut self, resolution: i64)
        requires
            old(self).wf(),
            resolution > 0,
        ensures
            final(self).wf(),
            final(self)@.resolution == resolution,
            final(self)@.window_size == old(self)@.window_size,
            final(self)@.falloff == old(self)@.falloff,
            resolution == old(self)@.resolution ==> final(self)@ == old(self)@,
            resolution != old(self)@.resolution ==> final(self)@.state.len() == 0
                && final(self)@.pixel_bins.len() == 0,
    {
        if resolution != self.resolution {
            self.resolution = resolution;
            self.state = Vec::new();
            self.pixel_bins = Vec::new();
        }
    }
}

} // verus!
