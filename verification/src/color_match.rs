//! Matching the colours of the two cameras along the seam: when to measure,
//! where to look, and how far the correction may go.

use crate::calibration::Lens;
use crate::planes::{Nv12Planes, YuvPlanes};
use crate::scalar::{
    order_is_that_of_units, Scalar, Wide, HALF, ONE, WIDE_HALF, WIDE_ONE, WIDE_ZERO, ZERO,
};
use crate::viewport::{BAND_WIDTH_DEFAULT, MAX_CHROMA_OFFSET_DEFAULT, MAX_Y_OFFSET_DEFAULT};
use vstd::prelude::*;

verus! {

/// What is added to each camera's luma and chroma, and its gamma.
#[derive(Clone, Copy, Debug)]
pub struct ColorCorrection {
    pub left_offset: [Scalar; 3],
    pub right_offset: [Scalar; 3],
    pub left_gamma: Scalar,
    pub right_gamma: Scalar,
}

pub open spec fn no_offset() -> [Scalar; 3] {
    [Scalar { bits: ZERO }, Scalar { bits: ZERO }, Scalar { bits: ZERO }]
}

impl ColorCorrection {
    /// Offsets of nothing, with the given gammas.
    pub fn identity(left_gamma: Scalar, right_gamma: Scalar) -> (c: ColorCorrection)
        ensures
            c.left_offset@ == no_offset()@,
            c.right_offset@ == no_offset()@,
            c.left_gamma == left_gamma,
            c.right_gamma == right_gamma,
    {
        let zero = Scalar { bits: ZERO };
        let none: [Scalar; 3] = [zero, zero, zero];
        ColorCorrection { left_offset: none, right_offset: none, left_gamma, right_gamma }
    }
}

/// The gamma is a positive number.
pub open spec fn invertible(gamma: Scalar) -> bool {
    gamma.spec_is_finite() && (Scalar { bits: ZERO }).below(gamma)
}

pub fn is_invertible(gamma: Scalar) -> (r: bool)
    ensures
        r == invertible(gamma),
{
    gamma.is_finite() && (Scalar { bits: ZERO }).lt(gamma)
}

/// The gamma itself where it can be inverted, else one.
pub open spec fn usable_gamma(gamma: Scalar) -> Scalar {
    if invertible(gamma) {
        gamma
    } else {
        Scalar { bits: ONE }
    }
}

/// The gamma to invert: a gamma that is not a positive number counts as one.
pub fn inv_gamma_base(gamma: Scalar) -> (g: Scalar)
    ensures
        g == usable_gamma(gamma),
{
    if is_invertible(gamma) {
        gamma
    } else {
        Scalar { bits: ONE }
    }
}

#[derive(Clone, Copy, Debug, PartialEq, Eq, Structural)]
pub struct ColorMatchParams {
    pub band_width: Scalar,
    pub grid_cols: u32,
    pub grid_rows: u32,
    pub measure_interval_frames: u32,
    pub ema_alpha: Scalar,
    pub max_y_offset: Scalar,
    pub max_chroma_offset: Scalar,
    pub seam_offset: Scalar,
    pub gamma_left: Scalar,
    pub gamma_right: Scalar,
    pub blend_flip_direction: bool,
    pub auto_gamma: bool,
}

impl Default for ColorMatchParams {
    fn default() -> (p: ColorMatchParams)
        ensures
            p.band_width == (Scalar { bits: BAND_WIDTH_DEFAULT }),
            p.grid_cols == 8,
            p.grid_rows == 16,
            p.measure_interval_frames == 15,
            p.ema_alpha == (Scalar { bits: BAND_WIDTH_DEFAULT }),
            p.max_y_offset == (Scalar { bits: MAX_Y_OFFSET_DEFAULT }),
            p.max_chroma_offset == (Scalar { bits: MAX_CHROMA_OFFSET_DEFAULT }),
            p.seam_offset == (Scalar { bits: ZERO }),
            p.gamma_left == (Scalar { bits: ONE }),
            p.gamma_right == (Scalar { bits: ONE }),
            !p.blend_flip_direction,
            !p.auto_gamma,
    {
        ColorMatchParams {
            band_width: Scalar { bits: BAND_WIDTH_DEFAULT },
            grid_cols: 8,
            grid_rows: 16,
            measure_interval_frames: 15,
            ema_alpha: Scalar { bits: BAND_WIDTH_DEFAULT },
            max_y_offset: Scalar { bits: MAX_Y_OFFSET_DEFAULT },
            max_chroma_offset: Scalar { bits: MAX_CHROMA_OFFSET_DEFAULT },
            seam_offset: Scalar { bits: ZERO },
            gamma_left: Scalar { bits: ONE },
            gamma_right: Scalar { bits: ONE },
            blend_flip_direction: false,
            auto_gamma: false,
        }
    }
}

impl ColorMatchParams {
    /// The largest offsets are numbers and not negative.
    pub open spec fn bounded(self) -> bool {
        &&& (Scalar { bits: ZERO }).at_most(self.max_y_offset)
        &&& (Scalar { bits: ZERO }).at_most(self.max_chroma_offset)
    }

    /// The cells of the grid can be counted.
    pub open spec fn grid_fits(self) -> bool {
        grid_extent(self.grid_cols) * grid_extent(self.grid_rows) <= u32::MAX
    }
}

/// Of the two planes, the one that fades out across the seam.
pub fn is_fading_plane(is_right: bool, blend_flip_direction: bool) -> (r: bool)
    ensures
        r == (is_right != blend_flip_direction),
{
    is_right != blend_flip_direction
}

/// Exactly one of the planes fades.
pub proof fn one_plane_fades(blend_flip_direction: bool)
    ensures
        (true != blend_flip_direction) != (false != blend_flip_direction),
{
}

/// The largest offset of the i-th component: luma has a limit of its own.
pub open spec fn offset_limit(params: ColorMatchParams, i: int) -> Scalar {
    if i == 0 {
        params.max_y_offset
    } else {
        params.max_chroma_offset
    }
}

pub open spec fn held_offset(o: Scalar, limit: Scalar) -> Scalar {
    o.spec_clamp(limit.spec_negated(), limit)
}

/// An offset within the limits.
pub fn clamp_offset(o: [Scalar; 3], params: &ColorMatchParams) -> (r: [Scalar; 3])
    requires
        params.bounded(),
    ensures
        forall|i: int|
            0 <= i < 3 ==> #[trigger] r[i] == held_offset(o[i], offset_limit(*params, i)),
{
    let y: Scalar = params.max_y_offset;
    let c: Scalar = params.max_chroma_offset;
    [
        o[0].clamp(y.negated(), y),
        o[1].clamp(c.negated(), c),
        o[2].clamp(c.negated(), c),
    ]
}

/// No component of a held offset is larger than its limit, either way.
pub proof fn held_offset_is_bounded(o: Scalar, limit: Scalar)
    requires
        (Scalar { bits: ZERO }).at_most(limit),
        !o.spec_is_nan(),
    ensures
        limit.spec_negated().at_most(held_offset(o, limit)),
        held_offset(o, limit).at_most(limit),
{
}

/// The correction in force, and how many frames ago it was last measured.
pub struct ColorMatchState {
    pub left_offset: [Scalar; 3],
    pub right_offset: [Scalar; 3],
    pub left_gamma: Scalar,
    pub right_gamma: Scalar,
    pub frames_since_measure: u32,
    pub interval: u32,
}

/// The arithmetic of a measurement, which is done on numbers.
pub trait BandMath {
    /// A number in double precision.
    fn widen(&self, x: Scalar) -> Wide;

    fn wide_sum(&self, a: Wide, b: Wide) -> Wide;

    fn wide_difference(&self, a: Wide, b: Wide) -> Wide;

    fn wide_product(&self, a: Wide, b: Wide) -> Wide;

    fn wide_ratio(&self, a: Wide, b: Wide) -> Wide;

    /// A count in double precision.
    fn wide_whole(&self, n: u32) -> Wide;

    /// Where a place on the undistorted picture, of the given width and height, falls
    /// on the picture of the lens.
    fn project(&self, lens: &Lens, width: u32, height: u32, at: (Wide, Wide)) -> SourcePoint;

    /// The mean of samples of luma and chroma, brightened by a gamma.
    fn average(&self, samples: &Vec<(u8, u8, u8)>, full_range: bool, gamma: Scalar) -> [Scalar; 3];

    /// The same of samples that are numbers already.
    fn average_normalized(
        &self,
        samples: &Vec<[Scalar; 4]>,
        full_range: bool,
        gamma: Scalar,
    ) -> [Scalar; 3];

    fn sum(&self, a: Scalar, b: Scalar) -> Scalar;

    fn difference(&self, a: Scalar, b: Scalar) -> Scalar;

    fn product(&self, a: Scalar, b: Scalar) -> Scalar;
}

/// `x` is the offset that brings `own`, one of the two means, to the mean of both.
pub open spec fn asked<M: BandMath>(
    math: M,
    left: Scalar,
    right: Scalar,
    own: Scalar,
    x: Scalar,
) -> bool {
    exists|both: Scalar, mean: Scalar|
        {
            &&& #[trigger] call_ensures(M::sum, (&math, left, right), both)
            &&& #[trigger] call_ensures(M::product, (&math, both, Scalar { bits: HALF }), mean)
            &&& call_ensures(M::difference, (&math, mean, own), x)
        }
}

fn toward<M: BandMath>(left: Scalar, right: Scalar, own: Scalar, math: &M) -> (x: Scalar)
    ensures
        asked(*math, left, right, own, x),
{
    let both: Scalar = math.sum(left, right);
    let mean: Scalar = math.product(both, Scalar { bits: HALF });
    math.difference(mean, own)
}

/// `x` is a number moved towards another by a weight.
pub open spec fn smoothed<M: BandMath>(
    math: M,
    current: Scalar,
    target: Scalar,
    weight: Scalar,
    x: Scalar,
) -> bool {
    exists|way: Scalar, step: Scalar|
        {
            &&& #[trigger] call_ensures(M::difference, (&math, target, current), way)
            &&& #[trigger] call_ensures(M::product, (&math, weight, way), step)
            &&& call_ensures(M::sum, (&math, current, step), x)
        }
}

fn ema_toward<M: BandMath>(current: Scalar, target: Scalar, weight: Scalar, math: &M) -> (x: Scalar)
    ensures
        smoothed(*math, current, target, weight, x),
{
    let way: Scalar = math.difference(target, current);
    let step: Scalar = math.product(weight, way);
    math.sum(current, step)
}

/// One component is moved from `before` to `after`: towards the offset that
/// `toward` asks for, held within its limit.
pub open spec fn component_moved<M: BandMath>(
    math: M,
    before: Scalar,
    means: (Scalar, Scalar),
    own: Scalar,
    limit: Scalar,
    alpha: Scalar,
    after: Scalar,
) -> bool {
    exists|wanted: Scalar|
        {
            &&& #[trigger] asked(math, means.0, means.1, own, wanted)
            &&& smoothed(math, before, held_offset(wanted, limit), alpha, after)
        }
}

/// One camera's offset is moved from `before` to `after` by a measurement of
/// the two means, of which `own` is its own.
pub open spec fn offset_moved<M: BandMath>(
    math: M,
    before: [Scalar; 3],
    left_mean: [Scalar; 3],
    right_mean: [Scalar; 3],
    own: [Scalar; 3],
    params: ColorMatchParams,
    after: [Scalar; 3],
) -> bool {
    forall|i: int|
        0 <= i < 3 ==> component_moved(
            math,
            before[i],
            (left_mean[i], right_mean[i]),
            own[i],
            offset_limit(params, i),
            params.ema_alpha,
            #[trigger] after[i],
        )
}

/// A measurement of both means takes the state `before` to `after`; with a
/// mean missing nothing is applied.
pub open spec fn applied<M: BandMath>(
    math: M,
    before: ColorMatchState,
    left_mean: Option<[Scalar; 3]>,
    right_mean: Option<[Scalar; 3]>,
    params: ColorMatchParams,
    after: ColorMatchState,
) -> bool {
    match (left_mean, right_mean) {
        (Some(l), Some(r)) => {
            &&& offset_moved(math, before.left_offset, l, r, l, params, after.left_offset)
            &&& offset_moved(math, before.right_offset, l, r, r, params, after.right_offset)
            &&& after == (ColorMatchState {
                left_offset: after.left_offset,
                right_offset: after.right_offset,
                ..before
            })
        },
        _ => after == before,
    }
}

/// A part of a plane's width, held between its edges.
pub open spec fn on_plane(part: Wide) -> Wide {
    part.spec_clamp(Wide { bits: WIDE_ZERO }, Wide { bits: WIDE_ONE })
}

/// `band` is the part of a plane's width that the band beside the seam takes up. The
/// seam is on the left edge of the right camera's plane and on the right edge of the
/// left one's, and is shifted inwards by `seam_offset`.
pub open spec fn banded<M: BandMath>(
    math: M,
    is_right: bool,
    seam_offset: Wide,
    band_width: Wide,
    band: (Wide, Wide),
) -> bool {
    if is_right {
        exists|end: Wide|
            {
                &&& #[trigger] call_ensures(M::wide_sum, (&math, seam_offset, band_width), end)
                &&& band == (on_plane(seam_offset), on_plane(end))
            }
    } else {
        exists|start: Wide, end: Wide|
            {
                &&& #[trigger] call_ensures(
                    M::wide_difference,
                    (&math, Wide { bits: WIDE_ONE }, seam_offset),
                    end,
                )
                &&& #[trigger] call_ensures(M::wide_difference, (&math, end, band_width), start)
                &&& band == (on_plane(start), on_plane(end))
            }
    }
}

/// The part of a plane's width that the band beside the seam takes up.
pub fn seam_band_bounds<M: BandMath>(
    is_right: bool,
    seam_offset: Wide,
    band_width: Wide,
    math: &M,
) -> (band: (Wide, Wide))
    ensures
        banded(*math, is_right, seam_offset, band_width, band),
{
    let zero = Wide { bits: WIDE_ZERO };
    let one = Wide { bits: WIDE_ONE };
    if is_right {
        let end: Wide = math.wide_sum(seam_offset, band_width);
        (seam_offset.clamp(zero, one), end.clamp(zero, one))
    } else {
        let end: Wide = math.wide_difference(one, seam_offset);
        let start: Wide = math.wide_difference(end, band_width);
        (start.clamp(zero, one), end.clamp(zero, one))
    }
}

/// `band` is where one camera is measured. Only the fading plane's band moves with
/// the seam.
pub open spec fn measured_band<M: BandMath>(
    math: M,
    is_right: bool,
    params: ColorMatchParams,
    band: (Wide, Wide),
) -> bool {
    exists|seam: Wide, width: Wide|
        {
            &&& if is_right != params.blend_flip_direction {
                call_ensures(M::widen, (&math, params.seam_offset), seam)
            } else {
                seam == (Wide { bits: WIDE_ZERO })
            }
            &&& call_ensures(M::widen, (&math, params.band_width), width)
            &&& #[trigger] banded(math, is_right, seam, width, band)
        }
}

/// `x` is where the middle of a column of the grid is across a picture that is `width`
/// wide. The columns share the band.
pub open spec fn column_middle<M: BandMath>(math: M, cell: BandCell, width: u32, x: Wide) -> bool {
    exists|
        n: Wide,
        middle: Wide,
        cols: Wide,
        part: Wide,
        wide: Wide,
        step: Wide,
        across: Wide,
        pixels: Wide,
    |
        {
            &&& #[trigger] call_ensures(M::wide_whole, (&math, cell.col), n)
            &&& #[trigger] call_ensures(M::wide_sum, (&math, n, Wide { bits: WIDE_HALF }), middle)
            &&& #[trigger] call_ensures(M::wide_whole, (&math, cell.cols), cols)
            &&& #[trigger] call_ensures(M::wide_ratio, (&math, middle, cols), part)
            &&& #[trigger] call_ensures(
                M::wide_difference,
                (&math, cell.band.1, cell.band.0),
                wide,
            )
            &&& #[trigger] call_ensures(M::wide_product, (&math, part, wide), step)
            &&& #[trigger] call_ensures(M::wide_sum, (&math, cell.band.0, step), across)
            &&& #[trigger] call_ensures(M::wide_whole, (&math, width), pixels)
            &&& call_ensures(M::wide_product, (&math, across, pixels), x)
        }
}

/// `y` is where the middle of a row of the grid is down a picture that is `height` high.
/// The rows share the lower half, where the ground is.
pub open spec fn row_middle<M: BandMath>(math: M, cell: BandCell, height: u32, y: Wide) -> bool {
    let half = Wide { bits: WIDE_HALF };
    exists|
        n: Wide,
        middle: Wide,
        rows: Wide,
        part: Wide,
        below: Wide,
        down: Wide,
        pixels: Wide,
    |
        {
            &&& #[trigger] call_ensures(M::wide_whole, (&math, cell.row), n)
            &&& #[trigger] call_ensures(M::wide_sum, (&math, n, half), middle)
            &&& #[trigger] call_ensures(M::wide_whole, (&math, cell.rows), rows)
            &&& #[trigger] call_ensures(M::wide_ratio, (&math, middle, rows), part)
            &&& #[trigger] call_ensures(M::wide_product, (&math, part, half), below)
            &&& #[trigger] call_ensures(M::wide_sum, (&math, half, below), down)
            &&& #[trigger] call_ensures(M::wide_whole, (&math, height), pixels)
            &&& call_ensures(M::wide_product, (&math, down, pixels), y)
        }
}

/// `point` is where the middle of a cell falls on the picture of the lens.
pub open spec fn cell_projected<M: BandMath>(
    math: M,
    lens: Lens,
    size: (u32, u32),
    cell: BandCell,
    point: SourcePoint,
) -> bool {
    exists|at: (Wide, Wide)|
        {
            &&& column_middle(math, cell, size.0, at.0)
            &&& row_middle(math, cell, size.1, at.1)
            &&& #[trigger] call_ensures(M::project, (&math, &lens, size.0, size.1, at), point)
        }
}

fn column_of<M: BandMath>(cell: BandCell, width: u32, math: &M) -> (x: Wide)
    ensures
        column_middle(*math, cell, width, x),
{
    let n: Wide = math.wide_whole(cell.col);
    let middle: Wide = math.wide_sum(n, Wide { bits: WIDE_HALF });
    let cols: Wide = math.wide_whole(cell.cols);
    let part: Wide = math.wide_ratio(middle, cols);
    let wide: Wide = math.wide_difference(cell.band.1, cell.band.0);
    let step: Wide = math.wide_product(part, wide);
    let across: Wide = math.wide_sum(cell.band.0, step);
    let pixels: Wide = math.wide_whole(width);
    math.wide_product(across, pixels)
}

fn row_of<M: BandMath>(cell: BandCell, height: u32, math: &M) -> (y: Wide)
    ensures
        row_middle(*math, cell, height, y),
{
    let half = Wide { bits: WIDE_HALF };
    let n: Wide = math.wide_whole(cell.row);
    let middle: Wide = math.wide_sum(n, half);
    let rows: Wide = math.wide_whole(cell.rows);
    let part: Wide = math.wide_ratio(middle, rows);
    let below: Wide = math.wide_product(part, half);
    let down: Wide = math.wide_sum(half, below);
    let pixels: Wide = math.wide_whole(height);
    math.wide_product(down, pixels)
}

fn project_cell<M: BandMath>(lens: Lens, size: (u32, u32), cell: BandCell, math: &M) -> (point:
    SourcePoint)
    ensures
        cell_projected(*math, lens, size, cell, point),
{
    let at: (Wide, Wide) = (column_of(cell, size.0, math), row_of(cell, size.1, math));
    math.project(&lens, size.0, size.1, at)
}

/// `points` is where the cells of one camera's grid over a band fall, row by row.
pub open spec fn cells_projected<M: BandMath>(
    math: M,
    lens: Lens,
    size: (u32, u32),
    params: ColorMatchParams,
    band: (Wide, Wide),
    points: Seq<SourcePoint>,
) -> bool {
    let cols = grid_extent(params.grid_cols);
    &&& points.len() == grid_extent(params.grid_rows) * cols
    &&& forall|r: u32, c: u32|
        r < grid_extent(params.grid_rows) && c < cols ==> cell_projected(
            math,
            lens,
            size,
            #[trigger] band_cell(params, band, r, c),
            points[r * cols + c],
        )
}

/// `points` is where the cells of one camera's grid fall, row by row.
pub open spec fn grid_projected<M: BandMath>(
    math: M,
    lens: Lens,
    size: (u32, u32),
    is_right: bool,
    params: ColorMatchParams,
    points: Seq<SourcePoint>,
) -> bool {
    exists|band: (Wide, Wide)|
        {
            &&& measured_band(math, is_right, params, band)
            &&& #[trigger] cells_projected(math, lens, size, params, band, points)
        }
}

/// `mean` is one camera's mean over its grid: none where no cell of it has a
/// sample.
pub open spec fn band_measured<M: BandMath, S: PlaneSampler>(
    math: M,
    sampler: S,
    lens: Lens,
    size: (u32, u32),
    is_right: bool,
    full_range: bool,
    params: ColorMatchParams,
    mean: Option<[Scalar; 3]>,
) -> bool {
    exists|points: Seq<SourcePoint>|
        {
            &&& #[trigger] grid_projected(math, lens, size, is_right, params, points)
            &&& averaged(
                math,
                samples_at(sampler, kept_pixels(points, size.0, size.1)),
                full_range,
                camera_gamma(params, is_right),
                mean,
            )
        }
}

/// `mean` is what the arithmetic gives for these samples.
pub open spec fn mean_of<M: BandMath>(
    math: M,
    samples: Seq<(u8, u8, u8)>,
    full_range: bool,
    gamma: Scalar,
    mean: [Scalar; 3],
) -> bool {
    exists|v: Vec<(u8, u8, u8)>|
        v@ == samples && #[trigger] call_ensures(
            M::average,
            (&math, &v, full_range, usable_gamma(gamma)),
            mean,
        )
}

pub open spec fn averaged<M: BandMath>(
    math: M,
    samples: Seq<(u8, u8, u8)>,
    full_range: bool,
    gamma: Scalar,
    mean: Option<[Scalar; 3]>,
) -> bool {
    match mean {
        None => samples.len() == 0,
        Some(m) => samples.len() > 0 && mean_of(math, samples, full_range, gamma, m),
    }
}

/// `mean` is the mean of samples that came as numbers.
pub open spec fn normalized_averaged<M: BandMath>(
    math: M,
    samples: Vec<[Scalar; 4]>,
    full_range: bool,
    gamma: Scalar,
    mean: Option<[Scalar; 3]>,
) -> bool {
    match mean {
        None => samples@.len() == 0,
        Some(m) => samples@.len() > 0 && call_ensures(
            M::average_normalized,
            (&math, &samples, full_range, usable_gamma(gamma)),
            m,
        ),
    }
}

/// Both cameras are measured, which takes the state from `before` to `after`.
pub open spec fn measured_and_applied<M: BandMath, S: PlaneSampler>(
    math: M,
    before: ColorMatchState,
    left: S,
    right: S,
    lenses: (Lens, Lens),
    size: (u32, u32),
    full_range: bool,
    params: ColorMatchParams,
    after: ColorMatchState,
) -> bool {
    exists|l: Option<[Scalar; 3]>, r: Option<[Scalar; 3]>|
        {
            &&& #[trigger] band_measured(
                math,
                left,
                lenses.0,
                size,
                false,
                full_range,
                params,
                l,
            )
            &&& #[trigger] band_measured(
                math,
                right,
                lenses.1,
                size,
                true,
                full_range,
                params,
                r,
            )
            &&& applied(math, before, l, r, params, after)
        }
}

/// One frame takes the state `before` to `after`. Where a measurement is due, and only
/// there, both cameras are measured once, with the means `answer`.
pub open spec fn frame_counted<M: BandMath>(
    math: M,
    before: ColorMatchState,
    params: ColorMatchParams,
    answer: Option<(Option<[Scalar; 3]>, Option<[Scalar; 3]>)>,
    after: ColorMatchState,
) -> bool {
    let set = before.taking(params);
    match answer {
        None => !set.due_next() && after == set.ticked(),
        Some(means) => set.due_next() && applied(
            math,
            ColorMatchState { frames_since_measure: 0, ..set },
            means.0,
            means.1,
            params,
            after,
        ),
    }
}

/// One frame of colour matching: the gammas in force are taken over, and where a
/// measurement is due, both cameras are measured and the result is applied; else
/// only the frame is counted.
pub open spec fn frame_matched<M: BandMath, S: PlaneSampler>(
    math: M,
    before: ColorMatchState,
    left: S,
    right: S,
    lenses: (Lens, Lens),
    size: (u32, u32),
    full_range: bool,
    params: ColorMatchParams,
    after: ColorMatchState,
) -> bool {
    let set = before.taking(params);
    if set.due_next() {
        measured_and_applied(
            math,
            ColorMatchState { frames_since_measure: 0, ..set },
            left,
            right,
            lenses,
            size,
            full_range,
            params,
            after,
        )
    } else {
        after == set.ticked()
    }
}

/// The gamma that one camera's samples are brightened by.
pub open spec fn camera_gamma(params: ColorMatchParams, is_right: bool) -> Scalar {
    if is_right {
        params.gamma_right
    } else {
        params.gamma_left
    }
}

impl Default for ColorMatchState {
    fn default() -> (s: ColorMatchState)
        ensures
            s.is_fresh(),
    {
        let zero = Scalar { bits: ZERO };
        let none: [Scalar; 3] = [zero, zero, zero];
        ColorMatchState {
            left_offset: none,
            right_offset: none,
            left_gamma: Scalar { bits: ONE },
            right_gamma: Scalar { bits: ONE },
            frames_since_measure: u32::MAX - 1,
            interval: 1,
        }
    }
}

impl ColorMatchState {
    /// Nothing was measured yet, and the next frame is to be.
    pub open spec fn is_fresh(self) -> bool {
        &&& self.left_offset@ == no_offset()@
        &&& self.right_offset@ == no_offset()@
        &&& self.left_gamma == (Scalar { bits: ONE })
        &&& self.right_gamma == (Scalar { bits: ONE })
        &&& self.frames_since_measure == u32::MAX - 1
        &&& self.interval == 1
    }

    /// A measurement is owed at the next frame.
    pub open spec fn due_next(self) -> bool {
        self.frames_since_measure + 1 >= self.interval || self.frames_since_measure == u32::MAX
    }

    /// The frame after one at which nothing was measured.
    pub open spec fn ticked(self) -> ColorMatchState {
        ColorMatchState {
            frames_since_measure: if self.frames_since_measure == u32::MAX {
                u32::MAX
            } else {
                (self.frames_since_measure + 1) as u32
            },
            ..self
        }
    }

    /// The state as a frame with these parameters finds it: the interval is
    /// theirs, and so are the gammas unless those are to be kept.
    pub open spec fn taking(self, params: ColorMatchParams) -> ColorMatchState {
        ColorMatchState {
            interval: params.measure_interval_frames,
            left_gamma: if params.auto_gamma {
                self.left_gamma
            } else {
                params.gamma_left
            },
            right_gamma: if params.auto_gamma {
                self.right_gamma
            } else {
                params.gamma_right
            },
            ..self
        }
    }

    /// The state after so many frames at which nothing was measured.
    pub open spec fn waited(self, params: ColorMatchParams, frames: nat) -> ColorMatchState
        decreases frames,
    {
        if frames == 0 {
            self
        } else {
            self.waited(params, (frames - 1) as nat).taking(params).ticked()
        }
    }

    /// Where the next frame is to be measured, the limits are in order and the
    /// grid can be counted.
    pub open spec fn can_measure(self, params: ColorMatchParams) -> bool {
        self.taking(params).due_next() ==> params.bounded() && params.grid_fits()
    }

    /// Makes a measurement due at the next frame, whatever the interval.
    pub fn force_remeasure(&mut self)
        ensures
            *final(self) == (ColorMatchState {
                frames_since_measure: (u32::MAX - 1) as u32,
                ..*old(self)
            }),
    {
        self.frames_since_measure = u32::MAX - 1;
    }

    pub fn set_interval(&mut self, interval: u32)
        ensures
            *final(self) == (ColorMatchState { interval, ..*old(self) }),
    {
        self.interval = interval;
    }

    /// The correction in force.
    pub open spec fn spec_current(self) -> ColorCorrection {
        ColorCorrection {
            left_offset: self.left_offset,
            right_offset: self.right_offset,
            left_gamma: self.left_gamma,
            right_gamma: self.right_gamma,
        }
    }

    pub fn current(&self) -> (c: ColorCorrection)
        ensures
            c == self.spec_current(),
    {
        ColorCorrection {
            left_offset: self.left_offset,
            right_offset: self.right_offset,
            left_gamma: self.left_gamma,
            right_gamma: self.right_gamma,
        }
    }

    /// Counts a frame, and says whether a measurement is due. One that is due
    /// stays due until it is issued.
    pub fn measurement_due(&mut self) -> (due: bool)
        ensures
            due == old(self).due_next(),
            *final(self) == old(self).ticked(),
    {
        self.frames_since_measure = self.frames_since_measure.saturating_add(1);
        self.frames_since_measure >= self.interval
    }

    pub fn measurement_issued(&mut self)
        ensures
            *final(self) == (ColorMatchState { frames_since_measure: 0, ..*old(self) }),
    {
        self.frames_since_measure = 0;
    }

    /// Moves the offsets towards what brings both cameras to their common mean.
    pub fn apply_measurement<M: BandMath>(
        &mut self,
        left_mean: [Scalar; 3],
        right_mean: [Scalar; 3],
        params: &ColorMatchParams,
        math: &M,
    )
        requires
            params.bounded(),
        ensures
            applied(*math, *old(self), Some(left_mean), Some(right_mean), *params, *final(self)),
    {
        self.left_offset = moved_offset(
            self.left_offset,
            left_mean,
            right_mean,
            left_mean,
            params,
            math,
        );
        self.right_offset = moved_offset(
            self.right_offset,
            left_mean,
            right_mean,
            right_mean,
            params,
            math,
        );
    }

    /// Counts a frame. Where a measurement is due, asks for it once and applies it; a
    /// camera without samples leaves the correction as it is.
    pub fn tick<M: BandMath, F: FnOnce() -> (Option<[Scalar; 3]>, Option<[Scalar; 3]>)>(
        &mut self,
        params: &ColorMatchParams,
        measure: F,
        math: &M,
    ) -> (c: ColorCorrection)
        requires
            old(self).taking(*params).due_next() ==> params.bounded() && measure.requires(()),
        ensures
            exists|answer: Option<(Option<[Scalar; 3]>, Option<[Scalar; 3]>)>|
                {
                    &&& #[trigger] frame_counted(
                        *math,
                        *old(self),
                        *params,
                        answer,
                        *final(self),
                    )
                    &&& answer matches Some(means) ==> measure.ensures((), means)
                },
            c == final(self).spec_current(),
    {
        self.interval = params.measure_interval_frames;
        if !params.auto_gamma {
            self.left_gamma = params.gamma_left;
            self.right_gamma = params.gamma_right;
        }
        if self.measurement_due() {
            self.measurement_issued();
            let means: (Option<[Scalar; 3]>, Option<[Scalar; 3]>) = measure();
            match means {
                (Some(l), Some(r)) => {
                    self.apply_measurement(l, r, params, math);
                },
                _ => {},
            }
            assert(frame_counted(*math, *old(self), *params, Some(means), *self));
        } else {
            assert(frame_counted(*math, *old(self), *params, None, *self));
        }
        self.current()
    }

    /// One frame of colour matching on two pictures in memory.
    fn update<S: PlaneSampler, M: BandMath>(
        &mut self,
        left: &S,
        right: &S,
        size: (u32, u32),
        lenses: (Lens, Lens),
        full_range: bool,
        params: &ColorMatchParams,
        math: &M,
    ) -> (c: ColorCorrection)
        requires
            old(self).can_measure(*params),
            old(self).taking(*params).due_next() ==> size.0 >= 1 && size.1 >= 1,
        ensures
            frame_matched(
                *math,
                *old(self),
                *left,
                *right,
                lenses,
                size,
                full_range,
                *params,
                *final(self),
            ),
            c == final(self).spec_current(),
    {
        let measure = || -> (means: (Option<[Scalar; 3]>, Option<[Scalar; 3]>))
            requires
                params.grid_fits(),
                size.0 >= 1,
                size.1 >= 1,
            ensures
                band_measured(
                    *math,
                    *left,
                    lenses.0,
                    size,
                    false,
                    full_range,
                    *params,
                    means.0,
                ),
                band_measured(
                    *math,
                    *right,
                    lenses.1,
                    size,
                    true,
                    full_range,
                    *params,
                    means.1,
                ),
            {
                (
                    measure_band_mean(
                        size.0,
                        size.1,
                        lenses.0,
                        false,
                        full_range,
                        params,
                        left,
                        math,
                    ),
                    measure_band_mean(
                        size.0,
                        size.1,
                        lenses.1,
                        true,
                        full_range,
                        params,
                        right,
                        math,
                    ),
                )
            };
        self.tick(params, measure, math)
    }

    /// One frame of two planar pictures of `width` by `height`: where a
    /// measurement is due, measures both and applies it. A camera without
    /// samples leaves the correction as it is.
    pub fn update_yuv420p<M: BandMath>(
        &mut self,
        left: &YuvPlanes<'_>,
        right: &YuvPlanes<'_>,
        width: u32,
        height: u32,
        lenses: (Lens, Lens),
        full_range: bool,
        params: &ColorMatchParams,
        math: &M,
    ) -> (c: ColorCorrection)
        requires
            old(self).can_measure(*params),
            old(self).taking(*params).due_next() ==> width >= 1 && height >= 1,
        ensures
            frame_matched(
                *math,
                *old(self),
                planar(*left, width),
                planar(*right, width),
                lenses,
                (width, height),
                full_range,
                *params,
                *final(self),
            ),
            c == final(self).spec_current(),
    {
        let get_left: Yuv420pSampler<'_> = yuv420p_sampler(left.y, left.u, left.v, width);
        let get_right: Yuv420pSampler<'_> = yuv420p_sampler(right.y, right.u, right.v, width);
        self.update(&get_left, &get_right, (width, height), lenses, full_range, params, math)
    }

    /// The same of two pictures with interleaved chroma.
    pub fn update_nv12<M: BandMath>(
        &mut self,
        left: &Nv12Planes<'_>,
        right: &Nv12Planes<'_>,
        width: u32,
        height: u32,
        lenses: (Lens, Lens),
        full_range: bool,
        params: &ColorMatchParams,
        math: &M,
    ) -> (c: ColorCorrection)
        requires
            old(self).can_measure(*params),
            old(self).taking(*params).due_next() ==> width >= 1 && height >= 1,
        ensures
            frame_matched(
                *math,
                *old(self),
                interleaved(*left, width),
                interleaved(*right, width),
                lenses,
                (width, height),
                full_range,
                *params,
                *final(self),
            ),
            c == final(self).spec_current(),
    {
        let get_left: Nv12Sampler<'_> = nv12_sampler(left.y, left.uv, width);
        let get_right: Nv12Sampler<'_> = nv12_sampler(right.y, right.uv, width);
        self.update(&get_left, &get_right, (width, height), lenses, full_range, params, math)
    }
}

fn moved_offset<M: BandMath>(
    before: [Scalar; 3],
    left_mean: [Scalar; 3],
    right_mean: [Scalar; 3],
    own: [Scalar; 3],
    params: &ColorMatchParams,
    math: &M,
) -> (after: [Scalar; 3])
    requires
        params.bounded(),
    ensures
        offset_moved(*math, before, left_mean, right_mean, own, *params, after),
{
    let wanted: [Scalar; 3] = [
        toward(left_mean[0], right_mean[0], own[0], math),
        toward(left_mean[1], right_mean[1], own[1], math),
        toward(left_mean[2], right_mean[2], own[2], math),
    ];
    let held: [Scalar; 3] = clamp_offset(wanted, params);
    let a: Scalar = params.ema_alpha;
    let after: [Scalar; 3] = [
        ema_toward(before[0], held[0], a, math),
        ema_toward(before[1], held[1], a, math),
        ema_toward(before[2], held[2], a, math),
    ];
    assert forall|i: int| 0 <= i < 3 implies component_moved(
        *math,
        before[i],
        (left_mean[i], right_mean[i]),
        own[i],
        offset_limit(*params, i),
        a,
        #[trigger] after[i],
    ) by {
        assert(i == 0 || i == 1 || i == 2);
        assert(asked(*math, left_mean[i], right_mean[i], own[i], wanted[i]));
        assert(held[i] == held_offset(wanted[i], offset_limit(*params, i)));
        assert(smoothed(*math, before[i], held[i], a, after[i]));
        let means = (left_mean[i], right_mean[i]);
        assert(asked(*math, means.0, means.1, own[i], wanted[i]));
    }
    after
}

/// The mean over one camera's grid: none where no cell of it has a sample.
pub fn measure_band_mean<S: PlaneSampler, M: BandMath>(
    width: u32,
    height: u32,
    lens: Lens,
    is_right: bool,
    full_range: bool,
    params: &ColorMatchParams,
    sampler: &S,
    math: &M,
) -> (mean: Option<[Scalar; 3]>)
    requires
        params.grid_fits(),
        width >= 1,
        height >= 1,
    ensures
        band_measured(
            *math,
            *sampler,
            lens,
            (width, height),
            is_right,
            full_range,
            *params,
            mean,
        ),
{
    let positions: Vec<[u32; 2]> = band_sample_positions(
        width,
        height,
        lens,
        is_right,
        params,
        math,
    );
    let samples: Vec<(u8, u8, u8)> = collect_samples(&positions, sampler);
    if samples.len() == 0 {
        return None;
    }
    let gamma: Scalar = if is_right {
        params.gamma_right
    } else {
        params.gamma_left
    };
    let mean: [Scalar; 3] = math.average(&samples, full_range, inv_gamma_base(gamma));
    Some(mean)
}

/// The mean of samples that came as numbers: none where there are none.
pub fn mean_of_normalized_samples<M: BandMath>(
    samples: &Vec<[Scalar; 4]>,
    full_range: bool,
    gamma: Scalar,
    math: &M,
) -> (mean: Option<[Scalar; 3]>)
    ensures
        normalized_averaged(*math, *samples, full_range, gamma, mean),
{
    if samples.len() == 0 {
        return None;
    }
    Some(math.average_normalized(samples, full_range, inv_gamma_base(gamma)))
}

/// A measurement that is due and not issued is still due at the next frame.
pub proof fn due_measurement_stays_due(state: ColorMatchState)
    requires
        state.due_next(),
    ensures
        state.ticked().due_next(),
{
}

/// A fresh state, and one whose remeasurement was forced, has the next frame
/// measured, at any interval.
pub proof fn forced_remeasure_is_due(state: ColorMatchState, params: ColorMatchParams)
    ensures
        state.is_fresh() ==> state.taking(params).due_next(),
        (ColorMatchState {
            frames_since_measure: (u32::MAX - 1) as u32,
            ..state
        }).taking(params).due_next(),
{
}

/// After so many frames since one that was measured, the next is measured just
/// when the interval is over. Until then the offsets stay as they are.
pub proof fn measured_once_per_interval(
    measured: ColorMatchState,
    params: ColorMatchParams,
    frames: nat,
)
    requires
        measured.frames_since_measure == 0,
    ensures
        measured.waited(params, frames).taking(params).due_next() <==> frames
            >= params.measure_interval_frames - 1,
        measured.waited(params, frames).left_offset == measured.left_offset,
        measured.waited(params, frames).right_offset == measured.right_offset,
{
    count_while_waiting(measured, params, frames);
}

proof fn count_while_waiting(state: ColorMatchState, params: ColorMatchParams, frames: nat)
    ensures
        state.waited(params, frames).frames_since_measure == if state.frames_since_measure + frames
            <= u32::MAX {
            state.frames_since_measure + frames
        } else {
            u32::MAX as int
        },
        state.waited(params, frames).left_offset == state.left_offset,
        state.waited(params, frames).right_offset == state.right_offset,
    decreases frames,
{
    if frames > 0 {
        count_while_waiting(state, params, (frames - 1) as nat);
    }
}

/// Where a state is fresh, its remeasurement was forced, or `frames` frames have passed
/// since one that was measured, the next frame is measured just when it is the first, it
/// was forced, or the interval is over. Where it is not measured, or a camera has no
/// samples, the correction is what it was, with the gammas in force.
pub proof fn frame_is_measured_when_due<M: BandMath>(
    math: M,
    before: ColorMatchState,
    measured: ColorMatchState,
    frames: nat,
    params: ColorMatchParams,
    answer: Option<(Option<[Scalar; 3]>, Option<[Scalar; 3]>)>,
    after: ColorMatchState,
)
    requires
        frame_counted(math, before, params, answer, after),
    ensures
        before.is_fresh() ==> answer is Some,
        before.frames_since_measure == u32::MAX - 1 ==> answer is Some,
        measured.frames_since_measure == 0 && before == measured.waited(params, frames) ==> (
        answer is Some <==> frames >= params.measure_interval_frames - 1),
        answer is Some ==> after.frames_since_measure == 0,
        !(answer matches Some(means) && means.0 is Some && means.1 is Some)
            ==> after.spec_current() == before.taking(params).spec_current(),
{
    if measured.frames_since_measure == 0 {
        measured_once_per_interval(measured, params, frames);
    }
}

/// A frame before the interval is over only waits; one after it is measured, and
/// its own count starts anew. Either way the correction that it gets is the
/// state's own.
pub proof fn frame_waits_or_is_measured<M: BandMath, S: PlaneSampler>(
    math: M,
    measured: ColorMatchState,
    frames: nat,
    left: S,
    right: S,
    lenses: (Lens, Lens),
    size: (u32, u32),
    full_range: bool,
    params: ColorMatchParams,
    after: ColorMatchState,
)
    requires
        measured.frames_since_measure == 0,
        frame_matched(
            math,
            measured.waited(params, frames),
            left,
            right,
            lenses,
            size,
            full_range,
            params,
            after,
        ),
    ensures
        frames < params.measure_interval_frames - 1 ==> after == measured.waited(
            params,
            frames + 1,
        ),
        frames >= params.measure_interval_frames - 1 ==> after.frames_since_measure == 0
            && measured_and_applied(
            math,
            ColorMatchState {
                frames_since_measure: 0,
                ..measured.waited(params, frames).taking(params)
            },
            left,
            right,
            lenses,
            size,
            full_range,
            params,
            after,
        ),
{
    measured_once_per_interval(measured, params, frames);
}

/// How far the offsets may be off: luma has a bound of its own.
#[derive(Clone, Copy, Debug, PartialEq, Eq, Structural)]
pub struct OffsetBounds {
    pub luma: Scalar,
    pub chroma: Scalar,
}

impl OffsetBounds {
    pub open spec fn of(self, i: int) -> Scalar {
        if i == 0 {
            self.luma
        } else {
            self.chroma
        }
    }

    /// The bounds are numbers and not negative.
    pub open spec fn in_order(self) -> bool {
        &&& (Scalar { bits: ZERO }).at_most(self.luma)
        &&& (Scalar { bits: ZERO }).at_most(self.chroma)
    }
}

/// Every component of both offsets is within its bound.
pub open spec fn within_bounds(state: ColorMatchState, bounds: OffsetBounds) -> bool {
    offset_within(state.left_offset, bounds) && offset_within(state.right_offset, bounds)
}

pub open spec fn offset_within(offset: [Scalar; 3], bounds: OffsetBounds) -> bool {
    forall|i: int| 0 <= i < 3 ==> component_within(#[trigger] offset[i], bounds.of(i))
}

pub open spec fn component_within(x: Scalar, bound: Scalar) -> bool {
    bound.spec_negated().at_most(x) && x.at_most(bound)
}

/// Moving an offset within its bound towards one within its limit leaves it within
/// its bound. Where the arithmetic rounds, the bound is to be somewhat above the
/// limit.
pub open spec fn smooths_within<M: BandMath>(
    math: M,
    params: ColorMatchParams,
    bounds: OffsetBounds,
) -> bool {
    forall|i: int, a: Scalar, b: Scalar, x: Scalar|
        {
            &&& 0 <= i < 3
            &&& component_within(a, #[trigger] bounds.of(i))
            &&& component_within(b, offset_limit(params, i))
            &&& #[trigger] smoothed(math, a, b, params.ema_alpha, x)
        } ==> component_within(x, bounds.of(i))
}

/// The offsets that two means ask for are numbers.
pub open spec fn asks_for_numbers<M: BandMath>(
    math: M,
    left: [Scalar; 3],
    right: [Scalar; 3],
) -> bool {
    forall|i: int, own: Scalar, x: Scalar|
        0 <= i < 3 && (own == left[i] || own == right[i]) && #[trigger] asked(
            math,
            left[i],
            right[i],
            own,
            x,
        ) ==> !x.spec_is_nan()
}

/// The sum of the two numbers is at most `slack` of the smallest number above nought.
pub open spec fn opposed(a: Scalar, b: Scalar, slack: int) -> bool {
    -slack <= a.units() + b.units() <= slack
}

/// The right offset takes away what the left one adds, but for the slack.
pub open spec fn opposite(state: ColorMatchState, slack: int) -> bool {
    forall|i: int|
        0 <= i < 3 ==> opposed(#[trigger] state.left_offset[i], state.right_offset[i], slack)
}

/// What two means ask of the one camera is the opposite of what they ask of the
/// other, but for the slack.
pub open spec fn asks_for_opposites<M: BandMath>(
    math: M,
    left: [Scalar; 3],
    right: [Scalar; 3],
    slack: int,
) -> bool {
    forall|i: int, x: Scalar, y: Scalar|
        0 <= i < 3 && #[trigger] asked(math, left[i], right[i], left[i], x)
            && #[trigger] asked(math, left[i], right[i], right[i], y)
            ==> opposed(x, y, slack)
}

/// Offsets that are opposed but for `kept`, moved towards ones within their limit
/// that are opposed but for `asked`, stay opposed but for `kept`.
pub open spec fn smooths_alike<M: BandMath>(
    math: M,
    params: ColorMatchParams,
    bounds: OffsetBounds,
    asked: int,
    kept: int,
) -> bool {
    forall|i: int, a: Scalar, b: Scalar, x: Scalar, c: Scalar, d: Scalar, y: Scalar|
        {
            &&& 0 <= i < 3
            &&& component_within(a, #[trigger] bounds.of(i))
            &&& component_within(c, bounds.of(i))
            &&& component_within(b, offset_limit(params, i))
            &&& component_within(d, offset_limit(params, i))
            &&& opposed(a, c, kept)
            &&& opposed(b, d, asked)
            &&& #[trigger] smoothed(math, a, b, params.ema_alpha, x)
            &&& #[trigger] smoothed(math, c, d, params.ema_alpha, y)
        } ==> opposed(x, y, kept)
}

/// The means of a measurement suit the arithmetic: what they ask for are numbers,
/// and opposites but for the slack.
pub open spec fn means_suit<M: BandMath>(
    math: M,
    means: (Option<[Scalar; 3]>, Option<[Scalar; 3]>),
    slack: int,
) -> bool {
    match means {
        (Some(l), Some(r)) => asks_for_numbers(math, l, r) && asks_for_opposites(math, l, r, slack),
        _ => true,
    }
}

/// The offsets of a fresh state are within any bounds, and opposite.
pub proof fn fresh_offsets_are_within_bounds(state: ColorMatchState, bounds: OffsetBounds)
    requires
        state.is_fresh(),
        bounds.in_order(),
    ensures
        within_bounds(state, bounds),
        opposite(state, 0),
{
    assert(state.left_offset@ == no_offset()@);
    assert(state.right_offset@ == no_offset()@);
    assert forall|i: int| 0 <= i < 3 implies opposed(
        #[trigger] state.left_offset[i],
        state.right_offset[i],
        0,
    ) by {
        assert(state.left_offset[i] == state.left_offset@[i]);
        assert(state.right_offset[i] == state.right_offset@[i]);
        assert((Scalar { bits: ZERO }).units() == 0);
    }
}

/// Two offsets that are opposed but for a slack still are when both are held within
/// a limit.
pub proof fn held_offsets_stay_opposed(x: Scalar, y: Scalar, limit: Scalar, slack: int)
    requires
        (Scalar { bits: ZERO }).at_most(limit),
        !x.spec_is_nan(),
        !y.spec_is_nan(),
        opposed(x, y, slack),
    ensures
        opposed(held_offset(x, limit), held_offset(y, limit), slack),
{
    let low = limit.spec_negated();
    assert(low.units() == -limit.units());
    order_is_that_of_units(low, limit);
    if x.at_most(low) {
        order_is_that_of_units(x, low);
    } else {
        order_is_that_of_units(low, x);
    }
    if x.at_most(limit) {
        order_is_that_of_units(x, limit);
    } else {
        order_is_that_of_units(limit, x);
    }
    if y.at_most(low) {
        order_is_that_of_units(y, low);
    } else {
        order_is_that_of_units(low, y);
    }
    if y.at_most(limit) {
        order_is_that_of_units(y, limit);
    } else {
        order_is_that_of_units(limit, y);
    }
}

/// What was asked of the one component, whose offset was then moved.
proof fn component_asked<M: BandMath>(
    math: M,
    before: [Scalar; 3],
    left: [Scalar; 3],
    right: [Scalar; 3],
    own: [Scalar; 3],
    params: ColorMatchParams,
    after: [Scalar; 3],
    i: int,
) -> (wanted: Scalar)
    requires
        params.bounded(),
        asks_for_numbers(math, left, right),
        own == left || own == right,
        offset_moved(math, before, left, right, own, params, after),
        0 <= i < 3,
    ensures
        asked(math, left[i], right[i], own[i], wanted),
        smoothed(
            math,
            before[i],
            held_offset(wanted, offset_limit(params, i)),
            params.ema_alpha,
            after[i],
        ),
        !wanted.spec_is_nan(),
        component_within(held_offset(wanted, offset_limit(params, i)), offset_limit(params, i)),
{
    let limit = offset_limit(params, i);
    assert(component_moved(
        math,
        before[i],
        (left[i], right[i]),
        own[i],
        limit,
        params.ema_alpha,
        after[i],
    ));
    let wanted = choose|wanted: Scalar|
        {
            &&& #[trigger] asked(math, left[i], right[i], own[i], wanted)
            &&& smoothed(math, before[i], held_offset(wanted, limit), params.ema_alpha, after[i])
        };
    held_offset_is_bounded(wanted, limit);
    wanted
}

/// A measurement keeps the offsets within their bounds, and opposite but for a
/// slack, where the arithmetic of a single step does.
pub proof fn measurement_keeps_offsets_in_bounds<M: BandMath>(
    math: M,
    before: ColorMatchState,
    means: (Option<[Scalar; 3]>, Option<[Scalar; 3]>),
    params: ColorMatchParams,
    bounds: OffsetBounds,
    asked: int,
    kept: int,
    after: ColorMatchState,
)
    requires
        params.bounded(),
        smooths_within(math, params, bounds),
        smooths_alike(math, params, bounds, asked, kept),
        means_suit(math, means, asked),
        applied(math, before, means.0, means.1, params, after),
        within_bounds(before, bounds),
    ensures
        within_bounds(after, bounds),
        opposite(before, kept) ==> opposite(after, kept),
{
    match means {
        (Some(l), Some(r)) => {
            let (a, c) = (before.left_offset, before.right_offset);
            let (x, y) = (after.left_offset, after.right_offset);
            assert forall|i: int| 0 <= i < 3 implies component_within(#[trigger] x[i], bounds.of(i))
                && component_within(y[i], bounds.of(i)) && (opposite(before, kept) ==> opposed(
                x[i],
                y[i],
                kept,
            )) by {
                let limit = offset_limit(params, i);
                let wanted = component_asked(math, a, l, r, l, params, x, i);
                let other = component_asked(math, c, l, r, r, params, y, i);
                assert(component_within(a[i], bounds.of(i)));
                assert(component_within(c[i], bounds.of(i)));
                assert(opposed(wanted, other, asked));
                held_offsets_stay_opposed(wanted, other, limit, asked);
                if opposite(before, kept) {
                    assert(opposed(a[i], c[i], kept));
                }
            }
            assert forall|i: int| 0 <= i < 3 implies component_within(
                #[trigger] y[i],
                bounds.of(i),
            ) by {
                assert(component_within(x[i], bounds.of(i)));
            }
        },
        _ => {},
    }
}

/// However often it is measured, the offsets stay within their bounds, and opposite
/// but for a slack.
pub proof fn offsets_stay_in_bounds<M: BandMath>(
    math: M,
    states: Seq<ColorMatchState>,
    means: Seq<(Option<[Scalar; 3]>, Option<[Scalar; 3]>)>,
    params: ColorMatchParams,
    bounds: OffsetBounds,
    asked: int,
    kept: int,
    n: int,
)
    requires
        params.bounded(),
        smooths_within(math, params, bounds),
        smooths_alike(math, params, bounds, asked, kept),
        states.len() == means.len() + 1,
        within_bounds(states[0], bounds),
        opposite(states[0], kept),
        forall|t: int|
            0 <= t < means.len() ==> applied(
                math,
                states[t],
                (#[trigger] means[t]).0,
                means[t].1,
                params,
                states[t + 1],
            ),
        forall|t: int| 0 <= t < means.len() ==> means_suit(math, #[trigger] means[t], asked),
        0 <= n < states.len(),
    ensures
        within_bounds(states[n], bounds),
        opposite(states[n], kept),
    decreases n,
{
    if n > 0 {
        offsets_stay_in_bounds(math, states, means, params, bounds, asked, kept, n - 1);
        measurement_keeps_offsets_in_bounds(
            math,
            states[n - 1],
            means[n - 1],
            params,
            bounds,
            asked,
            kept,
            states[n],
        );
    }
}

/// Gives the luma and the chroma at a pixel of a picture.
pub trait PlaneSampler {
    spec fn spec_sample(self, x: u32, row: u32) -> Option<(u8, u8, u8)>;

    /// None where a plane ends before the pixel.
    fn sample(&self, x: u32, row: u32) -> (r: Option<(u8, u8, u8)>)
        ensures
            r == self.spec_sample(x, row),
    ;
}

/// Planes of full-resolution luma and half-resolution chroma.
#[derive(Clone, Copy)]
pub struct Yuv420pSampler<'a> {
    pub y: &'a [u8],
    pub u: &'a [u8],
    pub v: &'a [u8],
    pub width: u32,
}

/// Planes of full-resolution luma and interleaved half-resolution chroma.
#[derive(Clone, Copy)]
pub struct Nv12Sampler<'a> {
    pub y: &'a [u8],
    pub uv: &'a [u8],
    pub width: u32,
}

pub open spec fn byte_at(s: Seq<u8>, i: int) -> Option<u8> {
    if 0 <= i < s.len() {
        Some(s[i])
    } else {
        None
    }
}

pub open spec fn all_three(y: Option<u8>, u: Option<u8>, v: Option<u8>) -> Option<(u8, u8, u8)> {
    match (y, u, v) {
        (Some(a), Some(b), Some(c)) => Some((a, b, c)),
        _ => None,
    }
}

fn byte_of(s: &[u8], i: u64) -> (r: Option<u8>)
    ensures
        r == byte_at(s@, i as int),
{
    if i < s.len() as u64 {
        Some(s[i as usize])
    } else {
        None
    }
}

fn plane_index(row: u32, width: u32, col: u32) -> (i: u64)
    ensures
        i == row * width + col,
{
    assert(0 <= row * width <= 0xffff_ffff * 0xffff_ffff) by (nonlinear_arith)
        requires
            0 <= row <= 0xffff_ffff,
            0 <= width <= 0xffff_ffff,
    ;
    row as u64 * width as u64 + col as u64
}

pub fn yuv420p_sampler<'a>(y: &'a [u8], u: &'a [u8], v: &'a [u8], width: u32) -> (s:
    Yuv420pSampler<'a>)
    ensures
        s == (Yuv420pSampler { y, u, v, width }),
{
    Yuv420pSampler { y, u, v, width }
}

/// The sampler of a planar picture.
pub open spec fn planar<'a>(p: YuvPlanes<'a>, width: u32) -> Yuv420pSampler<'a> {
    Yuv420pSampler { y: p.y, u: p.u, v: p.v, width }
}

/// The sampler of a picture with interleaved chroma.
pub open spec fn interleaved<'a>(p: Nv12Planes<'a>, width: u32) -> Nv12Sampler<'a> {
    Nv12Sampler { y: p.y, uv: p.uv, width }
}

pub fn nv12_sampler<'a>(y: &'a [u8], uv: &'a [u8], width: u32) -> (s: Nv12Sampler<'a>)
    ensures
        s == (Nv12Sampler { y, uv, width }),
{
    Nv12Sampler { y, uv, width }
}

impl<'a> Yuv420pSampler<'a> {
    /// The luma at `x`, `row` and the chroma that it shares with its three
    /// neighbours; none where a plane ends before it.
    pub open spec fn at(self, x: u32, row: u32) -> Option<(u8, u8, u8)> {
        let c = (row / 2) * (self.width / 2) + x / 2;
        all_three(
            byte_at(self.y@, row * self.width + x),
            byte_at(self.u@, c),
            byte_at(self.v@, c),
        )
    }
}

impl<'a> PlaneSampler for Yuv420pSampler<'a> {
    open spec fn spec_sample(self, x: u32, row: u32) -> Option<(u8, u8, u8)> {
        self.at(x, row)
    }

    fn sample(&self, x: u32, row: u32) -> (r: Option<(u8, u8, u8)>) {
        let c: u64 = plane_index(row / 2, self.width / 2, x / 2);
        match (
            byte_of(self.y, plane_index(row, self.width, x)),
            byte_of(self.u, c),
            byte_of(self.v, c),
        ) {
            (Some(a), Some(b), Some(d)) => Some((a, b, d)),
            _ => None,
        }
    }
}

impl<'a> Nv12Sampler<'a> {
    /// As of a `Yuv420pSampler`, with the chroma bytes side by side.
    pub open spec fn at(self, x: u32, row: u32) -> Option<(u8, u8, u8)> {
        let c = (row / 2) * self.width + (x / 2) * 2;
        all_three(
            byte_at(self.y@, row * self.width + x),
            byte_at(self.uv@, c),
            byte_at(self.uv@, c + 1),
        )
    }
}

impl<'a> PlaneSampler for Nv12Sampler<'a> {
    open spec fn spec_sample(self, x: u32, row: u32) -> Option<(u8, u8, u8)> {
        self.at(x, row)
    }

    fn sample(&self, x: u32, row: u32) -> (r: Option<(u8, u8, u8)>) {
        assert(0 <= (row / 2) * self.width <= 0x7fff_ffff * 0xffff_ffff) by (nonlinear_arith)
            requires
                0 <= row / 2 <= 0x7fff_ffff,
                0 <= self.width <= 0xffff_ffff,
        ;
        let c: u64 = plane_index(row / 2, self.width, x / 2 * 2);
        match (
            byte_of(self.y, plane_index(row, self.width, x)),
            byte_of(self.uv, c),
            byte_of(self.uv, c + 1),
        ) {
            (Some(a), Some(b), Some(d)) => Some((a, b, d)),
            _ => None,
        }
    }
}

/// Both layouts of one picture give the same sample.
pub proof fn layouts_agree(planar: Yuv420pSampler<'_>, packed: Nv12Sampler<'_>, x: u32, row: u32)
    requires
        planar.width == packed.width,
        planar.width % 2 == 0,
        planar.y@ == packed.y@,
        planar.u@.len() == planar.v@.len(),
        packed.uv@.len() == 2 * planar.u@.len(),
        forall|i: int|
            0 <= i < planar.u@.len() ==> #[trigger] planar.u@[i] == packed.uv@[2 * i]
                && planar.v@[i] == packed.uv@[2 * i + 1],
    ensures
        planar.at(x, row) == packed.at(x, row),
{
    let half = (planar.width / 2) as int;
    let r = (row / 2) as int;
    assert(r * (2 * half) == 2 * (r * half)) by (nonlinear_arith);
    assert(0 <= r * half) by (nonlinear_arith)
        requires
            r >= 0,
            half >= 0,
    ;
}

/// The values among some outcomes, in order.
pub open spec fn values<T>(outcomes: Seq<Option<T>>) -> Seq<T>
    decreases outcomes.len(),
{
    if outcomes.len() == 0 {
        Seq::empty()
    } else {
        match outcomes.last() {
            Some(v) => values(outcomes.drop_last()).push(v),
            None => values(outcomes.drop_last()),
        }
    }
}

/// The samples at some pixels, in order; pixels without a sample are left out.
pub open spec fn samples_at<S: PlaneSampler>(sampler: S, pixels: Seq<Seq<u32>>) -> Seq<
    (u8, u8, u8),
> {
    values(pixels.map_values(|p: Seq<u32>| sampler.spec_sample(p[0], p[1])))
}

/// Positions as sequences of x and y.
pub open spec fn pixels_of(positions: Seq<[u32; 2]>) -> Seq<Seq<u32>> {
    positions.map_values(|p: [u32; 2]| p@)
}

pub fn collect_samples<S: PlaneSampler>(positions: &Vec<[u32; 2]>, sampler: &S) -> (samples: Vec<
    (u8, u8, u8),
>)
    ensures
        samples@ == samples_at(*sampler, pixels_of(positions@)),
{
    let mut samples: Vec<(u8, u8, u8)> = Vec::new();
    let ghost outcomes = pixels_of(positions@).map_values(
        |p: Seq<u32>| sampler.spec_sample(p[0], p[1]),
    );
    let mut i: usize = 0;
    while i < positions.len()
        invariant
            i <= positions@.len(),
            outcomes == pixels_of(positions@).map_values(
                |p: Seq<u32>| sampler.spec_sample(p[0], p[1]),
            ),
            samples@ == values(outcomes.take(i as int)),
        decreases positions@.len() - i,
    {
        let p: [u32; 2] = positions[i];
        let outcome: Option<(u8, u8, u8)> = sampler.sample(p[0], p[1]);
        proof {
            assert(outcomes.take(i + 1).drop_last() =~= outcomes.take(i as int));
        }
        match outcome {
            Some(v) => {
                samples.push(v);
            },
            None => {},
        }
        i += 1;
    }
    assert(outcomes.take(i as int) =~= outcomes);
    samples
}

/// A point of the source picture, rounded down to whole pixels; a coordinate
/// that is not a number is none.
#[derive(Clone, Copy, Debug, PartialEq, Eq, Structural)]
pub struct SourcePoint {
    pub x: Option<i64>,
    pub y: Option<i64>,
}

/// A coordinate before the last pixel of `size`.
pub open spec fn within(coord: Option<i64>, size: u32) -> bool {
    match coord {
        Some(c) => 0 <= c < size - 1,
        None => true,
    }
}

pub open spec fn pixel_of(coord: Option<i64>) -> u32 {
    match coord {
        Some(c) => c as u32,
        None => 0,
    }
}

fn coord_within(coord: Option<i64>, size: u32) -> (r: Option<u32>)
    requires
        size >= 1,
    ensures
        r is Some <==> within(coord, size),
        r matches Some(c) ==> c == pixel_of(coord),
{
    match coord {
        Some(c) => {
            if 0 <= c && c < size as i64 - 1 {
                Some(c as u32)
            } else {
                None
            }
        },
        None => Some(0),
    }
}

/// A grid's size: at least one either way.
pub open spec fn grid_extent(n: u32) -> u32 {
    if n == 0 {
        1
    } else {
        n
    }
}

/// A cell of one camera's grid over the band beside the seam.
#[derive(Clone, Copy, Debug, PartialEq, Eq)]
pub struct BandCell {
    /// Where the band starts and ends across the plane, from nought to one.
    pub band: (Wide, Wide),
    pub row: u32,
    pub col: u32,
    pub rows: u32,
    pub cols: u32,
}

/// The cell in a row and a column.
pub open spec fn band_cell(
    params: ColorMatchParams,
    band: (Wide, Wide),
    row: u32,
    col: u32,
) -> BandCell {
    BandCell {
        band,
        row,
        col,
        rows: grid_extent(params.grid_rows),
        cols: grid_extent(params.grid_cols),
    }
}

/// The pixels that the cells of one camera's grid fall on, row by row. Cells
/// that fall off the picture are left out.
pub fn band_sample_positions<M: BandMath>(
    width: u32,
    height: u32,
    lens: Lens,
    is_right: bool,
    params: &ColorMatchParams,
    math: &M,
) -> (positions: Vec<[u32; 2]>)
    requires
        width >= 1,
        height >= 1,
        params.grid_fits(),
    ensures
        exists|points: Seq<SourcePoint>|
            {
                &&& #[trigger] grid_projected(
                    *math,
                    lens,
                    (width, height),
                    is_right,
                    *params,
                    points,
                )
                &&& pixels_of(positions@) == kept_pixels(points, width, height)
            },
        forall|i: int|
            0 <= i < positions@.len() ==> (#[trigger] positions@[i])[0] < width && positions@[i][1]
                < height,
{
    let cols: u32 = params.grid_cols.max(1);
    let rows: u32 = params.grid_rows.max(1);
    let seam: Wide = if is_fading_plane(is_right, params.blend_flip_direction) {
        math.widen(params.seam_offset)
    } else {
        Wide { bits: WIDE_ZERO }
    };
    let band: (Wide, Wide) = seam_band_bounds(is_right, seam, math.widen(params.band_width), math);
    let mut positions: Vec<[u32; 2]> = Vec::new();
    let ghost mut points: Seq<SourcePoint> = Seq::empty();
    let mut row: u32 = 0;
    while row < rows
        invariant
            width >= 1,
            height >= 1,
            cols == grid_extent(params.grid_cols),
            rows == grid_extent(params.grid_rows),
            row <= rows,
            points.len() == row * cols,
            forall|r: u32, c: u32|
                r < row && c < cols ==> cell_projected(
                        *math,
                        lens,
                        (width, height),
                        #[trigger] band_cell(*params, band, r, c),
                        points[r * cols + c],
                    ),
            pixels_of(positions@) == kept_pixels(points, width, height),
            forall|i: int|
                0 <= i < positions@.len() ==> (#[trigger] positions@[i])[0] < width
                    && positions@[i][1] < height,
        decreases rows - row,
    {
        let mut col: u32 = 0;
        while col < cols
            invariant
                width >= 1,
                height >= 1,
                cols == grid_extent(params.grid_cols),
                rows == grid_extent(params.grid_rows),
                row < rows,
                col <= cols,
                points.len() == row * cols + col,
                forall|r: u32, c: u32|
                    (r < row && c < cols) || (r == row && c < col) ==> cell_projected(
                        *math,
                        lens,
                        (width, height),
                        #[trigger] band_cell(*params, band, r, c),
                        points[r * cols + c],
                    ),
                pixels_of(positions@) == kept_pixels(points, width, height),
                forall|i: int|
                    0 <= i < positions@.len() ==> (#[trigger] positions@[i])[0] < width
                        && positions@[i][1] < height,
            decreases cols - col,
        {
            let cell = BandCell {
                band,
                row,
                col,
                rows,
                cols,
            };
            let point: SourcePoint = project_cell(lens, (width, height), cell, math);
            let ghost before = points;
            proof {
                points = points.push(point);
                assert(points.drop_last() =~= before);
                assert forall|r: u32, c: u32|
                    (r < row && c < cols) || (r == row && c < col + 1) implies cell_projected(
                        *math,
                        lens,
                        (width, height),
                        #[trigger] band_cell(*params, band, r, c),
                        points[r * cols + c],
                    ) by {
                    assert(0 <= r * cols && (r < row ==> r * cols + cols <= row * cols))
                        by (nonlinear_arith)
                        requires
                            r < row ==> r + 1 <= row,
                            r >= 0,
                            cols >= 0,
                    ;
                }
            }
            match (coord_within(point.x, width), coord_within(point.y, height)) {
                (Some(x), Some(y)) => {
                    let pair: [u32; 2] = [x, y];
                    positions.push(pair);
                },
                _ => {},
            }
            col += 1;
        }
        assert((row + 1) * cols == row * cols + cols) by (nonlinear_arith);
        row += 1;
    }
    assert(cells_projected(*math, lens, (width, height), *params, band, points));
    assert(grid_projected(*math, lens, (width, height), is_right, *params, points));
    positions
}

/// The pixels of the points that lie on the picture, in order.
pub open spec fn kept_pixels(points: Seq<SourcePoint>, width: u32, height: u32) -> Seq<Seq<u32>>
    decreases points.len(),
{
    if points.len() == 0 {
        Seq::empty()
    } else {
        let earlier = kept_pixels(points.drop_last(), width, height);
        let p = points.last();
        if within(p.x, width) && within(p.y, height) {
            earlier.push(seq![pixel_of(p.x), pixel_of(p.y)])
        } else {
            earlier
        }
    }
}

} // verus!
