//! What matching the colours comes to: each camera is measured in its own picture and
//! brought towards the other.

use crate::band_gather::GatheredSamples;
use crate::calibration::{Lens, Topology};
use crate::color_match::{
    applied, asked, averaged, band_cell, band_measured, band_sample_positions, banded, camera_gamma,
    cell_projected, cells_projected, column_middle, component_moved, frame_counted, frame_matched,
    grid_extent, grid_projected, held_offset, interleaved, kept_pixels, measured_band,
    normalized_averaged, offset_limit, pixels_of, planar, row_middle, samples_at, seam_band_bounds,
    smoothed, usable_gamma, values, BandMath, ColorCorrection, ColorMatchParams, ColorMatchState,
    PlaneSampler, SourcePoint,
};
use crate::pipeline::StitchPipeline;
use crate::planes::{Nv12Planes, YuvPlanes};
use crate::scalar::{Scalar, Wide};
use vstd::arithmetic::div_mod::lemma_fundamental_div_mod;
use vstd::prelude::*;

verus! {

/// `after` is one component of a camera's offset, moved by a measurement of the two
/// cameras: by `alpha` of the way from `before` to what brings the camera's own mean to
/// the middle of both, held within `limit` either way.
pub open spec fn brought_together<M: BandMath>(
    math: M,
    left: Scalar,
    right: Scalar,
    own: Scalar,
    limit: Scalar,
    alpha: Scalar,
    before: Scalar,
    after: Scalar,
) -> bool {
    exists|
        both: Scalar,
        middle: Scalar,
        wanted: Scalar,
        held: Scalar,
        way: Scalar,
        step: Scalar,
    |
        {
            &&& #[trigger] call_ensures(M::sum, (&math, left, right), both)
            &&& #[trigger] call_ensures(
                M::product,
                (&math, both, Scalar { bits: 0x3f00_0000 }),
                middle,
            )
            &&& #[trigger] call_ensures(M::difference, (&math, middle, own), wanted)
            &&& held == wanted || held == limit || held == limit.spec_negated()
            &&& limit.below(wanted) ==> held == limit
            &&& wanted.below(limit.spec_negated()) ==> held == limit.spec_negated()
            &&& limit.spec_negated().at_most(wanted) && wanted.at_most(limit) ==> held == wanted
            &&& #[trigger] call_ensures(M::difference, (&math, held, before), way)
            &&& #[trigger] call_ensures(M::product, (&math, alpha, way), step)
            &&& call_ensures(M::sum, (&math, before, step), after)
        }
}

/// Both cameras' offsets are moved by the means of two pictures, each towards the other
/// camera: luma within its limit, chroma within its own.
pub open spec fn both_brought_together<M: BandMath>(
    math: M,
    params: ColorMatchParams,
    left_mean: [Scalar; 3],
    right_mean: [Scalar; 3],
    before: ColorMatchState,
    after: ColorMatchState,
) -> bool {
    forall|i: int|
        0 <= i < 3 ==> {
            let limit = if i == 0 {
                params.max_y_offset
            } else {
                params.max_chroma_offset
            };
            &&& brought_together(
                math,
                left_mean[i],
                right_mean[i],
                left_mean[i],
                limit,
                params.ema_alpha,
                before.left_offset[i],
                #[trigger] after.left_offset[i],
            )
            &&& brought_together(
                math,
                left_mean[i],
                right_mean[i],
                right_mean[i],
                limit,
                params.ema_alpha,
                before.right_offset[i],
                after.right_offset[i],
            )
        }
}

proof fn component_is_brought_together<M: BandMath>(
    math: M,
    before: Scalar,
    means: (Scalar, Scalar),
    own: Scalar,
    limit: Scalar,
    alpha: Scalar,
    after: Scalar,
)
    requires
        component_moved(math, before, means, own, limit, alpha, after),
        (Scalar { bits: 0 }).at_most(limit),
    ensures
        brought_together(math, means.0, means.1, own, limit, alpha, before, after),
{
    let wanted = choose|wanted: Scalar|
        {
            &&& #[trigger] asked(math, means.0, means.1, own, wanted)
            &&& smoothed(math, before, held_offset(wanted, limit), alpha, after)
        };
    let held = held_offset(wanted, limit);
    assert(smoothed(math, before, held, alpha, after));
}

pub(crate) proof fn offsets_are_brought_together<M: BandMath>(
    math: M,
    before: ColorMatchState,
    l: [Scalar; 3],
    r: [Scalar; 3],
    params: ColorMatchParams,
    after: ColorMatchState,
)
    requires
        applied(math, before, Some(l), Some(r), params, after),
        params.bounded(),
    ensures
        both_brought_together(math, params, l, r, before, after),
{
    assert forall|i: int| 0 <= i < 3 implies {
        let limit = if i == 0 {
            params.max_y_offset
        } else {
            params.max_chroma_offset
        };
        &&& brought_together(
            math,
            l[i],
            r[i],
            l[i],
            limit,
            params.ema_alpha,
            before.left_offset[i],
            #[trigger] after.left_offset[i],
        )
        &&& brought_together(
            math,
            l[i],
            r[i],
            r[i],
            limit,
            params.ema_alpha,
            before.right_offset[i],
            after.right_offset[i],
        )
    } by {
        let limit = offset_limit(params, i);
        component_is_brought_together(
            math,
            before.left_offset[i],
            (l[i], r[i]),
            l[i],
            limit,
            params.ema_alpha,
            after.left_offset[i],
        );
        assert(component_moved(
            math,
            before.right_offset[i],
            (l[i], r[i]),
            r[i],
            limit,
            params.ema_alpha,
            after.right_offset[i],
        ));
        component_is_brought_together(
            math,
            before.right_offset[i],
            (l[i], r[i]),
            r[i],
            limit,
            params.ema_alpha,
            after.right_offset[i],
        );
    }
}

/// A measurement brings both cameras' offsets towards their common middle.
pub proof fn a_measurement_brings_the_cameras_together<M: BandMath>(math: M)
    ensures
        forall|
            s: &mut ColorMatchState,
            l: [Scalar; 3],
            r: [Scalar; 3],
            params: &ColorMatchParams,
        |
            params.bounded() && #[trigger] call_ensures(
                ColorMatchState::apply_measurement::<M>,
                (s, l, r, params, &math),
                (),
            ) ==> both_brought_together(math, *params, l, r, *s, *final(s)),
{
    assert forall|
        s: &mut ColorMatchState,
        l: [Scalar; 3],
        r: [Scalar; 3],
        params: &ColorMatchParams,
    |
        params.bounded() && #[trigger] call_ensures(
            ColorMatchState::apply_measurement::<M>,
            (s, l, r, params, &math),
            (),
        ) implies both_brought_together(math, *params, l, r, *s, *final(s)) by {
        offsets_are_brought_together(math, *s, l, r, *params, *final(s));
    }
}

/// The arithmetic keeps the order of the numbers of a measurement: the middle of two
/// numbers is between them, a difference is not negative where nothing larger is taken
/// away and not positive where nothing smaller is, a weight keeps the sign, and what is
/// added does not lower a number unless it is negative.
pub open spec fn keeps_order<M: BandMath>(math: M, alpha: Scalar) -> bool {
    let zero = Scalar { bits: 0 };
    let half = Scalar { bits: 0x3f00_0000 };
    &&& forall|a: Scalar, b: Scalar, both: Scalar, middle: Scalar|
        #[trigger] call_ensures(M::sum, (&math, a, b), both) && #[trigger] call_ensures(
            M::product,
            (&math, both, half),
            middle,
        ) ==> {
            &&& a.at_most(b) ==> a.at_most(middle) && middle.at_most(b)
            &&& b.at_most(a) ==> b.at_most(middle) && middle.at_most(a)
        }
    &&& forall|a: Scalar, b: Scalar, x: Scalar| #[trigger]
        call_ensures(M::difference, (&math, a, b), x) ==> {
            &&& b.at_most(a) ==> zero.at_most(x)
            &&& a.at_most(b) ==> x.at_most(zero)
        }
    &&& forall|way: Scalar, step: Scalar| #[trigger]
        call_ensures(M::product, (&math, alpha, way), step) ==> {
            &&& zero.at_most(way) ==> zero.at_most(step)
            &&& way.at_most(zero) ==> step.at_most(zero)
        }
    &&& forall|a: Scalar, step: Scalar, x: Scalar| #[trigger]
        call_ensures(M::sum, (&math, a, step), x) ==> {
            &&& zero.at_most(step) ==> a.at_most(x)
            &&& step.at_most(zero) ==> x.at_most(a)
        }
}

/// Where the left camera measures no more than the right one, its offset is not lowered
/// from nought or below, and the right one's is not raised from nought or above; and the
/// other way round. So the darker camera is brightened and the brighter one darkened,
/// and a visible step at the seam does not grow.
pub proof fn the_darker_camera_is_brightened<M: BandMath>(
    math: M,
    before: ColorMatchState,
    l: [Scalar; 3],
    r: [Scalar; 3],
    params: ColorMatchParams,
    after: ColorMatchState,
    i: int,
)
    requires
        applied(math, before, Some(l), Some(r), params, after),
        params.bounded(),
        keeps_order(math, params.ema_alpha),
        0 <= i < 3,
    ensures
        ({
            let zero = Scalar { bits: 0 };
            &&& l[i].at_most(r[i]) && before.left_offset[i].at_most(zero)
                ==> before.left_offset[i].at_most(after.left_offset[i])
            &&& l[i].at_most(r[i]) && zero.at_most(before.right_offset[i])
                ==> after.right_offset[i].at_most(before.right_offset[i])
            &&& r[i].at_most(l[i]) && zero.at_most(before.left_offset[i])
                ==> after.left_offset[i].at_most(before.left_offset[i])
            &&& r[i].at_most(l[i]) && before.right_offset[i].at_most(zero)
                ==> before.right_offset[i].at_most(after.right_offset[i])
        }),
{
    let zero = Scalar { bits: 0 };
    let limit = offset_limit(params, i);
    assert(component_moved(
        math,
        before.left_offset[i],
        (l[i], r[i]),
        l[i],
        limit,
        params.ema_alpha,
        after.left_offset[i],
    ));
    assert(component_moved(
        math,
        before.right_offset[i],
        (l[i], r[i]),
        r[i],
        limit,
        params.ema_alpha,
        after.right_offset[i],
    ));
    let x = choose|x: Scalar|
        {
            &&& #[trigger] asked(math, l[i], r[i], l[i], x)
            &&& smoothed(
                math,
                before.left_offset[i],
                held_offset(x, limit),
                params.ema_alpha,
                after.left_offset[i],
            )
        };
    let y = choose|y: Scalar|
        {
            &&& #[trigger] asked(math, l[i], r[i], r[i], y)
            &&& smoothed(
                math,
                before.right_offset[i],
                held_offset(y, limit),
                params.ema_alpha,
                after.right_offset[i],
            )
        };
    if l[i].at_most(r[i]) {
        assert(zero.at_most(x));
        assert(y.at_most(zero));
        assert(zero.at_most(held_offset(x, limit)));
        assert(held_offset(y, limit).at_most(zero));
    }
    if r[i].at_most(l[i]) {
        assert(x.at_most(zero));
        assert(zero.at_most(y));
        assert(held_offset(x, limit).at_most(zero));
        assert(zero.at_most(held_offset(y, limit)));
    }
}

/// A sample of a planar picture: the luma of a pixel and the chroma that it shares with
/// its neighbours, each from its own plane.
pub open spec fn is_of_planar(p: YuvPlanes<'_>, width: u32, sample: (u8, u8, u8)) -> bool {
    exists|x: u32, row: u32| #[trigger] shows_planar(p, width, x, row, sample)
}

pub open spec fn shows_planar(
    p: YuvPlanes<'_>,
    width: u32,
    x: u32,
    row: u32,
    sample: (u8, u8, u8),
) -> bool {
    let luma = row * width + x;
    let chroma = (row / 2) * (width / 2) + x / 2;
    &&& 0 <= luma < p.y@.len()
    &&& 0 <= chroma < p.u@.len()
    &&& 0 <= chroma < p.v@.len()
    &&& sample == (p.y@[luma], p.u@[chroma], p.v@[chroma])
}

/// A sample of a picture with interleaved chroma.
pub open spec fn is_of_interleaved(p: Nv12Planes<'_>, width: u32, sample: (u8, u8, u8)) -> bool {
    exists|x: u32, row: u32| #[trigger] shows_interleaved(p, width, x, row, sample)
}

pub open spec fn shows_interleaved(
    p: Nv12Planes<'_>,
    width: u32,
    x: u32,
    row: u32,
    sample: (u8, u8, u8),
) -> bool {
    let luma = row * width + x;
    let chroma = (row / 2) * width + (x / 2) * 2;
    &&& 0 <= luma < p.y@.len()
    &&& 0 <= chroma
    &&& chroma + 1 < p.uv@.len()
    &&& sample == (p.y@[luma], p.uv@[chroma], p.uv@[chroma + 1])
}

proof fn values_are_among<T>(outcomes: Seq<Option<T>>, k: int)
    requires
        0 <= k < values(outcomes).len(),
    ensures
        exists|j: int|
            0 <= j < outcomes.len() && #[trigger] outcomes[j] == Some(values(outcomes)[k]),
    decreases outcomes.len(),
{
    let rest = outcomes.drop_last();
    if outcomes.last() is Some && k == values(outcomes).len() - 1 {
        assert(outcomes[outcomes.len() - 1] == Some(values(outcomes)[k]));
    } else {
        values_are_among(rest, k);
        let j = choose|j: int| 0 <= j < rest.len() && #[trigger] rest[j] == Some(values(rest)[k]);
        assert(outcomes[j] == Some(values(outcomes)[k]));
    }
}

proof fn samples_are_sampled<S: PlaneSampler>(sampler: S, pixels: Seq<Seq<u32>>, k: int)
    requires
        0 <= k < samples_at(sampler, pixels).len(),
    ensures
        exists|x: u32, row: u32|
            #[trigger] sampler.spec_sample(x, row) == Some(samples_at(sampler, pixels)[k]),
{
    let outcomes = pixels.map_values(|p: Seq<u32>| sampler.spec_sample(p[0], p[1]));
    values_are_among(outcomes, k);
    let j = choose|j: int| 0 <= j < outcomes.len() && #[trigger] outcomes[j] == Some(
        values(outcomes)[k],
    );
    assert(sampler.spec_sample(pixels[j][0], pixels[j][1]) == Some(
        samples_at(sampler, pixels)[k],
    ));
}

/// `mean` is one camera's mean, brightened by its gamma where that is a positive number.
pub open spec fn is_mean<M: BandMath>(
    math: M,
    samples: Vec<(u8, u8, u8)>,
    full_range: bool,
    gamma: Scalar,
    mean: [Scalar; 3],
) -> bool {
    samples@.len() > 0 && call_ensures(
        M::average,
        (
            &math,
            &samples,
            full_range,
            if 0 < gamma.bits < 0x7f80_0000 {
                gamma
            } else {
                Scalar { bits: 0x3f80_0000 }
            },
        ),
        mean,
    )
}

/// Both cameras' offsets are moved by the means of some samples of their own.
pub open spec fn moved_by_samples<M: BandMath>(
    math: M,
    left: Vec<(u8, u8, u8)>,
    right: Vec<(u8, u8, u8)>,
    full_range: bool,
    params: ColorMatchParams,
    before: ColorMatchState,
    after: ColorMatchState,
) -> bool {
    exists|l: [Scalar; 3], r: [Scalar; 3]|
        {
            &&& #[trigger] is_mean(math, left, full_range, params.gamma_left, l)
            &&& #[trigger] is_mean(math, right, full_range, params.gamma_right, r)
            &&& both_brought_together(math, params, l, r, before, after)
        }
}

/// The samples are those of one camera's grid, as seen through a lens.
pub open spec fn looked_at<M: BandMath, S: PlaneSampler>(
    math: M,
    picture: S,
    lens: Lens,
    size: (u32, u32),
    is_right: bool,
    params: ColorMatchParams,
    samples: Seq<(u8, u8, u8)>,
) -> bool {
    exists|points: Seq<SourcePoint>|
        {
            &&& #[trigger] grid_projected(math, lens, size, is_right, params, points)
            &&& samples == samples_at(picture, kept_pixels(points, size.0, size.1))
        }
}

/// The offsets are the same.
pub open spec fn same_offsets(a: ColorMatchState, b: ColorMatchState) -> bool {
    a.left_offset == b.left_offset && a.right_offset == b.right_offset
}

/// A frame that moves the offsets does so by samples of the left picture and of the right
/// one.
proof fn frame_is_moved_by_samples<M: BandMath, S: PlaneSampler>(
    math: M,
    before: ColorMatchState,
    left: S,
    right: S,
    lenses: (Lens, Lens),
    size: (u32, u32),
    full_range: bool,
    params: ColorMatchParams,
    after: ColorMatchState,
) -> (samples: (Vec<(u8, u8, u8)>, Vec<(u8, u8, u8)>))
    requires
        frame_matched(math, before, left, right, lenses, size, full_range, params, after),
        before.can_measure(params),
    ensures
        same_offsets(before, after) || {
            &&& before.taking(params).due_next()
            &&& looked_at(math, left, lenses.0, size, false, params, samples.0@)
            &&& looked_at(math, right, lenses.1, size, true, params, samples.1@)
            &&& moved_by_samples(
                math,
                samples.0,
                samples.1,
                full_range,
                params,
                before,
                after,
            )
            &&& forall|k: int|
                0 <= k < samples.0@.len() ==> exists|x: u32, row: u32|
                    left.spec_sample(x, row) == Some(#[trigger] samples.0@[k])
            &&& forall|k: int|
                0 <= k < samples.1@.len() ==> exists|x: u32, row: u32|
                    right.spec_sample(x, row) == Some(#[trigger] samples.1@[k])
        },
{
    let set = before.taking(params);
    let issued = ColorMatchState { frames_since_measure: 0, ..set };
    if set.due_next() {
        let (l, r) = choose|l: Option<[Scalar; 3]>, r: Option<[Scalar; 3]>|
            {
                &&& #[trigger] band_measured(
                    math,
                    left,
                    lenses.0,
                    size,
                    false,
                    full_range,
                    params,
                    l,
                )
                &&& #[trigger] band_measured(
                    math,
                    right,
                    lenses.1,
                    size,
                    true,
                    full_range,
                    params,
                    r,
                )
                &&& applied(math, issued, l, r, params, after)
            };
        match (l, r) {
            (Some(lm), Some(rm)) => {
                let a = choose|points: Seq<SourcePoint>|
                    {
                        &&& #[trigger] grid_projected(math, lenses.0, size, false, params, points)
                        &&& averaged(
                            math,
                            samples_at(left, kept_pixels(points, size.0, size.1)),
                            full_range,
                            camera_gamma(params, false),
                            l,
                        )
                    };
                let b = choose|points: Seq<SourcePoint>|
                    {
                        &&& #[trigger] grid_projected(math, lenses.1, size, true, params, points)
                        &&& averaged(
                            math,
                            samples_at(right, kept_pixels(points, size.0, size.1)),
                            full_range,
                            camera_gamma(params, true),
                            r,
                        )
                    };
                let ls = samples_at(left, kept_pixels(a, size.0, size.1));
                let rs = samples_at(right, kept_pixels(b, size.0, size.1));
                let lv = choose|v: Vec<(u8, u8, u8)>|
                    v@ == ls && #[trigger] call_ensures(
                        M::average,
                        (&math, &v, full_range, usable_gamma(params.gamma_left)),
                        lm,
                    );
                let rv = choose|v: Vec<(u8, u8, u8)>|
                    v@ == rs && #[trigger] call_ensures(
                        M::average,
                        (&math, &v, full_range, usable_gamma(params.gamma_right)),
                        rm,
                    );
                offsets_are_brought_together(math, issued, lm, rm, params, after);
                assert(both_brought_together(math, params, lm, rm, before, after)) by {
                    assert(issued.left_offset == before.left_offset);
                    assert(issued.right_offset == before.right_offset);
                }
                assert(is_mean(math, lv, full_range, params.gamma_left, lm));
                assert(is_mean(math, rv, full_range, params.gamma_right, rm));
                assert forall|k: int| 0 <= k < lv@.len() implies exists|x: u32, row: u32|
                    left.spec_sample(x, row) == Some(#[trigger] lv@[k]) by {
                    samples_are_sampled(left, kept_pixels(a, size.0, size.1), k);
                }
                assert forall|k: int| 0 <= k < rv@.len() implies exists|x: u32, row: u32|
                    right.spec_sample(x, row) == Some(#[trigger] rv@[k]) by {
                    samples_are_sampled(right, kept_pixels(b, size.0, size.1), k);
                }
                assert(looked_at(math, left, lenses.0, size, false, params, lv@));
                assert(looked_at(math, right, lenses.1, size, true, params, rv@));
                (lv, rv)
            },
            _ => arbitrary(),
        }
    } else {
        arbitrary()
    }
}

/// What a pipeline's colours are matched by, out of its own settings.
pub open spec fn are_settings_of(params: ColorMatchParams, p: StitchPipeline) -> bool {
    let t = p.calibration.topology;
    &&& params.band_width == t.color_match_band_width
    &&& params.grid_cols == t.color_match_grid_cols
    &&& params.grid_rows == t.color_match_grid_rows
    &&& params.measure_interval_frames == t.color_match_interval_frames
    &&& params.ema_alpha == t.color_match_ema_alpha
    &&& params.max_y_offset == t.color_match_max_y_offset
    &&& params.max_chroma_offset == t.color_match_max_chroma_offset
    &&& params.seam_offset == t.seam_offset
    &&& params.blend_flip_direction == t.blend_flip_direction
    &&& params.auto_gamma == t.color_match_auto_gamma
    &&& !t.color_match_auto_gamma ==> params.gamma_left == t.color_gamma_left
        && params.gamma_right == t.color_gamma_right
    &&& t.color_match_auto_gamma ==> params.gamma_left == p.color_match.left_gamma
        && params.gamma_right == p.color_match.right_gamma
}

/// A pipeline matches colours by its own settings, each by the one of its name.
pub proof fn matching_goes_by_the_settings(p: StitchPipeline, params: ColorMatchParams)
    requires
        call_ensures(StitchPipeline::color_match_params, (&p,), params),
    ensures
        are_settings_of(params, p),
{
}

/// Planar pictures with matching on: what is corrected by is the matching's own state,
/// and where a frame moves the offsets, it moves the left one by samples of the left
/// picture and the right one by samples of the right picture. With matching off nothing
/// is added, each camera has its set gamma, and nothing changes.
pub proof fn planar_pictures_are_matched_each_by_its_own<M: BandMath>(math: M)
    ensures
        forall|
            p: &mut StitchPipeline,
            left: &YuvPlanes<'_>,
            right: &YuvPlanes<'_>,
            c: ColorCorrection,
        |
            p.can_match() && #[trigger] call_ensures(
                StitchPipeline::color_correction_yuv420p::<M>,
                (p, left, right, &math),
                c,
            ) ==> {
                let t = p.calibration.topology;
                let w = p.renderer.input_width;
                &&& t.color_match_enabled ==> is_state_of(c, *final(p)) && (same_offsets(
                    p.color_match,
                    final(p).color_match,
                ) || exists|ls: Vec<(u8, u8, u8)>, rs: Vec<(u8, u8, u8)>, by: ColorMatchParams|
                    {
                        &&& #[trigger] moved_by_samples(
                            math,
                            ls,
                            rs,
                            p.renderer.is_full_range,
                            by,
                            p.color_match,
                            final(p).color_match,
                        )
                        &&& are_settings_of(by, *p)
                        &&& looked_at(
                            math,
                            planar(*left, w),
                            p.calibration.lenses@[0],
                            (w, p.renderer.input_height),
                            false,
                            by,
                            ls@,
                        )
                        &&& looked_at(
                            math,
                            planar(*right, w),
                            p.calibration.lenses@[1],
                            (w, p.renderer.input_height),
                            true,
                            by,
                            rs@,
                        )
                        &&& forall|k: int|
                            0 <= k < ls@.len() ==> is_of_planar(*left, w, #[trigger] ls@[k])
                        &&& forall|k: int|
                            0 <= k < rs@.len() ==> is_of_planar(*right, w, #[trigger] rs@[k])
                    })
                &&& !t.color_match_enabled ==> is_identity_of(c, t) && *final(p) == *p
            },
{
    assert forall|
        p: &mut StitchPipeline,
        left: &YuvPlanes<'_>,
        right: &YuvPlanes<'_>,
        c: ColorCorrection,
    |
        p.can_match() && #[trigger] call_ensures(
            StitchPipeline::color_correction_yuv420p::<M>,
            (p, left, right, &math),
            c,
        ) implies {
        let t = p.calibration.topology;
        let w = p.renderer.input_width;
        &&& t.color_match_enabled ==> is_state_of(c, *final(p)) && (same_offsets(
            p.color_match,
            final(p).color_match,
        ) || exists|ls: Vec<(u8, u8, u8)>, rs: Vec<(u8, u8, u8)>, by: ColorMatchParams|
            {
                &&& #[trigger] moved_by_samples(
                    math,
                    ls,
                    rs,
                    p.renderer.is_full_range,
                    by,
                    p.color_match,
                    final(p).color_match,
                )
                &&& are_settings_of(by, *p)
                &&& looked_at(
                    math,
                    planar(*left, w),
                    p.calibration.lenses@[0],
                    (w, p.renderer.input_height),
                    false,
                    by,
                    ls@,
                )
                &&& looked_at(
                    math,
                    planar(*right, w),
                    p.calibration.lenses@[1],
                    (w, p.renderer.input_height),
                    true,
                    by,
                    rs@,
                )
                &&& forall|k: int|
                    0 <= k < ls@.len() ==> is_of_planar(*left, w, #[trigger] ls@[k])
                &&& forall|k: int| 0 <= k < rs@.len() ==> is_of_planar(*right, w, #[trigger] rs@[k])
            })
        &&& !t.color_match_enabled ==> is_identity_of(c, t) && *final(p) == *p
    } by {
        let w = p.renderer.input_width;
        if p.calibration.topology.color_match_enabled && !same_offsets(
            p.color_match,
            final(p).color_match,
        ) {
            let (ls, rs) = frame_is_moved_by_samples(
                math,
                p.color_match,
                planar(*left, w),
                planar(*right, w),
                (p.calibration.lenses@[0], p.calibration.lenses@[1]),
                p.input_size(),
                p.renderer.is_full_range,
                p.match_params(),
                final(p).color_match,
            );
            assert forall|k: int| 0 <= k < ls@.len() implies is_of_planar(
                *left,
                w,
                #[trigger] ls@[k],
            ) by {
                let (x, row) = choose|x: u32, row: u32|
                    planar(*left, w).spec_sample(x, row) == Some(ls@[k]);
                index_is_natural(row, w, x);
                assert(shows_planar(*left, w, x, row, ls@[k]));
            }
            assert forall|k: int| 0 <= k < rs@.len() implies is_of_planar(
                *right,
                w,
                #[trigger] rs@[k],
            ) by {
                let (x, row) = choose|x: u32, row: u32|
                    planar(*right, w).spec_sample(x, row) == Some(rs@[k]);
                index_is_natural(row, w, x);
                assert(shows_planar(*right, w, x, row, rs@[k]));
            }
            assert(are_settings_of(p.match_params(), *p));
            assert(p.input_size() == (w, p.renderer.input_height));
        }
    }
}

pub(crate) proof fn index_is_natural(row: u32, width: u32, x: u32)
    ensures
        0 <= row * width + x,
        0 <= (row / 2) * (width / 2) + x / 2,
        0 <= (row / 2) * width + (x / 2) * 2,
{
    assert(0 <= row * width && 0 <= (row / 2) * (width / 2) && 0 <= (row / 2) * width)
        by (nonlinear_arith)
        requires
            row >= 0,
            width >= 0,
            row / 2 >= 0,
            width / 2 >= 0,
    ;
}

/// The correction is what the matching has come to.
pub open spec fn is_state_of(c: ColorCorrection, p: StitchPipeline) -> bool {
    &&& c.left_offset == p.color_match.left_offset
    &&& c.right_offset == p.color_match.right_offset
    &&& c.left_gamma == p.color_match.left_gamma
    &&& c.right_gamma == p.color_match.right_gamma
}

/// The correction adds nothing and has the set gammas.
pub open spec fn is_identity_of(c: ColorCorrection, t: Topology) -> bool {
    let zero = Scalar { bits: 0 };
    &&& c.left_offset@ == seq![zero, zero, zero]
    &&& c.right_offset@ == seq![zero, zero, zero]
    &&& c.left_gamma == t.color_gamma_left
    &&& c.right_gamma == t.color_gamma_right
}

/// The same of pictures with interleaved chroma.
pub proof fn interleaved_pictures_are_matched_each_by_its_own<M: BandMath>(math: M)
    ensures
        forall|
            p: &mut StitchPipeline,
            left: &Nv12Planes<'_>,
            right: &Nv12Planes<'_>,
            c: ColorCorrection,
        |
            p.can_match() && #[trigger] call_ensures(
                StitchPipeline::color_correction_nv12::<M>,
                (p, left, right, &math),
                c,
            ) ==> {
                let t = p.calibration.topology;
                let w = p.renderer.input_width;
                &&& t.color_match_enabled ==> is_state_of(c, *final(p)) && (same_offsets(
                    p.color_match,
                    final(p).color_match,
                ) || exists|ls: Vec<(u8, u8, u8)>, rs: Vec<(u8, u8, u8)>, by: ColorMatchParams|
                    {
                        &&& #[trigger] moved_by_samples(
                            math,
                            ls,
                            rs,
                            p.renderer.is_full_range,
                            by,
                            p.color_match,
                            final(p).color_match,
                        )
                        &&& are_settings_of(by, *p)
                        &&& looked_at(
                            math,
                            interleaved(*left, w),
                            p.calibration.lenses@[0],
                            (w, p.renderer.input_height),
                            false,
                            by,
                            ls@,
                        )
                        &&& looked_at(
                            math,
                            interleaved(*right, w),
                            p.calibration.lenses@[1],
                            (w, p.renderer.input_height),
                            true,
                            by,
                            rs@,
                        )
                        &&& forall|k: int|
                            0 <= k < ls@.len() ==> is_of_interleaved(*left, w, #[trigger] ls@[k])
                        &&& forall|k: int|
                            0 <= k < rs@.len() ==> is_of_interleaved(*right, w, #[trigger] rs@[k])
                    })
                &&& !t.color_match_enabled ==> is_identity_of(c, t) && *final(p) == *p
            },
{
    assert forall|
        p: &mut StitchPipeline,
        left: &Nv12Planes<'_>,
        right: &Nv12Planes<'_>,
        c: ColorCorrection,
    |
        p.can_match() && #[trigger] call_ensures(
            StitchPipeline::color_correction_nv12::<M>,
            (p, left, right, &math),
            c,
        ) implies {
        let t = p.calibration.topology;
        let w = p.renderer.input_width;
        &&& t.color_match_enabled ==> is_state_of(c, *final(p)) && (same_offsets(
            p.color_match,
            final(p).color_match,
        ) || exists|ls: Vec<(u8, u8, u8)>, rs: Vec<(u8, u8, u8)>, by: ColorMatchParams|
            {
                &&& #[trigger] moved_by_samples(
                    math,
                    ls,
                    rs,
                    p.renderer.is_full_range,
                    by,
                    p.color_match,
                    final(p).color_match,
                )
                &&& are_settings_of(by, *p)
                &&& looked_at(
                    math,
                    interleaved(*left, w),
                    p.calibration.lenses@[0],
                    (w, p.renderer.input_height),
                    false,
                    by,
                    ls@,
                )
                &&& looked_at(
                    math,
                    interleaved(*right, w),
                    p.calibration.lenses@[1],
                    (w, p.renderer.input_height),
                    true,
                    by,
                    rs@,
                )
                &&& forall|k: int|
                    0 <= k < ls@.len() ==> is_of_interleaved(*left, w, #[trigger] ls@[k])
                &&& forall|k: int|
                    0 <= k < rs@.len() ==> is_of_interleaved(*right, w, #[trigger] rs@[k])
            })
        &&& !t.color_match_enabled ==> is_identity_of(c, t) && *final(p) == *p
    } by {
        let w = p.renderer.input_width;
        if p.calibration.topology.color_match_enabled && !same_offsets(
            p.color_match,
            final(p).color_match,
        ) {
            let (ls, rs) = frame_is_moved_by_samples(
                math,
                p.color_match,
                interleaved(*left, w),
                interleaved(*right, w),
                (p.calibration.lenses@[0], p.calibration.lenses@[1]),
                p.input_size(),
                p.renderer.is_full_range,
                p.match_params(),
                final(p).color_match,
            );
            assert forall|k: int| 0 <= k < ls@.len() implies is_of_interleaved(
                *left,
                w,
                #[trigger] ls@[k],
            ) by {
                let (x, row) = choose|x: u32, row: u32|
                    interleaved(*left, w).spec_sample(x, row) == Some(ls@[k]);
                index_is_natural(row, w, x);
                assert(shows_interleaved(*left, w, x, row, ls@[k]));
            }
            assert forall|k: int| 0 <= k < rs@.len() implies is_of_interleaved(
                *right,
                w,
                #[trigger] rs@[k],
            ) by {
                let (x, row) = choose|x: u32, row: u32|
                    interleaved(*right, w).spec_sample(x, row) == Some(rs@[k]);
                index_is_natural(row, w, x);
                assert(shows_interleaved(*right, w, x, row, rs@[k]));
            }
            assert(are_settings_of(p.match_params(), *p));
            assert(p.input_size() == (w, p.renderer.input_height));
        }
    }
}

/// A place across a plane, held between its edges.
pub open spec fn held_across(x: Wide, at: Wide) -> bool {
    let zero = Wide { bits: 0 };
    let one = Wide { bits: 0x3ff0_0000_0000_0000 };
    &&& at == x || at == zero || at == one
    &&& x.below(zero) ==> at == zero
    &&& one.below(x) ==> at == one
    &&& !x.below(zero) && !one.below(x) ==> at == x
}

/// The band beside the seam goes from the seam inwards: on the right camera's plane from
/// the left edge on, on the left camera's to the right edge, and never over an edge.
pub proof fn the_band_is_beside_the_seam<M: BandMath>(
    math: M,
    is_right: bool,
    seam: Wide,
    width: Wide,
    band: (Wide, Wide),
)
    requires
        call_ensures(seam_band_bounds::<M>, (is_right, seam, width, &math), band),
    ensures
        is_right ==> held_across(seam, band.0) && exists|end: Wide|
            {
                &&& #[trigger] call_ensures(M::wide_sum, (&math, seam, width), end)
                &&& held_across(end, band.1)
            },
        !is_right ==> exists|edge: Wide, start: Wide|
            {
                &&& #[trigger] call_ensures(
                    M::wide_difference,
                    (&math, Wide { bits: 0x3ff0_0000_0000_0000 }, seam),
                    edge,
                )
                &&& #[trigger] call_ensures(M::wide_difference, (&math, edge, width), start)
                &&& held_across(edge, band.1)
                &&& held_across(start, band.0)
            },
{
}

/// One camera's grid is where its band is. Where the plane does not fade, that does not
/// depend on where the seam was moved to.
pub proof fn a_fixed_plane_ignores_the_seam<M: BandMath>(
    math: M,
    lens: Lens,
    size: (u32, u32),
    is_right: bool,
    a: ColorMatchParams,
    b: ColorMatchParams,
    points: Seq<SourcePoint>,
)
    requires
        is_right == a.blend_flip_direction,
        b == (ColorMatchParams { seam_offset: b.seam_offset, ..a }),
        grid_projected(math, lens, size, is_right, a, points),
    ensures
        grid_projected(math, lens, size, is_right, b, points),
{
    let band = choose|band: (Wide, Wide)|
        {
            &&& measured_band(math, is_right, a, band)
            &&& #[trigger] cells_projected(math, lens, size, a, band, points)
        };
    assert(measured_band(math, is_right, b, band)) by {
        let (seam, width) = choose|seam: Wide, width: Wide|
            {
                &&& if is_right != a.blend_flip_direction {
                    call_ensures(M::widen, (&math, a.seam_offset), seam)
                } else {
                    seam == (Wide { bits: crate::scalar::WIDE_ZERO })
                }
                &&& call_ensures(M::widen, (&math, a.band_width), width)
                &&& #[trigger] banded(math, is_right, seam, width, band)
            };
        assert(banded(math, is_right, seam, width, band));
    }
    assert(cells_projected(math, lens, size, b, band, points)) by {
        let cols = grid_extent(b.grid_cols);
        assert forall|r: u32, c: u32| r < grid_extent(b.grid_rows) && c < cols implies cell_projected(
            math,
            lens,
            size,
            #[trigger] band_cell(b, band, r, c),
            points[r * cols + c],
        ) by {
            assert(band_cell(a, band, r, c) == band_cell(b, band, r, c));
        }
    }
}

/// `x` is the middle of the n-th of so many equal steps from one place to another, on a
/// side of so many pixels.
pub open spec fn is_middle_of_step<M: BandMath>(
    math: M,
    n: u32,
    steps: u32,
    from: Wide,
    to: Wide,
    pixels: u32,
    x: Wide,
) -> bool {
    exists|
        number: Wide,
        middle: Wide,
        all: Wide,
        part: Wide,
        wide: Wide,
        step: Wide,
        at: Wide,
        side: Wide,
    |
        {
            &&& #[trigger] call_ensures(M::wide_whole, (&math, n), number)
            &&& #[trigger] call_ensures(
                M::wide_sum,
                (&math, number, Wide { bits: 0x3fe0_0000_0000_0000 }),
                middle,
            )
            &&& #[trigger] call_ensures(M::wide_whole, (&math, steps), all)
            &&& #[trigger] call_ensures(M::wide_ratio, (&math, middle, all), part)
            &&& #[trigger] call_ensures(M::wide_difference, (&math, to, from), wide)
            &&& #[trigger] call_ensures(M::wide_product, (&math, part, wide), step)
            &&& #[trigger] call_ensures(M::wide_sum, (&math, from, step), at)
            &&& #[trigger] call_ensures(M::wide_whole, (&math, pixels), side)
            &&& call_ensures(M::wide_product, (&math, at, side), x)
        }
}

/// `y` is the middle of the n-th of so many equal steps down the lower half of a side.
pub open spec fn is_middle_of_lower_step<M: BandMath>(
    math: M,
    n: u32,
    steps: u32,
    pixels: u32,
    y: Wide,
) -> bool {
    let half = Wide { bits: 0x3fe0_0000_0000_0000 };
    exists|
        number: Wide,
        middle: Wide,
        all: Wide,
        part: Wide,
        below: Wide,
        at: Wide,
        side: Wide,
    |
        {
            &&& #[trigger] call_ensures(M::wide_whole, (&math, n), number)
            &&& #[trigger] call_ensures(M::wide_sum, (&math, number, half), middle)
            &&& #[trigger] call_ensures(M::wide_whole, (&math, steps), all)
            &&& #[trigger] call_ensures(M::wide_ratio, (&math, middle, all), part)
            &&& #[trigger] call_ensures(M::wide_product, (&math, part, half), below)
            &&& #[trigger] call_ensures(M::wide_sum, (&math, half, below), at)
            &&& #[trigger] call_ensures(M::wide_whole, (&math, pixels), side)
            &&& call_ensures(M::wide_product, (&math, at, side), y)
        }
}

/// The n-th count of a grid's side, which has at least one.
pub open spec fn is_count_of(n: u32, given: u32, all: u32) -> bool {
    &&& n < all
    &&& given > 0 ==> all == given
    &&& given == 0 ==> all == 1
}

/// The lens shows the middle of a cell at `point`: across the band, and down the lower
/// half of the picture, where the ground is.
pub open spec fn shows_cell_at<M: BandMath>(
    math: M,
    lens: Lens,
    size: (u32, u32),
    band: (Wide, Wide),
    params: ColorMatchParams,
    point: SourcePoint,
) -> bool {
    exists|row: u32, rows: u32, col: u32, cols: u32, at: (Wide, Wide)|
        {
            &&& is_count_of(row, params.grid_rows, rows)
            &&& is_count_of(col, params.grid_cols, cols)
            &&& #[trigger] is_middle_of_step(math, col, cols, band.0, band.1, size.0, at.0)
            &&& #[trigger] is_middle_of_lower_step(math, row, rows, size.1, at.1)
            &&& call_ensures(M::project, (&math, &lens, size.0, size.1, at), point)
        }
}

/// The band in which one camera is measured: beside the seam where its plane fades, and
/// beside its own edge where it does not.
pub open spec fn is_band_of<M: BandMath>(
    math: M,
    is_right: bool,
    params: ColorMatchParams,
    band: (Wide, Wide),
) -> bool {
    exists|seam: Wide, width: Wide|
        {
            &&& is_right != params.blend_flip_direction ==> call_ensures(
                M::widen,
                (&math, params.seam_offset),
                seam,
            )
            &&& is_right == params.blend_flip_direction ==> seam == (Wide { bits: 0 })
            &&& call_ensures(M::widen, (&math, params.band_width), width)
            &&& #[trigger] banded(math, is_right, seam, width, band)
        }
}

proof fn every_point_is_a_cell<M: BandMath>(
    math: M,
    lens: Lens,
    size: (u32, u32),
    is_right: bool,
    params: ColorMatchParams,
    points: Seq<SourcePoint>,
) -> (band: (Wide, Wide))
    requires
        grid_projected(math, lens, size, is_right, params, points),
    ensures
        is_band_of(math, is_right, params, band),
        forall|k: int|
            0 <= k < points.len() ==> shows_cell_at(
                math,
                lens,
                size,
                band,
                params,
                #[trigger] points[k],
            ),
{
    let band = choose|band: (Wide, Wide)|
        {
            &&& measured_band(math, is_right, params, band)
            &&& #[trigger] cells_projected(math, lens, size, params, band, points)
        };
    let cols = grid_extent(params.grid_cols);
    let rows = grid_extent(params.grid_rows);
    assert forall|k: int| 0 <= k < points.len() implies shows_cell_at(
        math,
        lens,
        size,
        band,
        params,
        #[trigger] points[k],
    ) by {
        let w = cols as int;
        let r = k / w;
        let c = k % w;
        lemma_fundamental_div_mod(k, w);
        assert(0 <= r < rows && 0 <= c < cols && r * w + c == k) by (nonlinear_arith)
            requires
                w > 0,
                w == cols,
                0 <= k < rows * w,
                k == w * r + c,
                0 <= c < w,
        ;
        let cell = band_cell(params, band, r as u32, c as u32);
        assert(cell_projected(math, lens, size, cell, points[(r as u32) * cols + (c as u32)]));
        let at = choose|at: (Wide, Wide)|
            {
                &&& column_middle(math, cell, size.0, at.0)
                &&& row_middle(math, cell, size.1, at.1)
                &&& #[trigger] call_ensures(
                    M::project,
                    (&math, &lens, size.0, size.1, at),
                    points[k],
                )
            };
        assert(is_middle_of_step(math, c as u32, cols, band.0, band.1, size.0, at.0));
        assert(is_middle_of_lower_step(math, r as u32, rows, size.1, at.1));
    }
    band
}

/// A pixel of the picture, where a coordinate that is no number counts as the first one.
pub open spec fn is_pixel_at(coordinate: Option<i64>, pixel: u32, size: u32) -> bool {
    match coordinate {
        Some(c) => pixel == c && 0 <= c && c < size - 1,
        None => pixel == 0,
    }
}

proof fn kept_are_among(points: Seq<SourcePoint>, width: u32, height: u32, k: int)
    requires
        0 <= k < kept_pixels(points, width, height).len(),
    ensures
        exists|j: int|
            {
                &&& 0 <= j < points.len()
                &&& is_pixel_at(
                    (#[trigger] points[j]).x,
                    kept_pixels(points, width, height)[k][0],
                    width,
                )
                &&& is_pixel_at(points[j].y, kept_pixels(points, width, height)[k][1], height)
            },
    decreases points.len(),
{
    let rest = points.drop_last();
    let kept = kept_pixels(points, width, height);
    let earlier = kept_pixels(rest, width, height);
    if kept.len() > earlier.len() && k == kept.len() - 1 {
        let j = points.len() - 1;
        assert(is_pixel_at(points[j].x, kept[k][0], width));
        assert(is_pixel_at(points[j].y, kept[k][1], height));
    } else {
        kept_are_among(rest, width, height, k);
        let j = choose|j: int|
            {
                &&& 0 <= j < rest.len()
                &&& is_pixel_at((#[trigger] rest[j]).x, earlier[k][0], width)
                &&& is_pixel_at(rest[j].y, earlier[k][1], height)
            };
        assert(points[j] == rest[j]);
    }
}

/// A camera is measured only at pixels of its picture, before the last of a row and of a
/// column, on which the middle of a cell of its own grid falls.
pub proof fn a_camera_is_measured_at_its_grid<M: BandMath>(
    math: M,
    width: u32,
    height: u32,
    lens: Lens,
    is_right: bool,
    params: ColorMatchParams,
    positions: Vec<[u32; 2]>,
) -> (band: (Wide, Wide))
    requires
        call_ensures(
            band_sample_positions::<M>,
            (width, height, lens, is_right, &params, &math),
            positions,
        ),
    ensures
        is_band_of(math, is_right, params, band),
        forall|k: int|
            0 <= k < positions@.len() ==> exists|point: SourcePoint|
                {
                    &&& #[trigger] shows_cell_at(math, lens, (width, height), band, params, point)
                    &&& is_pixel_at(point.x, (#[trigger] positions@[k])[0], width)
                    &&& is_pixel_at(point.y, positions@[k][1], height)
                },
{
    let points = choose|points: Seq<SourcePoint>|
        {
            &&& #[trigger] grid_projected(math, lens, (width, height), is_right, params, points)
            &&& pixels_of(positions@) == kept_pixels(points, width, height)
        };
    let band = every_point_is_a_cell(math, lens, (width, height), is_right, params, points);
    assert forall|k: int| 0 <= k < positions@.len() implies exists|point: SourcePoint|
        {
            &&& #[trigger] shows_cell_at(math, lens, (width, height), band, params, point)
            &&& is_pixel_at(point.x, (#[trigger] positions@[k])[0], width)
            &&& is_pixel_at(point.y, positions@[k][1], height)
        } by {
        kept_are_among(points, width, height, k);
        let kept = kept_pixels(points, width, height);
        let j = choose|j: int|
            {
                &&& 0 <= j < points.len()
                &&& is_pixel_at((#[trigger] points[j]).x, kept[k][0], width)
                &&& is_pixel_at(points[j].y, kept[k][1], height)
            };
        assert(pixels_of(positions@)[k] == positions@[k]@);
        assert(shows_cell_at(math, lens, (width, height), band, params, points[j]));
    }
    band
}

proof fn kept_has_all(points: Seq<SourcePoint>, width: u32, height: u32, j: int)
    requires
        0 <= j < points.len(),
        points[j].x matches Some(c) ==> 0 <= c < width - 1,
        points[j].y matches Some(c) ==> 0 <= c < height - 1,
    ensures
        exists|k: int|
            {
                &&& 0 <= k < kept_pixels(points, width, height).len()
                &&& is_pixel_at(
                    points[j].x,
                    (#[trigger] kept_pixels(points, width, height)[k])[0],
                    width,
                )
                &&& is_pixel_at(points[j].y, kept_pixels(points, width, height)[k][1], height)
            },
    decreases points.len(),
{
    let rest = points.drop_last();
    let kept = kept_pixels(points, width, height);
    let earlier = kept_pixels(rest, width, height);
    if j == points.len() - 1 {
        let k = kept.len() - 1;
        assert(is_pixel_at(points[j].x, kept[k][0], width));
    } else {
        kept_has_all(rest, width, height, j);
        let k = choose|k: int|
            {
                &&& 0 <= k < earlier.len()
                &&& is_pixel_at(rest[j].x, (#[trigger] earlier[k])[0], width)
                &&& is_pixel_at(rest[j].y, earlier[k][1], height)
            };
        assert(kept[k] == earlier[k]);
    }
}

/// No cell is left out that falls on the picture: for every row and column of the grid
/// there is a point where the lens shows its middle, and where that is before the last
/// pixel of a row and of a column, it is among the pixels at which is measured.
pub proof fn no_cell_on_the_picture_is_left_out<M: BandMath>(
    math: M,
    width: u32,
    height: u32,
    lens: Lens,
    is_right: bool,
    params: ColorMatchParams,
    positions: Vec<[u32; 2]>,
    row: u32,
    rows: u32,
    col: u32,
    cols: u32,
) -> (r: ((Wide, Wide), (Wide, Wide), SourcePoint))
    requires
        call_ensures(
            band_sample_positions::<M>,
            (width, height, lens, is_right, &params, &math),
            positions,
        ),
        is_count_of(row, params.grid_rows, rows),
        is_count_of(col, params.grid_cols, cols),
    ensures
        ({
            let (band, at, point) = r;
            &&& is_band_of(math, is_right, params, band)
            &&& is_middle_of_step(math, col, cols, band.0, band.1, width, at.0)
            &&& is_middle_of_lower_step(math, row, rows, height, at.1)
            &&& call_ensures(M::project, (&math, &lens, width, height, at), point)
            &&& (point.x matches Some(c) ==> 0 <= c < width - 1) && (point.y matches Some(c) ==> 0
                <= c < height - 1) ==> exists|k: int|
                {
                    &&& 0 <= k < positions@.len()
                    &&& is_pixel_at(point.x, (#[trigger] positions@[k])[0], width)
                    &&& is_pixel_at(point.y, positions@[k][1], height)
                }
        }),
{
    let size = (width, height);
    let points = choose|points: Seq<SourcePoint>|
        {
            &&& #[trigger] grid_projected(math, lens, size, is_right, params, points)
            &&& pixels_of(positions@) == kept_pixels(points, width, height)
        };
    let band = choose|band: (Wide, Wide)|
        {
            &&& measured_band(math, is_right, params, band)
            &&& #[trigger] cells_projected(math, lens, size, params, band, points)
        };
    let j = row * cols + col;
    assert(0 <= j < rows * cols) by (nonlinear_arith)
        requires
            j == row * cols + col,
            0 <= row,
            row + 1 <= rows,
            0 <= col < cols,
    ;
    let cell = band_cell(params, band, row, col);
    assert(cell_projected(math, lens, size, cell, points[j]));
    let at = choose|at: (Wide, Wide)|
        {
            &&& column_middle(math, cell, size.0, at.0)
            &&& row_middle(math, cell, size.1, at.1)
            &&& #[trigger] call_ensures(M::project, (&math, &lens, size.0, size.1, at), points[j])
        };
    let point = points[j];
    if (point.x matches Some(c) ==> 0 <= c < width - 1) && (point.y matches Some(c) ==> 0 <= c
        < height - 1) {
        kept_has_all(points, width, height, j);
        let kept = kept_pixels(points, width, height);
        let k = choose|k: int|
            {
                &&& 0 <= k < kept.len()
                &&& is_pixel_at(point.x, (#[trigger] kept[k])[0], width)
                &&& is_pixel_at(point.y, kept[k][1], height)
            };
        assert(pixels_of(positions@)[k] == positions@[k]@);
        assert(is_pixel_at(point.x, positions@[k][0], width));
    }
    (band, at, point)
}

/// What was gathered on the device is applied like what is measured in memory: the left
/// camera's samples make the left mean and the right camera's the right one, each
/// brightened by its own gamma, and both cameras are brought together. Where a camera has
/// no samples, nothing changes.
pub proof fn gathered_samples_are_applied_each_to_its_own<M: BandMath>(math: M)
    ensures
        forall|p: &mut StitchPipeline, samples: GatheredSamples|
            (samples.left@.len() > 0 && samples.right@.len() > 0 ==> p.match_params().bounded())
                && #[trigger] call_ensures(
                StitchPipeline::gather_apply::<M>,
                (p, samples, &math),
                (),
            ) ==> {
                &&& samples.left@.len() == 0 || samples.right@.len() == 0 ==> *final(p) == *p
                &&& samples.left@.len() > 0 && samples.right@.len() > 0 ==> exists|
                    by: ColorMatchParams,
                    l: [Scalar; 3],
                    r: [Scalar; 3],
                |
                    {
                        &&& are_settings_of(by, *p)
                        &&& #[trigger] is_normalized_mean(
                            math,
                            samples.left,
                            p.renderer.is_full_range,
                            by.gamma_left,
                            l,
                        )
                        &&& #[trigger] is_normalized_mean(
                            math,
                            samples.right,
                            p.renderer.is_full_range,
                            by.gamma_right,
                            r,
                        )
                        &&& both_brought_together(
                            math,
                            by,
                            l,
                            r,
                            p.color_match,
                            final(p).color_match,
                        )
                    }
            },
{
    assert forall|p: &mut StitchPipeline, samples: GatheredSamples|
        (samples.left@.len() > 0 && samples.right@.len() > 0 ==> p.match_params().bounded())
            && #[trigger] call_ensures(
            StitchPipeline::gather_apply::<M>,
            (p, samples, &math),
            (),
        ) implies {
        &&& samples.left@.len() == 0 || samples.right@.len() == 0 ==> *final(p) == *p
        &&& samples.left@.len() > 0 && samples.right@.len() > 0 ==> exists|
            by: ColorMatchParams,
            l: [Scalar; 3],
            r: [Scalar; 3],
        |
            {
                &&& are_settings_of(by, *p)
                &&& #[trigger] is_normalized_mean(
                    math,
                    samples.left,
                    p.renderer.is_full_range,
                    by.gamma_left,
                    l,
                )
                &&& #[trigger] is_normalized_mean(
                    math,
                    samples.right,
                    p.renderer.is_full_range,
                    by.gamma_right,
                    r,
                )
                &&& both_brought_together(math, by, l, r, p.color_match, final(p).color_match)
            }
    } by {
        let by = p.match_params();
        let full = p.renderer.is_full_range;
        assert(p.samples_applied(samples, math, final(p).color_match));
        let (l, r) = choose|l: Option<[Scalar; 3]>, r: Option<[Scalar; 3]>|
            {
                &&& #[trigger] normalized_averaged(math, samples.left, full, by.gamma_left, l)
                &&& #[trigger] normalized_averaged(math, samples.right, full, by.gamma_right, r)
                &&& applied(math, p.color_match, l, r, by, final(p).color_match)
            };
        match (l, r) {
            (Some(lm), Some(rm)) => {
                offsets_are_brought_together(
                    math,
                    p.color_match,
                    lm,
                    rm,
                    by,
                    final(p).color_match,
                );
                assert(are_settings_of(by, *p));
                assert(is_normalized_mean(math, samples.left, full, by.gamma_left, lm));
                assert(is_normalized_mean(math, samples.right, full, by.gamma_right, rm));
            },
            _ => {},
        }
    }
}

/// `mean` is the mean of samples that are numbers, brightened by a gamma where that is a
/// positive number.
pub open spec fn is_normalized_mean<M: BandMath>(
    math: M,
    samples: Vec<[Scalar; 4]>,
    full_range: bool,
    gamma: Scalar,
    mean: [Scalar; 3],
) -> bool {
    call_ensures(
        M::average_normalized,
        (
            &math,
            &samples,
            full_range,
            if 0 < gamma.bits < 0x7f80_0000 {
                gamma
            } else {
                Scalar { bits: 0x3f80_0000 }
            },
        ),
        mean,
    )
}

/// A picture that is only on the device is corrected by what the matching has come to,
/// with the gammas in force, or where matching is off by the set gammas alone.
pub proof fn a_picture_on_the_device_has_the_correction_in_force(
    p: StitchPipeline,
    c: ColorCorrection,
)
    requires
        call_ensures(StitchPipeline::device_correction, (&p,), c),
    ensures
        !p.calibration.topology.color_match_enabled ==> is_identity_of(c, p.calibration.topology),
        p.calibration.topology.color_match_enabled ==> is_in_force(c, p),
{
}

/// What is shown of the matching is what it has come to.
pub proof fn the_shown_correction_is_the_one_in_force(p: StitchPipeline, c: ColorCorrection)
    requires
        call_ensures(StitchPipeline::color_match_correction, (&p,), c),
    ensures
        is_in_force(c, p),
{
}

pub open spec fn is_in_force(c: ColorCorrection, p: StitchPipeline) -> bool {
    let t = p.calibration.topology;
    &&& c.left_offset == p.color_match.left_offset
    &&& c.right_offset == p.color_match.right_offset
    &&& t.color_match_auto_gamma ==> c.left_gamma == p.color_match.left_gamma && c.right_gamma
        == p.color_match.right_gamma
    &&& !t.color_match_auto_gamma ==> c.left_gamma == t.color_gamma_left && c.right_gamma
        == t.color_gamma_right
}

/// Counting a frame takes over the interval and, unless they are to be found, the gammas. A
/// measurement is asked for once as many frames have passed as the interval says, and moves
/// the cameras together where both were measured; else the offsets stay.
pub proof fn a_counted_frame_is_measured_when_due<
    M: BandMath,
    F: FnOnce() -> (Option<[Scalar; 3]>, Option<[Scalar; 3]>),
>()
    ensures
        forall|
            s: &mut ColorMatchState,
            params: &ColorMatchParams,
            measure: F,
            math: &M,
            c: ColorCorrection,
        | #[trigger]
            call_ensures(ColorMatchState::tick::<M, F>, (s, params, measure, math), c)
                && params.bounded() ==> is_counted(*math, measure, *s, *params, *final(s), c),
{
    assert forall|
        s: &mut ColorMatchState,
        params: &ColorMatchParams,
        measure: F,
        math: &M,
        c: ColorCorrection,
    | #[trigger]
        call_ensures(ColorMatchState::tick::<M, F>, (s, params, measure, math), c)
            && params.bounded() implies is_counted(
        *math,
        measure,
        *s,
        *params,
        *final(s),
        c,
    ) by {
        let answer = choose|answer: Option<(Option<[Scalar; 3]>, Option<[Scalar; 3]>)>|
            {
                &&& #[trigger] frame_counted(*math, *s, *params, answer, *final(s))
                &&& answer matches Some(means) ==> measure.ensures((), means)
            };
        if let Some((Some(l), Some(r))) = answer {
            let issued = ColorMatchState { frames_since_measure: 0, ..s.taking(*params) };
            offsets_are_brought_together(*math, issued, l, r, *params, *final(s));
            assert(both_brought_together(*math, *params, l, r, *s, *final(s))) by {
                assert(issued.left_offset == s.left_offset);
                assert(issued.right_offset == s.right_offset);
            }
        }
        if let Some(means) = answer {
            assert(is_applied_answer(*math, means, *params, *s, *final(s)));
        }
    }
}

/// The offsets are moved by two means, and stay where a camera was not measured.
pub open spec fn is_applied_answer<M: BandMath>(
    math: M,
    means: (Option<[Scalar; 3]>, Option<[Scalar; 3]>),
    params: ColorMatchParams,
    before: ColorMatchState,
    after: ColorMatchState,
) -> bool {
    match means {
        (Some(l), Some(r)) => both_brought_together(math, params, l, r, before, after),
        _ => after.left_offset == before.left_offset && after.right_offset == before.right_offset,
    }
}

pub open spec fn is_counted<
    M: BandMath,
    F: FnOnce() -> (Option<[Scalar; 3]>, Option<[Scalar; 3]>),
>(
    math: M,
    measure: F,
    before: ColorMatchState,
    params: ColorMatchParams,
    after: ColorMatchState,
    c: ColorCorrection,
) -> bool {
    let due = before.frames_since_measure == u32::MAX || before.frames_since_measure + 1
        >= params.measure_interval_frames;
    &&& after.interval == params.measure_interval_frames
    &&& !params.auto_gamma ==> after.left_gamma == params.gamma_left && after.right_gamma
        == params.gamma_right
    &&& params.auto_gamma ==> after.left_gamma == before.left_gamma && after.right_gamma
        == before.right_gamma
    &&& due ==> after.frames_since_measure == 0 && exists|
        means: (Option<[Scalar; 3]>, Option<[Scalar; 3]>),
    |
        measure.ensures((), means) && #[trigger] is_applied_answer(
            math,
            means,
            params,
            before,
            after,
        )
    &&& !due ==> after.frames_since_measure == before.frames_since_measure + 1
        && after.left_offset == before.left_offset && after.right_offset == before.right_offset
    &&& c.left_offset == after.left_offset
    &&& c.right_offset == after.right_offset
    &&& c.left_gamma == after.left_gamma
    &&& c.right_gamma == after.right_gamma
}

/// What a state shows is its own offsets and gammas, each as those of its own camera, and a
/// new state shows none and is due.
pub proof fn a_state_shows_its_own(s: ColorMatchState, c: ColorCorrection, new: ColorMatchState)
    requires
        call_ensures(ColorMatchState::current, (&s,), c),
        call_ensures(ColorMatchState::default, (), new),
    ensures
        c.left_offset == s.left_offset,
        c.right_offset == s.right_offset,
        c.left_gamma == s.left_gamma,
        c.right_gamma == s.right_gamma,
        forall|i: int| 0 <= i < 3 ==> #[trigger] new.left_offset[i] == (Scalar { bits: 0 }),
        forall|i: int| 0 <= i < 3 ==> #[trigger] new.right_offset[i] == (Scalar { bits: 0 }),
        new.left_gamma == (Scalar { bits: 0x3f80_0000 }),
        new.right_gamma == (Scalar { bits: 0x3f80_0000 }),
        new.frames_since_measure + 1 >= new.interval,
{
    assert(forall|i: int| 0 <= i < 3 ==> #[trigger] new.left_offset[i] == new.left_offset@[i]);
    assert(forall|i: int| 0 <= i < 3 ==> #[trigger] new.right_offset[i] == new.right_offset@[i]);
}

} // verus!
