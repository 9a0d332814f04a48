//! Which pixels are measured, when, and on the device as well as in memory.

use crate::band_gather::{
    BandGather, GatheredSamples, MapPoll, PositionKey, PositionUpload, Readback,
};
use crate::bytes::encodes;
use crate::calibration::Lens;
use crate::color_match::{
    collect_samples, frame_matched, grid_projected, interleaved, kept_pixels, nv12_sampler,
    pixels_of, planar, samples_at, usable_gamma, values, yuv420p_sampler, BandMath,
    ColorCorrection, ColorMatchParams, ColorMatchState, Nv12Sampler, PlaneSampler, SourcePoint,
    Yuv420pSampler,
};
use crate::match_laws::{
    are_settings_of, both_brought_together, is_mean, is_normalized_mean, looked_at,
    moved_by_samples, same_offsets,
};
use crate::pipeline::{turned_pixels, GatherNext, StitchPipeline};
use crate::plane_laws::are_words_of;
use crate::planes::{Nv12Planes, YuvPlanes};
use crate::scalar::Scalar;
use vstd::prelude::*;

verus! {

/// A planar picture is sampled wherever all of its planes reach: luma at the pixel, chroma at
/// half its row and half its column.
pub proof fn a_planar_picture_is_sampled_at_the_pixel(
    y: &[u8],
    u: &[u8],
    v: &[u8],
    width: u32,
    x: u32,
    row: u32,
    s: Yuv420pSampler<'_>,
    r: Option<(u8, u8, u8)>,
)
    requires
        call_ensures(yuv420p_sampler, (y, u, v, width), s),
        call_ensures(Yuv420pSampler::sample, (&s, x, row), r),
    ensures
        ({
            let luma = row * width + x;
            let chroma = (row / 2) * (width / 2) + x / 2;
            &&& r is Some <==> luma < y@.len() && chroma < u@.len() && chroma < v@.len()
            &&& r is Some ==> r == Some((y@[luma], u@[chroma], v@[chroma]))
        }),
{
    crate::match_laws::index_is_natural(row, width, x);
}

/// The same where blue and red chroma are side by side.
pub proof fn an_interleaved_picture_is_sampled_at_the_pixel(
    y: &[u8],
    uv: &[u8],
    width: u32,
    x: u32,
    row: u32,
    s: Nv12Sampler<'_>,
    r: Option<(u8, u8, u8)>,
)
    requires
        call_ensures(nv12_sampler, (y, uv, width), s),
        call_ensures(Nv12Sampler::sample, (&s, x, row), r),
    ensures
        ({
            let luma = row * width + x;
            let chroma = (row / 2) * width + (x / 2) * 2;
            &&& r is Some <==> luma < y@.len() && chroma + 1 < uv@.len()
            &&& r is Some ==> r == Some((y@[luma], uv@[chroma], uv@[chroma + 1]))
        }),
{
    crate::match_laws::index_is_natural(row, width, x);
}

/// Samples are collected position by position, in order: one position more adds the sample
/// at it, or nothing where the picture has none there.
pub proof fn samples_are_collected_in_order<S: PlaneSampler>(
    picture: S,
    positions: Vec<[u32; 2]>,
    more: Vec<[u32; 2]>,
    next: [u32; 2],
    a: Vec<(u8, u8, u8)>,
    b: Vec<(u8, u8, u8)>,
    at: Option<(u8, u8, u8)>,
)
    requires
        more@ == positions@.push(next),
        call_ensures(collect_samples::<S>, (&positions, &picture), a),
        call_ensures(collect_samples::<S>, (&more, &picture), b),
        call_ensures(S::sample, (&picture, next[0], next[1]), at),
    ensures
        positions@.len() == 0 ==> a@.len() == 0,
        at matches Some(v) ==> b@ == a@.push(v),
        at is None ==> b@ == a@,
{
    let shorter = pixels_of(positions@).map_values(
        |p: Seq<u32>| picture.spec_sample(p[0], p[1]),
    );
    let longer = pixels_of(more@).map_values(|p: Seq<u32>| picture.spec_sample(p[0], p[1]));
    assert(longer.drop_last() =~= shorter);
    assert(next@[0] == next[0] && next@[1] == next[1]);
    assert(longer.last() == at);
    assert(values(longer) == match at {
        Some(v) => values(shorter).push(v),
        None => values(shorter),
    });
}

/// The two cameras were measured by some samples, each of its own picture and through its own
/// lens; the offsets stay where a camera has no samples.
pub open spec fn measured_with<M: BandMath, S: PlaneSampler>(
    math: M,
    left: S,
    right: S,
    p: StitchPipeline,
    by: ColorMatchParams,
    ls: Seq<(u8, u8, u8)>,
    rs: Seq<(u8, u8, u8)>,
    after: ColorMatchState,
) -> bool {
    let size = (p.renderer.input_width, p.renderer.input_height);
    &&& are_settings_of(by, p)
    &&& looked_at(math, left, p.calibration.lenses@[0], size, false, by, ls)
    &&& looked_at(math, right, p.calibration.lenses@[1], size, true, by, rs)
    &&& ls.len() == 0 || rs.len() == 0 ==> same_offsets(p.color_match, after)
    &&& ls.len() > 0 && rs.len() > 0 ==> exists|lv: Vec<(u8, u8, u8)>, rv: Vec<(u8, u8, u8)>|
        {
            &&& lv@ == ls
            &&& rv@ == rs
            &&& #[trigger] moved_by_samples(
                math,
                lv,
                rv,
                p.renderer.is_full_range,
                by,
                p.color_match,
                after,
            )
        }
}

/// A frame is counted, and measured where as many have passed as the interval says.
pub open spec fn is_matched_frame<M: BandMath, S: PlaneSampler>(
    math: M,
    left: S,
    right: S,
    p: StitchPipeline,
    after: ColorMatchState,
) -> bool {
    let t = p.calibration.topology;
    let n = p.color_match.frames_since_measure;
    let due = n == u32::MAX || n + 1 >= t.color_match_interval_frames;
    &&& after.interval == t.color_match_interval_frames
    &&& !t.color_match_auto_gamma ==> after.left_gamma == t.color_gamma_left && after.right_gamma
        == t.color_gamma_right
    &&& t.color_match_auto_gamma ==> after.left_gamma == p.color_match.left_gamma
        && after.right_gamma == p.color_match.right_gamma
    &&& !due ==> same_offsets(p.color_match, after) && after.frames_since_measure == n + 1
    &&& due ==> after.frames_since_measure == 0 && exists|
        by: ColorMatchParams,
        ls: Seq<(u8, u8, u8)>,
        rs: Seq<(u8, u8, u8)>,
    | #[trigger] measured_with(math, left, right, p, by, ls, rs, after)
}

proof fn frame_is_matched<M: BandMath, S: PlaneSampler>(
    math: M,
    left: S,
    right: S,
    p: StitchPipeline,
    after: ColorMatchState,
)
    requires
        frame_matched(
            math,
            p.color_match,
            left,
            right,
            (p.calibration.lenses@[0], p.calibration.lenses@[1]),
            (p.renderer.input_width, p.renderer.input_height),
            p.renderer.is_full_range,
            p.match_params(),
            after,
        ),
        p.color_match.can_measure(p.match_params()),
    ensures
        is_matched_frame(math, left, right, p, after),
{
    let by = p.match_params();
    let before = p.color_match;
    let set = before.taking(by);
    let size = (p.renderer.input_width, p.renderer.input_height);
    let full_range = p.renderer.is_full_range;
    if set.due_next() {
        let issued = ColorMatchState { frames_since_measure: 0, ..set };
        let (l, r) = choose|l: Option<[Scalar; 3]>, r: Option<[Scalar; 3]>|
            {
                &&& #[trigger] crate::color_match::band_measured(
                    math,
                    left,
                    p.calibration.lenses@[0],
                    size,
                    false,
                    full_range,
                    by,
                    l,
                )
                &&& #[trigger] crate::color_match::band_measured(
                    math,
                    right,
                    p.calibration.lenses@[1],
                    size,
                    true,
                    full_range,
                    by,
                    r,
                )
                &&& crate::color_match::applied(math, issued, l, r, by, after)
            };
        let a = choose|points: Seq<SourcePoint>|
            {
                &&& #[trigger] grid_projected(
                    math,
                    p.calibration.lenses@[0],
                    size,
                    false,
                    by,
                    points,
                )
                &&& crate::color_match::averaged(
                    math,
                    samples_at(left, kept_pixels(points, size.0, size.1)),
                    full_range,
                    by.gamma_left,
                    l,
                )
            };
        let b = choose|points: Seq<SourcePoint>|
            {
                &&& #[trigger] grid_projected(
                    math,
                    p.calibration.lenses@[1],
                    size,
                    true,
                    by,
                    points,
                )
                &&& crate::color_match::averaged(
                    math,
                    samples_at(right, kept_pixels(points, size.0, size.1)),
                    full_range,
                    by.gamma_right,
                    r,
                )
            };
        let ls = samples_at(left, kept_pixels(a, size.0, size.1));
        let rs = samples_at(right, kept_pixels(b, size.0, size.1));
        if let (Some(lm), Some(rm)) = (l, r) {
            let lv = choose|v: Vec<(u8, u8, u8)>|
                v@ == ls && #[trigger] call_ensures(
                    M::average,
                    (&math, &v, full_range, usable_gamma(by.gamma_left)),
                    lm,
                );
            let rv = choose|v: Vec<(u8, u8, u8)>|
                v@ == rs && #[trigger] call_ensures(
                    M::average,
                    (&math, &v, full_range, usable_gamma(by.gamma_right)),
                    rm,
                );
            crate::match_laws::offsets_are_brought_together(math, issued, lm, rm, by, after);
            assert(both_brought_together(math, by, lm, rm, before, after)) by {
                assert(issued.left_offset == before.left_offset);
                assert(issued.right_offset == before.right_offset);
            }
            assert(is_mean(math, lv, full_range, by.gamma_left, lm));
            assert(is_mean(math, rv, full_range, by.gamma_right, rm));
            assert(moved_by_samples(math, lv, rv, full_range, by, before, after));
        }
        assert(are_settings_of(by, p));
        assert(measured_with(math, left, right, p, by, ls, rs, after));
    }
}

/// With matching on, every pair of planar pictures is counted, and measured when it is due.
pub proof fn planar_pictures_are_measured_when_due<M: BandMath>(math: M)
    ensures
        forall|
            p: &mut StitchPipeline,
            left: &YuvPlanes<'_>,
            right: &YuvPlanes<'_>,
            c: ColorCorrection,
        |
            p.can_match() && p.calibration.topology.color_match_enabled
                && #[trigger] call_ensures(
                StitchPipeline::color_correction_yuv420p::<M>,
                (p, left, right, &math),
                c,
            ) ==> is_matched_frame(
                math,
                planar(*left, p.renderer.input_width),
                planar(*right, p.renderer.input_width),
                *p,
                final(p).color_match,
            ),
{
    assert forall|
        p: &mut StitchPipeline,
        left: &YuvPlanes<'_>,
        right: &YuvPlanes<'_>,
        c: ColorCorrection,
    |
        p.can_match() && p.calibration.topology.color_match_enabled && #[trigger] call_ensures(
            StitchPipeline::color_correction_yuv420p::<M>,
            (p, left, right, &math),
            c,
        ) implies is_matched_frame(
        math,
        planar(*left, p.renderer.input_width),
        planar(*right, p.renderer.input_width),
        *p,
        final(p).color_match,
    ) by {
        frame_is_matched(
            math,
            planar(*left, p.renderer.input_width),
            planar(*right, p.renderer.input_width),
            *p,
            final(p).color_match,
        );
    }
}

/// The same of pictures with interleaved chroma.
pub proof fn interleaved_pictures_are_measured_when_due<M: BandMath>(math: M)
    ensures
        forall|
            p: &mut StitchPipeline,
            left: &Nv12Planes<'_>,
            right: &Nv12Planes<'_>,
            c: ColorCorrection,
        |
            p.can_match() && p.calibration.topology.color_match_enabled
                && #[trigger] call_ensures(
                StitchPipeline::color_correction_nv12::<M>,
                (p, left, right, &math),
                c,
            ) ==> is_matched_frame(
                math,
                interleaved(*left, p.renderer.input_width),
                interleaved(*right, p.renderer.input_width),
                *p,
                final(p).color_match,
            ),
{
    assert forall|
        p: &mut StitchPipeline,
        left: &Nv12Planes<'_>,
        right: &Nv12Planes<'_>,
        c: ColorCorrection,
    |
        p.can_match() && p.calibration.topology.color_match_enabled && #[trigger] call_ensures(
            StitchPipeline::color_correction_nv12::<M>,
            (p, left, right, &math),
            c,
        ) implies is_matched_frame(
        math,
        interleaved(*left, p.renderer.input_width),
        interleaved(*right, p.renderer.input_width),
        *p,
        final(p).color_match,
    ) by {
        frame_is_matched(
            math,
            interleaved(*left, p.renderer.input_width),
            interleaved(*right, p.renderer.input_width),
            *p,
            final(p).color_match,
        );
    }
}

/// The positions are those of one camera's grid on its picture, as seen through its lens, and
/// counted from the opposite corner where the picture is turned.
pub open spec fn are_gathered_at<M: BandMath>(
    math: M,
    lens: Lens,
    size: (u32, u32),
    is_right: bool,
    by: ColorMatchParams,
    turned: bool,
    points: Seq<SourcePoint>,
    positions: Seq<[u32; 2]>,
) -> bool {
    let pixels = kept_pixels(points, size.0, size.1);
    &&& grid_projected(math, lens, size, is_right, by, points)
    &&& positions.len() == pixels.len()
    &&& forall|k: int|
        0 <= k < positions.len() ==> {
            &&& !turned ==> (#[trigger] positions[k])[0] == pixels[k][0] && positions[k][1]
                == pixels[k][1]
            &&& turned && pixels[k][0] < size.0 ==> positions[k][0] + pixels[k][0] + 1 == size.0
            &&& turned && pixels[k][1] < size.1 ==> positions[k][1] + pixels[k][1] + 1 == size.1
        }
}

proof fn own_positions<M: BandMath>(
    math: M,
    p: StitchPipeline,
    is_right: bool,
    positions: Seq<[u32; 2]>,
) -> (points: Seq<SourcePoint>)
    requires
        p.to_gather(is_right, math, positions),
    ensures
        are_gathered_at(
            math,
            p.calibration.lenses@[if is_right {
                1
            } else {
                0
            }],
            (p.renderer.input_width, p.renderer.input_height),
            is_right,
            p.match_params(),
            if is_right {
                p.renderer.flip_180.1
            } else {
                p.renderer.flip_180.0
            },
            points,
            positions,
        ),
{
    let size = p.input_size();
    let points = choose|points: Seq<SourcePoint>|
        {
            &&& #[trigger] grid_projected(
                math,
                p.gathered_lens(is_right),
                size,
                is_right,
                p.match_params(),
                points,
            )
            &&& pixels_of(positions) == if p.turned(is_right) {
                turned_pixels(kept_pixels(points, size.0, size.1), size)
            } else {
                kept_pixels(points, size.0, size.1)
            }
        };
    let pixels = kept_pixels(points, size.0, size.1);
    assert(pixels_of(positions).len() == positions.len());
    assert forall|k: int| 0 <= k < positions.len() implies {
        &&& !p.turned(is_right) ==> (#[trigger] positions[k])[0] == pixels[k][0] && positions[k][1]
            == pixels[k][1]
        &&& p.turned(is_right) && pixels[k][0] < size.0 ==> positions[k][0] + pixels[k][0] + 1
            == size.0
        &&& p.turned(is_right) && pixels[k][1] < size.1 ==> positions[k][1] + pixels[k][1] + 1
            == size.1
    } by {
        assert(pixels_of(positions)[k] == positions[k]@);
        assert(positions[k]@[0] == positions[k][0] && positions[k]@[1] == positions[k][1]);
    }
    points
}

/// What the device is to read of one camera: its positions in words, and how many of them,
/// from a place on.
pub open spec fn is_read_at(
    positions: Seq<[u32; 2]>,
    start: u32,
    count: u32,
    coords: Seq<u8>,
    params: Seq<u8>,
) -> bool {
    &&& count == if positions.len() <= 2048 {
        positions.len()
    } else {
        2048
    }
    &&& encodes(seq![start, count, 0u32, 0u32], params)
    &&& exists|words: Seq<u32>| #[trigger] encodes(words, coords) && are_words_of(words, positions)
}

/// Each camera is gathered at the grid of its own lens, turned as its own picture is.
pub proof fn each_camera_is_gathered_at_its_own_grid<M: BandMath>(math: M)
    ensures
        forall|p: &mut StitchPipeline, key: PositionKey, u: PositionUpload|
            p.band_gather is Some && #[trigger] call_ensures(
                StitchPipeline::gather_upload::<M>,
                (p, key, &math),
                u,
            ) ==> is_gathered_for(math, *p, key, *final(p), u),
{
    assert forall|p: &mut StitchPipeline, key: PositionKey, u: PositionUpload|
        p.band_gather is Some && #[trigger] call_ensures(
            StitchPipeline::gather_upload::<M>,
            (p, key, &math),
            u,
        ) implies is_gathered_for(math, *p, key, *final(p), u) by {
        let (left, right) = choose|left: Seq<[u32; 2]>, right: Seq<[u32; 2]>|
            {
                &&& #[trigger] p.to_gather(false, math, left)
                &&& #[trigger] p.to_gather(true, math, right)
                &&& final(p).band_gather == Some(
                    BandGather {
                        left_count: crate::band_gather::kept(left).len() as u32,
                        right_count: crate::band_gather::kept(right).len() as u32,
                        uploaded_for: Some(key),
                        ..p.band_gather->0
                    },
                )
                &&& encodes(
                    crate::band_gather::position_words(crate::band_gather::kept(left)),
                    u.left_coords@,
                )
                &&& encodes(
                    crate::band_gather::position_words(crate::band_gather::kept(right)),
                    u.right_coords@,
                )
                &&& encodes(
                    seq![0u32, crate::band_gather::kept(left).len() as u32, 0u32, 0u32],
                    u.left_params@,
                )
                &&& encodes(
                    seq![
                        crate::band_gather::MAX_SAMPLES_PER_CAMERA,
                        crate::band_gather::kept(right).len() as u32,
                        0u32,
                        0u32,
                    ],
                    u.right_params@,
                )
            };
        let a = own_positions(math, *p, false, left);
        let b = own_positions(math, *p, true, right);
        crate::plane_laws::position_words_are_words(left);
        crate::plane_laws::position_words_are_words(right);
        assert(are_settings_of(p.match_params(), *p));
        let g = final(p).band_gather->0;
        assert(is_read_at(left, 0, g.left_count, u.left_coords@, u.left_params@));
        assert(is_read_at(right, 2048, g.right_count, u.right_coords@, u.right_params@));
    }
}

pub open spec fn is_gathered_for<M: BandMath>(
    math: M,
    p: StitchPipeline,
    key: PositionKey,
    after: StitchPipeline,
    u: PositionUpload,
) -> bool {
    let size = (p.renderer.input_width, p.renderer.input_height);
    &&& after.band_gather matches Some(g) && g.uploaded_for == Some(key) && g.state
        == p.band_gather->0.state
    &&& after.color_match == p.color_match
    &&& exists|
        by: ColorMatchParams,
        a: Seq<SourcePoint>,
        b: Seq<SourcePoint>,
        left: Seq<[u32; 2]>,
        right: Seq<[u32; 2]>,
    |
        {
            &&& are_settings_of(by, p)
            &&& #[trigger] are_gathered_at(
                math,
                p.calibration.lenses@[0],
                size,
                false,
                by,
                p.renderer.flip_180.0,
                a,
                left,
            )
            &&& #[trigger] are_gathered_at(
                math,
                p.calibration.lenses@[1],
                size,
                true,
                by,
                p.renderer.flip_180.1,
                b,
                right,
            )
            &&& is_read_at(
                left,
                0,
                after.band_gather->0.left_count,
                u.left_coords@,
                u.left_params@,
            )
            &&& is_read_at(
                right,
                2048,
                after.band_gather->0.right_count,
                u.right_coords@,
                u.right_params@,
            )
        }
}

/// A gather starts where a measurement is due and none is under way, for what the settings
/// and the pictures are now. The frame is counted in any case.
pub proof fn a_gather_starts_when_due()
    ensures
        forall|p: &mut StitchPipeline, next: GatherNext| #[trigger]
            call_ensures(StitchPipeline::gather_next, (p,), next) && p.band_gather is Some ==> {
                let n = p.color_match.frames_since_measure;
                let t = p.calibration.topology;
                let due = n == u32::MAX || n + 1 >= t.color_match_interval_frames;
                &&& next is Dispatch <==> due && p.band_gather->0.state is Idle
                &&& n < u32::MAX ==> final(p).color_match.frames_since_measure == n + 1
                &&& final(p).color_match.interval == t.color_match_interval_frames
                &&& same_offsets(p.color_match, final(p).color_match)
                &&& next matches GatherNext::Dispatch { key, .. } ==> {
                    &&& key.band_width == t.color_match_band_width
                    &&& key.grid_cols == t.color_match_grid_cols
                    &&& key.grid_rows == t.color_match_grid_rows
                    &&& key.seam_offset == t.seam_offset
                    &&& key.blend_flip_direction == t.blend_flip_direction
                    &&& key.input_width == p.renderer.input_width
                    &&& key.input_height == p.renderer.input_height
                    &&& key.flip_180 == p.renderer.flip_180
                }
                &&& next matches GatherNext::Dispatch { key, upload } ==> (
                p.band_gather->0.uploaded_for is None ==> upload)
            },
{
}

/// The device's samples are those of the left camera from the start, and those of the right
/// one from the 2048th place, four numbers each.
pub open spec fn are_samples_of(
    words: Seq<u32>,
    start: int,
    count: u32,
    samples: Seq<[Scalar; 4]>,
) -> bool {
    &&& samples.len() == count
    &&& forall|i: int, k: int|
        0 <= i < count && 0 <= k < 4 ==> (#[trigger] samples[i][k]).bits == words[4 * start + 4 * i
            + k]
}

/// A readback that is done is applied once, each camera's part as its own, and the next
/// gather may start; one that failed changes nothing, and one that is not done is waited for.
pub proof fn a_readback_is_applied_once<M: BandMath>(math: M)
    ensures
        forall|p: &mut StitchPipeline, poll: MapPoll<'_>| #[trigger]
            call_ensures(StitchPipeline::gather_finish::<M>, (p, poll, &math), ())
                && p.match_params().bounded() && p.band_gather is Some ==> is_read_back(
                math,
                poll,
                *p,
                *final(p),
            ),
{
    assert forall|p: &mut StitchPipeline, poll: MapPoll<'_>| #[trigger]
        call_ensures(StitchPipeline::gather_finish::<M>, (p, poll, &math), ())
            && p.match_params().bounded() && p.band_gather is Some implies is_read_back(
        math,
        poll,
        *p,
        *final(p),
    ) by {
        if let MapPoll::Ready(data) = poll {
            let after = final(p).color_match;
            let g = p.band_gather->0;
            let by = p.match_params();
            let s = choose|s: GatheredSamples|
                {
                    &&& #[trigger] crate::band_gather::gathered_from(g, data@, s)
                    &&& p.samples_applied(s, math, after)
                };
            let words = choose|words: Seq<u32>|
                {
                    &&& #[trigger] encodes(words, data@)
                    &&& crate::band_gather::sampled(words, 0, g.left_count as nat, s.left@)
                    &&& crate::band_gather::sampled(
                        words,
                        crate::band_gather::MAX_SAMPLES_PER_CAMERA as int,
                        g.right_count as nat,
                        s.right@,
                    )
                };
            assert(are_samples_of(words, 0, g.left_count, s.left@));
            assert(are_samples_of(words, 2048, g.right_count, s.right@));
            let full_range = p.renderer.is_full_range;
            let (l, r) = choose|l: Option<[Scalar; 3]>, r: Option<[Scalar; 3]>|
                {
                    &&& #[trigger] crate::color_match::normalized_averaged(
                        math,
                        s.left,
                        full_range,
                        by.gamma_left,
                        l,
                    )
                    &&& #[trigger] crate::color_match::normalized_averaged(
                        math,
                        s.right,
                        full_range,
                        by.gamma_right,
                        r,
                    )
                    &&& crate::color_match::applied(math, p.color_match, l, r, by, after)
                };
            if let (Some(lm), Some(rm)) = (l, r) {
                crate::match_laws::offsets_are_brought_together(
                    math,
                    p.color_match,
                    lm,
                    rm,
                    by,
                    after,
                );
                assert(is_normalized_mean(math, s.left, full_range, by.gamma_left, lm));
                assert(is_normalized_mean(math, s.right, full_range, by.gamma_right, rm));
            }
            assert(are_settings_of(by, *p));
            assert(is_moved_by(math, *p, by, s, after));
        }
    }
}

/// The offsets are moved by what was gathered, and stay where a camera has nothing.
pub open spec fn is_moved_by<M: BandMath>(
    math: M,
    p: StitchPipeline,
    by: ColorMatchParams,
    s: GatheredSamples,
    after: ColorMatchState,
) -> bool {
    let full_range = p.renderer.is_full_range;
    &&& s.left@.len() == 0 || s.right@.len() == 0 ==> after == p.color_match
    &&& s.left@.len() > 0 && s.right@.len() > 0 ==> exists|l: [Scalar; 3], r: [Scalar; 3]|
        {
            &&& #[trigger] is_normalized_mean(math, s.left, full_range, by.gamma_left, l)
            &&& #[trigger] is_normalized_mean(math, s.right, full_range, by.gamma_right, r)
            &&& both_brought_together(math, by, l, r, p.color_match, after)
        }
}

pub open spec fn is_read_back<M: BandMath>(
    math: M,
    poll: MapPoll<'_>,
    p: StitchPipeline,
    after: StitchPipeline,
) -> bool {
    &&& after.band_gather matches Some(g) && g.state == if poll is NotYet {
        Readback::Mapping
    } else {
        Readback::Idle
    }
    &&& !(poll is Ready) ==> after.color_match == p.color_match
    &&& poll matches MapPoll::Ready(data) ==> exists|
        words: Seq<u32>,
        by: ColorMatchParams,
        s: GatheredSamples,
    |
        {
            &&& #[trigger] encodes(words, data@)
            &&& are_settings_of(by, p)
            &&& are_samples_of(words, 0, p.band_gather->0.left_count, s.left@)
            &&& are_samples_of(words, 2048, p.band_gather->0.right_count, s.right@)
            &&& #[trigger] is_moved_by(math, p, by, s, after.color_match)
        }
}

} // verus!
