//! What rendering a frame comes to: the pictures are measured, checked, written, stitched
//! and drawn over.

use crate::color_match::{BandMath, ColorCorrection};
use crate::frame_buffer::StereoFrame;
use crate::pipeline::{
    CompositeStep, FramePlan, PipelineError, PlaneWrites, RenderPlan, RenderTo, StitchPipeline,
};
use crate::planes::{BgraPlanes, Nv12Planes, YuvPlanes};
use crate::renderer::{PlaneWrite, RenderError, StitchMath};
use crate::scalar::Scalar;
use vstd::prelude::*;

verus! {

/// A planar picture has all its bytes: one to the pixel, and half as many chroma bytes
/// across and down.
pub open spec fn yuv_fits(p: YuvPlanes<'_>, w: int, h: int) -> bool {
    &&& p.y@.len() == w * h
    &&& p.u@.len() == (w / 2) * (h / 2)
    &&& p.v@.len() == (w / 2) * (h / 2)
}

pub open spec fn nv12_fits(p: Nv12Planes<'_>, w: int, h: int) -> bool {
    &&& p.y@.len() == w * h
    &&& p.uv@.len() == (w / 2) * (h / 2) * 2
}

pub open spec fn bgra_fits(p: BgraPlanes<'_>, w: int, h: int) -> bool {
    p.rgba@.len() == w * h * 4
}

/// The error says what a plane must have and has.
pub open spec fn is_size_error<T>(r: Result<T, PipelineError>, expected: int, actual: nat) -> bool {
    match r {
        Err(PipelineError::Render(RenderError::FrameSizeMismatch { expected: e, actual: a })) => e
            == expected as usize && a == actual as usize,
        _ => false,
    }
}

/// The first plane of a planar picture that has not all its bytes is named.
pub open spec fn names_first_yuv<T>(
    r: Result<T, PipelineError>,
    p: YuvPlanes<'_>,
    w: int,
    h: int,
) -> bool {
    let chroma = (w / 2) * (h / 2);
    &&& p.y@.len() != w * h ==> is_size_error(r, w * h, p.y@.len())
    &&& p.y@.len() == w * h && p.u@.len() != chroma ==> is_size_error(r, chroma, p.u@.len())
    &&& p.y@.len() == w * h && p.u@.len() == chroma && p.v@.len() != chroma ==> is_size_error(
        r,
        chroma,
        p.v@.len(),
    )
}

pub open spec fn names_first_nv12<T>(
    r: Result<T, PipelineError>,
    p: Nv12Planes<'_>,
    w: int,
    h: int,
) -> bool {
    let chroma = (w / 2) * (h / 2) * 2;
    &&& p.y@.len() != w * h ==> is_size_error(r, w * h, p.y@.len())
    &&& p.y@.len() == w * h && p.uv@.len() != chroma ==> is_size_error(r, chroma, p.uv@.len())
}

/// A plane is written whole, row by row.
pub open spec fn is_write(p: PlaneWrite, width: int, height: int, row: int) -> bool {
    p.width == width && p.height == height && p.bytes_per_row == row
}

/// A frame of two planar pictures is drawn just when both have all their bytes; else the
/// first plane that has not is named, the left picture's first. The left and the right
/// picture are measured in that order and drawn from the given yaw and pitch.
pub proof fn planar_frames_are_stitched_on_the_target<M: BandMath + StitchMath>(math: M)
    ensures
        forall|
            p: &mut StitchPipeline,
            left: &YuvPlanes<'_>,
            right: &YuvPlanes<'_>,
            yaw: Scalar,
            pitch: Scalar,
            r: Result<FramePlan, PipelineError>,
        | #[trigger]
            call_ensures(
                StitchPipeline::render_to_target::<M>,
                (p, left, right, yaw, pitch, &math),
                r,
            ) ==> {
                let w = p.renderer.input_width as int;
                let h = p.renderer.input_height as int;
                &&& r is Ok <==> yuv_fits(*left, w, h) && yuv_fits(*right, w, h)
                &&& !yuv_fits(*left, w, h) ==> names_first_yuv(r, *left, w, h)
                &&& yuv_fits(*left, w, h) && !yuv_fits(*right, w, h) ==> names_first_yuv(
                    r,
                    *right,
                    w,
                    h,
                )
                &&& exists|color: ColorCorrection, corrected: StitchPipeline|
                    {
                        &&& #[trigger] p.yuv_corrected(*left, *right, math, color, corrected)
                        &&& r is Err ==> *final(p) == corrected
                        &&& r matches Ok(f) ==> corrected.planned(
                            RenderTo::Target,
                            (yaw, pitch),
                            color,
                            math,
                            f.stitch,
                            *final(p),
                        ) && f.steps@ == corrected.steps_over_target()
                    }
                &&& r matches Ok(f) ==> (f.writes matches PlaneWrites::Yuv420p { luma, chroma } && is_write(
                            luma,
                            w,
                            h,
                            w,
                        ) && is_write(chroma, w / 2, h / 2, w / 2))
            },
{
}

/// The same on a view.
pub proof fn planar_frames_are_stitched_on_a_view<M: BandMath + StitchMath>(math: M)
    ensures
        forall|
            p: &mut StitchPipeline,
            left: &YuvPlanes<'_>,
            right: &YuvPlanes<'_>,
            yaw: Scalar,
            pitch: Scalar,
            r: Result<FramePlan, PipelineError>,
        | #[trigger]
            call_ensures(
                StitchPipeline::render_to_view::<M>,
                (p, left, right, yaw, pitch, &math),
                r,
            ) ==> {
                let w = p.renderer.input_width as int;
                let h = p.renderer.input_height as int;
                &&& r is Ok <==> yuv_fits(*left, w, h) && yuv_fits(*right, w, h)
                &&& !yuv_fits(*left, w, h) ==> names_first_yuv(r, *left, w, h)
                &&& yuv_fits(*left, w, h) && !yuv_fits(*right, w, h) ==> names_first_yuv(
                    r,
                    *right,
                    w,
                    h,
                )
                &&& exists|color: ColorCorrection, corrected: StitchPipeline|
                    {
                        &&& #[trigger] p.yuv_corrected(*left, *right, math, color, corrected)
                        &&& r is Err ==> *final(p) == corrected
                        &&& r matches Ok(f) ==> corrected.planned(
                            RenderTo::View,
                            (yaw, pitch),
                            color,
                            math,
                            f.stitch,
                            *final(p),
                        ) && f.steps@ == corrected.steps_over_view()
                    }
                &&& r matches Ok(f) ==> (f.writes matches PlaneWrites::Yuv420p { luma, chroma } && is_write(
                            luma,
                            w,
                            h,
                            w,
                        ) && is_write(chroma, w / 2, h / 2, w / 2))
            },
{
}

/// The same of pictures with interleaved chroma.
pub proof fn interleaved_frames_are_stitched_on_the_target<M: BandMath + StitchMath>(math: M)
    ensures
        forall|
            p: &mut StitchPipeline,
            left: &Nv12Planes<'_>,
            right: &Nv12Planes<'_>,
            yaw: Scalar,
            pitch: Scalar,
            r: Result<FramePlan, PipelineError>,
        | #[trigger]
            call_ensures(
                StitchPipeline::render_to_target_nv12::<M>,
                (p, left, right, yaw, pitch, &math),
                r,
            ) ==> {
                let w = p.renderer.input_width as int;
                let h = p.renderer.input_height as int;
                &&& r is Ok <==> nv12_fits(*left, w, h) && nv12_fits(*right, w, h)
                &&& !nv12_fits(*left, w, h) ==> names_first_nv12(r, *left, w, h)
                &&& nv12_fits(*left, w, h) && !nv12_fits(*right, w, h) ==> names_first_nv12(
                    r,
                    *right,
                    w,
                    h,
                )
                &&& exists|color: ColorCorrection, corrected: StitchPipeline|
                    {
                        &&& #[trigger] p.nv12_corrected(*left, *right, math, color, corrected)
                        &&& r is Err ==> *final(p) == corrected
                        &&& r matches Ok(f) ==> corrected.planned(
                            RenderTo::Target,
                            (yaw, pitch),
                            color,
                            math,
                            f.stitch,
                            *final(p),
                        ) && f.steps@ == corrected.steps_over_target()
                    }
                &&& r matches Ok(f) ==> (f.writes matches PlaneWrites::Nv12 { luma, chroma } && is_write(
                            luma,
                            w,
                            h,
                            w,
                        ) && is_write(chroma, w / 2, h / 2, w / 2 * 2))
            },
{
}

/// The same of pictures with interleaved chroma, on a view.
pub proof fn interleaved_frames_are_stitched_on_a_view<M: BandMath + StitchMath>(math: M)
    ensures
        forall|
            p: &mut StitchPipeline,
            left: &Nv12Planes<'_>,
            right: &Nv12Planes<'_>,
            yaw: Scalar,
            pitch: Scalar,
            r: Result<FramePlan, PipelineError>,
        | #[trigger]
            call_ensures(
                StitchPipeline::render_nv12_to_view::<M>,
                (p, left, right, yaw, pitch, &math),
                r,
            ) ==> {
                let w = p.renderer.input_width as int;
                let h = p.renderer.input_height as int;
                &&& r is Ok <==> nv12_fits(*left, w, h) && nv12_fits(*right, w, h)
                &&& !nv12_fits(*left, w, h) ==> names_first_nv12(r, *left, w, h)
                &&& nv12_fits(*left, w, h) && !nv12_fits(*right, w, h) ==> names_first_nv12(
                    r,
                    *right,
                    w,
                    h,
                )
                &&& exists|color: ColorCorrection, corrected: StitchPipeline|
                    {
                        &&& #[trigger] p.nv12_corrected(*left, *right, math, color, corrected)
                        &&& r is Err ==> *final(p) == corrected
                        &&& r matches Ok(f) ==> corrected.planned(
                            RenderTo::View,
                            (yaw, pitch),
                            color,
                            math,
                            f.stitch,
                            *final(p),
                        ) && f.steps@ == corrected.steps_over_view()
                    }
                &&& r matches Ok(f) ==> (f.writes matches PlaneWrites::Nv12 { luma, chroma } && is_write(
                            luma,
                            w,
                            h,
                            w,
                        ) && is_write(chroma, w / 2, h / 2, w / 2 * 2))
            },
{
}

/// A frame of pictures of four bytes to the pixel is not measured, and drawn with the set
/// gammas.
pub proof fn bgra_frames_are_stitched_with_the_set_gammas<M: StitchMath>(math: M)
    ensures
        forall|
            p: &mut StitchPipeline,
            left: &BgraPlanes<'_>,
            right: &BgraPlanes<'_>,
            yaw: Scalar,
            pitch: Scalar,
            r: Result<FramePlan, PipelineError>,
        | #[trigger]
            call_ensures(
                StitchPipeline::render_to_target_bgra::<M>,
                (p, left, right, yaw, pitch, &math),
                r,
            ) ==> {
                let w = p.renderer.input_width as int;
                let h = p.renderer.input_height as int;
                &&& r is Ok <==> bgra_fits(*left, w, h) && bgra_fits(*right, w, h)
                &&& !bgra_fits(*left, w, h) ==> is_size_error(r, w * h * 4, left.rgba@.len())
                &&& bgra_fits(*left, w, h) && !bgra_fits(*right, w, h) ==> is_size_error(
                    r,
                    w * h * 4,
                    right.rgba@.len(),
                )
                &&& r is Err ==> *final(p) == *p
                &&& r matches Ok(f) ==> exists|color: ColorCorrection|
                    {
                        &&& crate::match_laws::is_identity_of(color, p.calibration.topology)
                        &&& #[trigger] p.planned(
                            RenderTo::Target,
                            (yaw, pitch),
                            color,
                            math,
                            f.stitch,
                            *final(p),
                        )
                        &&& f.steps@ == p.steps_over_target()
                    }
            },
{
}

/// A frame that is on the device is drawn with the correction in force, and nothing is
/// written.
pub proof fn frames_on_the_device_are_stitched<M: StitchMath>(math: M)
    ensures
        forall|p: &mut StitchPipeline, yaw: Scalar, pitch: Scalar, f: FramePlan| #[trigger]
            call_ensures(
                StitchPipeline::render_to_target_gpu::<M>,
                (p, yaw, pitch, &math),
                f,
            ) ==> {
                &&& f.writes is Nothing
                &&& f.steps@ == p.steps_over_target()
                &&& exists|color: ColorCorrection|
                    {
                        &&& p.calibration.topology.color_match_enabled
                            ==> crate::match_laws::is_in_force(color, *p)
                        &&& !p.calibration.topology.color_match_enabled
                            ==> crate::match_laws::is_identity_of(color, p.calibration.topology)
                        &&& #[trigger] p.planned(
                            RenderTo::Target,
                            (yaw, pitch),
                            color,
                            math,
                            f.stitch,
                            *final(p),
                        )
                    }
            },
{
}

/// A decoded frame is drawn like its two pictures, the left one as the left. One that is
/// only on the device is refused, and nothing changes.
pub proof fn a_decoded_frame_is_drawn_like_its_pictures<M: BandMath + StitchMath>(math: M)
    ensures
        forall|
            p: &mut StitchPipeline,
            frame: &StereoFrame,
            yaw: Scalar,
            pitch: Scalar,
            r: Result<FramePlan, PipelineError>,
        | #[trigger]
            call_ensures(
                StitchPipeline::render_stereo_frame::<M>,
                (p, frame, yaw, pitch, &math),
                r,
            ) ==> {
                &&& frame is GpuResident ==> r is Err && *final(p) == *p
                &&& frame matches StereoFrame::Yuv420p(pair) ==> exists|
                    left: YuvPlanes<'_>,
                    right: YuvPlanes<'_>,
                    color: ColorCorrection,
                    corrected: StitchPipeline,
                |
                    {
                        let w = p.renderer.input_width as int;
                        let h = p.renderer.input_height as int;
                        &&& left.y@ == pair.left.y@
                        &&& left.u@ == pair.left.u@
                        &&& left.v@ == pair.left.v@
                        &&& right.y@ == pair.right.y@
                        &&& right.u@ == pair.right.u@
                        &&& right.v@ == pair.right.v@
                        &&& #[trigger] p.yuv_corrected(left, right, math, color, corrected)
                        &&& r is Ok <==> yuv_fits(left, w, h) && yuv_fits(right, w, h)
                        &&& r matches Ok(f) ==> corrected.planned(
                            RenderTo::Target,
                            (yaw, pitch),
                            color,
                            math,
                            f.stitch,
                            *final(p),
                        )
                    }
                &&& frame matches StereoFrame::Nv12(pair) ==> exists|
                    left: Nv12Planes<'_>,
                    right: Nv12Planes<'_>,
                    color: ColorCorrection,
                    corrected: StitchPipeline,
                |
                    {
                        let w = p.renderer.input_width as int;
                        let h = p.renderer.input_height as int;
                        &&& left.y@ == pair.left.y@
                        &&& left.uv@ == pair.left.uv@
                        &&& right.y@ == pair.right.y@
                        &&& right.uv@ == pair.right.uv@
                        &&& #[trigger] p.nv12_corrected(left, right, math, color, corrected)
                        &&& r is Ok <==> nv12_fits(left, w, h) && nv12_fits(right, w, h)
                        &&& r matches Ok(f) ==> corrected.planned(
                            RenderTo::Target,
                            (yaw, pitch),
                            color,
                            math,
                            f.stitch,
                            *final(p),
                        )
                    }
            },
{
}

/// A plan is what is planned for the given place, pose and colours.
pub proof fn a_plan_is_for_what_was_asked<M: StitchMath>(math: M)
    ensures
        forall|
            p: &mut StitchPipeline,
            to: RenderTo,
            pose: (Scalar, Scalar),
            color: ColorCorrection,
            plan: RenderPlan,
        | #[trigger]
            call_ensures(
                StitchPipeline::plan_render::<M>,
                (p, to, pose, color, &math),
                plan,
            ) ==> p.planned(to, pose, color, math, plan, *final(p)),
{
}

/// Over the target, the colours are graded under the transition, the overlay is over the
/// transition, and all of it is sharpened. Each is there just when it is on.
pub proof fn the_target_is_drawn_over_in_order(p: StitchPipeline, steps: Vec<CompositeStep>)
    requires
        call_ensures(StitchPipeline::target_steps, (&p,), steps),
    ensures
        steps@.contains(CompositeStep::ColorGrade) <==> p.color_grade_pass.spec_active(),
        steps@.contains(CompositeStep::Transition) <==> p.transition is Some,
        steps@.contains(CompositeStep::Overlay) <==> p.overlay is Some,
        steps@.contains(CompositeStep::Sharpen) <==> p.sharpen_pass.spec_active(),
        forall|i: int, j: int|
            0 <= i < j < steps@.len() ==> rank_on_target(#[trigger] steps@[i]) < rank_on_target(
                #[trigger] steps@[j],
            ),
{
    steps_are_there(p);
}

pub open spec fn rank_on_target(step: CompositeStep) -> int {
    match step {
        CompositeStep::ColorGrade => 0,
        CompositeStep::Transition => 1,
        CompositeStep::Overlay => 2,
        CompositeStep::Sharpen => 3,
    }
}

/// Over a view, the transition and the overlay come before the colours are graded.
pub proof fn a_view_is_drawn_over_in_order(p: StitchPipeline, steps: Vec<CompositeStep>)
    requires
        call_ensures(StitchPipeline::view_steps, (&p,), steps),
    ensures
        steps@.contains(CompositeStep::ColorGrade) <==> p.color_grade_pass.spec_active(),
        steps@.contains(CompositeStep::Transition) <==> p.transition is Some,
        steps@.contains(CompositeStep::Overlay) <==> p.overlay is Some,
        steps@.contains(CompositeStep::Sharpen) <==> p.sharpen_pass.spec_active(),
        forall|i: int, j: int|
            0 <= i < j < steps@.len() ==> rank_on_view(#[trigger] steps@[i]) < rank_on_view(
                #[trigger] steps@[j],
            ),
{
    steps_are_there(p);
}

pub open spec fn rank_on_view(step: CompositeStep) -> int {
    match step {
        CompositeStep::Transition => 0,
        CompositeStep::Overlay => 1,
        CompositeStep::ColorGrade => 2,
        CompositeStep::Sharpen => 3,
    }
}

proof fn steps_are_there(p: StitchPipeline)
    ensures
        forall|s: CompositeStep| #[trigger]
            p.steps_over_target().contains(s) <==> match s {
                CompositeStep::ColorGrade => p.color_grade_pass.spec_active(),
                CompositeStep::Transition => p.transition is Some,
                CompositeStep::Overlay => p.overlay is Some,
                CompositeStep::Sharpen => p.sharpen_pass.spec_active(),
            },
        forall|s: CompositeStep| #[trigger]
            p.steps_over_view().contains(s) <==> match s {
                CompositeStep::ColorGrade => p.color_grade_pass.spec_active(),
                CompositeStep::Transition => p.transition is Some,
                CompositeStep::Overlay => p.overlay is Some,
                CompositeStep::Sharpen => p.sharpen_pass.spec_active(),
            },
{
    let g: int = if p.color_grade_pass.spec_active() {
        1
    } else {
        0
    };
    let t: int = if p.transition is Some {
        1
    } else {
        0
    };
    let o: int = if p.overlay is Some {
        1
    } else {
        0
    };
    let a = p.steps_over_target();
    let b = p.steps_over_view();
    if p.color_grade_pass.spec_active() {
        assert(a[0] == CompositeStep::ColorGrade);
        assert(b[t + o] == CompositeStep::ColorGrade);
    }
    if p.transition is Some {
        assert(a[g] == CompositeStep::Transition);
        assert(b[0] == CompositeStep::Transition);
    }
    if p.overlay is Some {
        assert(a[g + t] == CompositeStep::Overlay);
        assert(b[t] == CompositeStep::Overlay);
    }
    if p.sharpen_pass.spec_active() {
        assert(a[g + t + o] == CompositeStep::Sharpen);
        assert(b[t + o + g] == CompositeStep::Sharpen);
    }
}

} // verus!
