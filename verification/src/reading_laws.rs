//! What is read back of a pipeline and of an executor.

use crate::band_gather::{
    BandGather, GatherDispatch, GatheredSamples, MapPoll, Readback, TakeAction,
};
use crate::bytes::encodes;
use crate::calibration::Calibration;
use crate::color_match::{BandMath, ColorCorrection};
use crate::executor::{Executor, GpuExecutor, StitchError};
use crate::frame_laws::{is_write, nv12_fits};
use crate::gather_laws::are_samples_of;
use crate::pipeline::{FramePlan, GatherBegin, PlaneWrites, PostPass, RenderTo, StitchPipeline};
use crate::planes::Nv12Planes;
use crate::renderer::{
    composite_sources, multiband_textures, Renderer, StitchInputs, StitchMath, Target,
};
use crate::scalar::Scalar;
use crate::scene::SceneGeometry;
use crate::setting_laws::{calibration_of, is_held, scene_in, viewport_of};
use crate::single_camera::{SingleCameraRenderer, SingleCameraResources};
use crate::viewport::ViewportConfig;
use vstd::prelude::*;

verus! {

/// A pipeline shows what it was last told.
pub proof fn a_pipeline_shows_what_it_was_told(p: StitchPipeline)
    ensures
        forall|f: Scalar| #[trigger]
            call_ensures(StitchPipeline::fov, (&p,), f) ==> f == p.viewport.fov_degrees,
        forall|o: Scalar| #[trigger]
            call_ensures(StitchPipeline::seam_offset, (&p,), o) ==> o
                == p.calibration.topology.seam_offset,
        forall|g: (Scalar, Scalar)| #[trigger]
            call_ensures(StitchPipeline::color_gamma, (&p,), g) ==> g == (
                p.calibration.topology.color_gamma_left,
                p.calibration.topology.color_gamma_right,
            ),
        forall|size: (u32, u32)| #[trigger]
            call_ensures(StitchPipeline::source_info, (&p,), size) ==> size == (
                p.renderer.input_width,
                p.renderer.input_height,
            ),
        forall|size: (u32, u32)| #[trigger]
            call_ensures(StitchPipeline::drawn_size, (&p, RenderTo::Target), size) ==> size == (
                p.renderer.output_width,
                p.renderer.output_height,
            ),
        forall|size: (u32, u32)| #[trigger]
            call_ensures(StitchPipeline::drawn_size, (&p, RenderTo::View), size) ==> size == (
                p.viewport.width,
                p.viewport.height,
            ),
        forall|r: bool| #[trigger]
            call_ensures(StitchPipeline::has_overlay, (&p,), r) ==> (r <==> p.overlay is Some),
        forall|r: bool| #[trigger]
            call_ensures(StitchPipeline::has_transition, (&p,), r) ==> (r
                <==> p.transition is Some),
        forall|c: [Scalar; 3]| #[trigger]
            call_ensures(StitchPipeline::camera_position, (&p,), c) ==> c
                == p.scene.camera_position,
{
}

/// Without matching nothing is added, and each camera has the gamma that was set for it.
pub proof fn without_matching_the_set_gammas_hold(p: StitchPipeline, c: ColorCorrection)
    requires
        call_ensures(StitchPipeline::identity_correction_with_static_gamma, (&p,), c),
    ensures
        forall|i: int| 0 <= i < 3 ==> #[trigger] c.left_offset[i] == (Scalar { bits: 0 }),
        forall|i: int| 0 <= i < 3 ==> #[trigger] c.right_offset[i] == (Scalar { bits: 0 }),
        c.left_gamma == p.calibration.topology.color_gamma_left,
        c.right_gamma == p.calibration.topology.color_gamma_right,
{
    assert(forall|i: int| 0 <= i < 3 ==> #[trigger] c.left_offset[i] == c.left_offset@[i]);
    assert(forall|i: int| 0 <= i < 3 ==> #[trigger] c.right_offset[i] == c.right_offset@[i]);
}

/// What was measured stays in force when the seam is to be measured anew, which the next frame
/// does whatever the interval.
pub proof fn a_forced_measurement_keeps_the_offsets()
    ensures
        forall|p: &mut StitchPipeline| #[trigger]
            call_ensures(StitchPipeline::force_color_match_remeasure, (p,), ()) ==> {
                &&& final(p).color_match.frames_since_measure + 1 == u32::MAX
                &&& final(p).color_match.left_offset == p.color_match.left_offset
                &&& final(p).color_match.right_offset == p.color_match.right_offset
                &&& final(p).calibration == p.calibration
                &&& final(p).renderer == p.renderer
            },
{
}

/// An executor shows the settings of whichever it is.
pub proof fn an_executor_shows_its_own_settings(
    x: Executor,
    c: &Calibration,
    v: &ViewportConfig,
    s: &SceneGeometry,
    fov: Scalar,
    size: (u32, u32),
    out: (u32, u32),
    name: &'static str,
)
    requires
        call_ensures(Executor::calibration, (&x,), c),
        call_ensures(Executor::viewport, (&x,), v),
        call_ensures(Executor::scene, (&x,), s),
        call_ensures(Executor::fov, (&x,), fov),
        call_ensures(Executor::source_info, (&x,), size),
        call_ensures(Executor::output_dims, (&x,), out),
        call_ensures(Executor::name, (&x,), name),
    ensures
        *c == calibration_of(x),
        *v == viewport_of(x),
        *s == scene_in(x),
        fov == v.fov_degrees,
        out == (v.width, v.height),
        x matches Executor::Cpu(e) ==> size == e.cam && name@ == "cpu"@,
        x matches Executor::Gpu(e) ==> size == (
            e.pipeline.renderer.input_width,
            e.pipeline.renderer.input_height,
        ) && name@ == "gpu"@,
{
}

/// A setting of an executor is one of its calibration, and no other setting changes with it.
/// The seam's line is shown by the device alone.
pub proof fn an_executor_takes_one_setting_at_a_time()
    ensures
        forall|x: &mut Executor, width: Scalar| #[trigger]
            call_ensures(Executor::set_blend_width, (x, width), ()) ==> {
                let t = calibration_of(*x).topology;
                let u = calibration_of(*final(x)).topology;
                &&& u.blend_width == width
                &&& u.seam_offset == t.seam_offset
                &&& u.intersect == t.intersect
                &&& u.color_match_band_width == t.color_match_band_width
                &&& calibration_of(*final(x)).lenses == calibration_of(*x).lenses
                &&& viewport_of(*final(x)) == viewport_of(*x)
                &&& scene_in(*final(x)) == scene_in(*x)
                &&& *final(x) is Gpu <==> *x is Gpu
            },
        forall|x: &mut Executor, show: bool| #[trigger]
            call_ensures(Executor::set_show_seam_line, (x, show), ()) ==> {
                &&& *x is Cpu ==> *final(x) == *x
                &&& *x is Gpu ==> *final(x) is Gpu && (*final(x))->Gpu_0.pipeline.show_seam_line
                    == show
                &&& calibration_of(*final(x)) == calibration_of(*x)
                &&& viewport_of(*final(x)) == viewport_of(*x)
                &&& scene_in(*final(x)) == scene_in(*x)
            },
        forall|x: &mut Executor, amount: Scalar| #[trigger]
            call_ensures(Executor::set_lens_correction_amount, (x, amount), ()) ==> {
                let before = calibration_of(*x).lenses@;
                let after = calibration_of(*final(x)).lenses@;
                &&& after.len() == before.len()
                &&& forall|i: int|
                    0 <= i < before.len() ==> {
                        &&& is_held(
                            amount,
                            Scalar { bits: 0 },
                            Scalar { bits: 0x3f80_0000 },
                            (#[trigger] after[i]).correction,
                        )
                        &&& after[i].width == before[i].width
                        &&& after[i].height == before[i].height
                        &&& after[i].fx == before[i].fx
                        &&& after[i].cx == before[i].cx
                        &&& after[i].distortion == before[i].distortion
                    }
                &&& calibration_of(*final(x)).topology == calibration_of(*x).topology
                &&& viewport_of(*final(x)) == viewport_of(*x)
                &&& scene_in(*final(x)) == scene_in(*x)
            },
{
}

/// A stitch on the device is a frame of its pipeline on the target, from the yaw and the pitch
/// that it is given. It fails as the frame does, for pictures of another size.
pub proof fn a_stitch_on_the_device_is_a_frame<M: BandMath + StitchMath>(math: M)
    ensures
        forall|
            x: &mut GpuExecutor,
            left: &Nv12Planes<'_>,
            right: &Nv12Planes<'_>,
            yaw: Scalar,
            pitch: Scalar,
            r: Result<FramePlan, StitchError>,
        | #[trigger]
            call_ensures(GpuExecutor::stitch::<M>, (x, left, right, yaw, pitch, &math), r) ==> {
                let p = x.pipeline;
                let w = p.renderer.input_width as int;
                let h = p.renderer.input_height as int;
                &&& r is Ok <==> nv12_fits(*left, w, h) && nv12_fits(*right, w, h)
                &&& r matches Err(e) ==> e is Pipeline
                &&& final(x).projection == x.projection
                &&& final(x).sync_readback == x.sync_readback
                &&& exists|color: ColorCorrection, corrected: StitchPipeline|
                    {
                        &&& #[trigger] p.nv12_corrected(*left, *right, math, color, corrected)
                        &&& r matches Ok(f) ==> corrected.planned(
                            RenderTo::Target,
                            (yaw, pitch),
                            color,
                            math,
                            f.stitch,
                            final(x).pipeline,
                        ) && f.steps@ == corrected.steps_over_target()
                    }
                &&& r is Ok ==> (r->Ok_0.writes matches PlaneWrites::Nv12 { luma, chroma }
                    && is_write(luma, w, h, w) && is_write(chroma, w / 2, h / 2, w / 2 * 2))
            },
{
}

/// The composite reads both planes, sharp and blurred, and the blurred mask; all textures that
/// are read or blurred are kept, and the output alone is cleared to black.
pub proof fn the_composite_reads_what_is_kept(
    read: Vec<Target>,
    kept: Vec<Target>,
    target: Target,
    opaque: bool,
)
    requires
        call_ensures(composite_sources, (), read),
        call_ensures(multiband_textures, (), kept),
        call_ensures(Target::cleared_opaque, (target,), opaque),
    ensures
        read@.len() == 5,
        read@[0] is Left && read@[1] is Right,
        read@[2] is LeftBlur && read@[3] is RightBlur && read@[4] is MaskBlur,
        kept@.no_duplicates(),
        forall|t: Target| #[trigger] kept@.contains(t) <==> !(t is Output),
        opaque <==> target is Output,
{
    assert(kept@[0] is Left && kept@[1] is Right && kept@[2] is Mask && kept@[3] is Tmp
        && kept@[4] is LeftBlur && kept@[5] is RightBlur && kept@[6] is MaskBlur);
    assert forall|t: Target| #[trigger] kept@.contains(t) <==> !(t is Output) by {
        if !(t is Output) {
            let i: int = match t {
                Target::Left => 0,
                Target::Right => 1,
                Target::Mask => 2,
                Target::Tmp => 3,
                Target::LeftBlur => 4,
                Target::RightBlur => 5,
                _ => 6,
            };
            assert(kept@[i] == t);
        }
    }
}

/// The left plane fades where the direction is flipped, else the right one.
pub proof fn one_plane_fades_by_the_direction(i: StitchInputs, c: crate::async_detect::CameraId)
    requires
        call_ensures(StitchInputs::fading, (&i,), c),
    ensures
        i.flip <==> c is Left,
{
}

/// Textures that follow the size of what is drawn are made anew just when that changes.
pub proof fn textures_follow_the_size()
    ensures
        forall|p: &mut PostPass, w: u32, h: u32, anew: bool| #[trigger]
            call_ensures(PostPass::scratch_for, (p, w, h), anew) ==> {
                &&& final(p).scratch == Some((w, h))
                &&& !anew <==> p.scratch == Some((w, h))
                &&& final(p).created == p.created
                &&& final(p).identity == p.identity
            },
        forall|r: &mut Renderer, w: u32, h: u32, anew: bool| #[trigger]
            call_ensures(Renderer::ensure_size, (r, w, h), anew) ==> {
                &&& final(r).multiband_size == (w, h)
                &&& !anew <==> r.multiband_size == (w, h)
                &&& final(r).output_width == r.output_width
                &&& final(r).input_width == r.input_width
            },
        forall|r: &mut Renderer, left: bool, right: bool| #[trigger]
            call_ensures(Renderer::set_flip_180, (r, left, right), ()) ==> final(r).flip_180 == (
                left,
                right,
            ) && final(r).is_full_range == r.is_full_range,
        forall|r: &mut Renderer, full: bool| #[trigger]
            call_ensures(Renderer::set_full_range, (r, full), ()) ==> final(r).is_full_range == full
                && final(r).flip_180 == r.flip_180,
{
}

/// A single camera's picture is drawn whole at the size at which it is evaluated, and read
/// back in rows that are padded to the device's multiple.
pub proof fn a_single_camera_is_read_back_in_padded_rows(
    iw: u32,
    ih: u32,
    ew: u32,
    eh: u32,
    r: (SingleCameraRenderer, SingleCameraResources),
) -> (row: nat)
    requires
        call_ensures(SingleCameraRenderer::new, (iw, ih, ew, eh), r),
    ensures
        r.0.input_width == iw && r.0.input_height == ih,
        r.0.eval_width == ew && r.0.eval_height == eh,
        crate::device_laws::is_sampled(r.1.planes.first.1, iw, ih),
        crate::device_laws::is_sampled(r.1.planes.second.1, iw / 2, ih / 2),
        crate::device_laws::is_sampled(r.1.planes.third.1, iw / 2, ih / 2),
        r.1.target.width == ew && r.1.target.height == eh,
        r.1.target.usage.attachment && r.1.target.usage.copy_src,
        row % 256 == 0,
        ew * 4 <= row < ew * 4 + 256,
        r.1.readback_bytes == row * eh,
{
    r.0.spec_aligned_row()
}

/// A gather begins where matching is on: a submitted one is mapped, and one that is being
/// mapped is polled.
pub proof fn a_gather_is_mapped_and_then_polled()
    ensures
        forall|p: &mut StitchPipeline, begin: Option<GatherBegin>| #[trigger]
            call_ensures(StitchPipeline::gather_begin, (p,), begin) ==> {
                &&& begin is Some <==> p.calibration.topology.color_match_enabled
                &&& begin is None ==> *final(p) == *p
                &&& begin matches Some(b) ==> {
                    &&& b.create <==> p.band_gather is None
                    &&& b.action is Nothing <==> p.band_gather is None
                        || p.band_gather->0.state is Idle
                    &&& b.action is RequestMap <==> p.band_gather is Some
                        && p.band_gather->0.state is Submitted
                    &&& final(p).band_gather is Some
                    &&& b.action is RequestMap ==> final(p).band_gather->0.state is Mapping
                    &&& p.band_gather is None ==> final(p).band_gather->0.uploaded_for is None
                }
            },
        forall|p: &mut StitchPipeline, plan: Option<GatherDispatch>| #[trigger]
            call_ensures(StitchPipeline::gather_dispatch, (p,), plan) && p.band_gather is Some ==> {
                let g = p.band_gather->0;
                &&& final(p).color_match.frames_since_measure == 0
                &&& final(p).color_match.left_offset == p.color_match.left_offset
                &&& final(p).color_match.right_offset == p.color_match.right_offset
                &&& plan is Some <==> g.left_count > 0 && g.right_count > 0
                &&& plan matches Some(d) ==> {
                    &&& g.left_count <= 64 * d.left_groups < g.left_count + 64
                    &&& g.right_count <= 64 * d.right_groups < g.right_count + 64
                    &&& final(p).band_gather->0.state is Submitted
                }
                &&& plan is None ==> final(p).band_gather == p.band_gather
            },
        forall|g: &mut BandGather, action: TakeAction| #[trigger]
            call_ensures(BandGather::begin_take, (g,), action) ==> {
                &&& action is Nothing <==> g.state is Idle
                &&& action is RequestMap <==> g.state is Submitted
                &&& final(g).state is Mapping <==> !(g.state is Idle)
                &&& final(g).left_count == g.left_count
                &&& final(g).right_count == g.right_count
                &&& final(g).uploaded_for == g.uploaded_for
            },
{
}

/// A readback that is done hands out the left camera's samples and then the right one's, and
/// is over, as is one that failed.
pub proof fn a_readback_hands_out_its_samples()
    ensures
        forall|g: &mut BandGather, poll: MapPoll<'_>, samples: Option<GatheredSamples>| #[trigger]
            call_ensures(BandGather::finish_take, (g, poll), samples) ==> {
                &&& samples is Some <==> poll is Ready
                &&& final(g).state == if poll is NotYet {
                    Readback::Mapping
                } else {
                    Readback::Idle
                }
                &&& poll matches MapPoll::Ready(data) ==> exists|words: Seq<u32>|
                    {
                        &&& #[trigger] encodes(words, data@)
                        &&& are_samples_of(words, 0, g.left_count, samples->0.left@)
                        &&& are_samples_of(words, 2048, g.right_count, samples->0.right@)
                    }
            },
{
    assert forall|g: &mut BandGather, poll: MapPoll<'_>, samples: Option<GatheredSamples>|
        #[trigger] call_ensures(BandGather::finish_take, (g, poll), samples)
            && poll is Ready implies exists|words: Seq<u32>|
        {
            &&& #[trigger] encodes(words, poll->Ready_0@)
            &&& are_samples_of(words, 0, g.left_count, samples->0.left@)
            &&& are_samples_of(words, 2048, g.right_count, samples->0.right@)
        } by {
        let s = samples->0;
        let words = choose|words: Seq<u32>|
            {
                &&& #[trigger] encodes(words, poll->Ready_0@)
                &&& crate::band_gather::sampled(words, 0, g.left_count as nat, s.left@)
                &&& crate::band_gather::sampled(
                    words,
                    crate::band_gather::MAX_SAMPLES_PER_CAMERA as int,
                    g.right_count as nat,
                    s.right@,
                )
            };
        assert(are_samples_of(words, 0, g.left_count, s.left@));
        assert(are_samples_of(words, 2048, g.right_count, s.right@));
    }
}

} // verus!
