//! What errors say: which fault, and with which numbers.

use crate::async_detect::CameraId;
use crate::color_match::ColorMatchParams;
use crate::device_laws::is_usable;
use crate::executor::{
    CpuExecutor, CpuSetup, GpuExecutor, GpuExecutorConfig, ProjectionInfo, SetupFacts, StitchError,
};
use crate::nv12_readback::{map_error, padded_row, MapFailure, Nv12ReadbackError};
use crate::overlay::{straight_alpha_blend, AlphaBlend, OverlayError, OverlayFrame};
use crate::pause_overlay::{PauseConfigError, PauseOverlayConfig};
use crate::pipeline::{viewport_message, PipelineError, PipelineSetup, StitchPipeline};
use crate::renderer::{block_for, inv_gamma, Block, PassKind, RenderError, StitchMath};
use crate::scalar::Scalar;
use crate::scene::SceneMath;
use crate::setting_laws::is_scene_of;
use crate::text::{append_decimal, append_dims, decimal, digit_char, dims_text};
use crate::viewport::{ViewportConfig, ViewportError};
use vstd::prelude::*;

verus! {

/// What a row of digits is worth.
pub open spec fn worth(digits: Seq<char>) -> int
    decreases digits.len(),
{
    if digits.len() == 0 {
        0
    } else {
        10 * worth(digits.drop_last()) + (digits.last() as int - '0' as int)
    }
}

/// The text is the number in base ten: digits only, the first not nought unless it is the only
/// one, and worth that number.
pub open spec fn is_number(text: Seq<char>, n: int) -> bool {
    &&& text.len() > 0
    &&& forall|i: int| 0 <= i < text.len() ==> '0' <= #[trigger] text[i] <= '9'
    &&& text.len() > 1 ==> text[0] != '0'
    &&& worth(text) == n
}

proof fn decimal_is_a_number(n: nat)
    ensures
        is_number(decimal(n), n as int),
    decreases n,
{
    if n < 10 {
        let text = decimal(n);
        assert(text.drop_last().len() == 0);
        assert(worth(text.drop_last()) == 0);
        assert(digit_char(n) as int == n + '0' as int);
    } else {
        decimal_is_a_number(n / 10);
        let text = decimal(n);
        let before = decimal(n / 10);
        let d = n % 10;
        assert(text.drop_last() =~= before);
        assert(digit_char(d) as int == d + '0' as int);
        assert(text[0] == before[0]);
        if before.len() == 1 {
            assert(before.drop_last().len() == 0);
            assert(worth(before.drop_last()) == 0);
            assert(before[0] == before.last());
            assert(n / 10 > 0);
        }
        assert forall|i: int| 0 <= i < text.len() implies '0' <= #[trigger] text[i] <= '9' by {
            if i < before.len() {
                assert(text[i] == before[i]);
            }
        }
    }
}

/// A number is appended in base ten, and two of them with an `x` between.
pub proof fn numbers_are_written_in_base_ten()
    ensures
        forall|out: &mut String, n: u64| #[trigger]
            call_ensures(append_decimal, (out, n), ()) ==> exists|d: Seq<char>|
                #[trigger] is_number(d, n as int) && final(out)@ == out@ + d,
        forall|out: &mut String, a: u64, b: u64| #[trigger]
            call_ensures(append_dims, (out, a, b), ()) ==> exists|c: Seq<char>, d: Seq<char>|
                #[trigger] is_number(c, a as int) && #[trigger] is_number(d, b as int)
                    && final(out)@ == out@ + (c + "x"@ + d),
{
    assert forall|out: &mut String, n: u64| #[trigger]
        call_ensures(append_decimal, (out, n), ()) implies exists|d: Seq<char>|
        #[trigger] is_number(d, n as int) && final(out)@ == out@ + d by {
        decimal_is_a_number(n as nat);
    }
    assert forall|out: &mut String, a: u64, b: u64| #[trigger]
        call_ensures(append_dims, (out, a, b), ()) implies exists|c: Seq<char>, d: Seq<char>|
        #[trigger] is_number(c, a as int) && #[trigger] is_number(d, b as int) && final(out)@
            == out@ + (c + "x"@ + d) by {
        decimal_is_a_number(a as nat);
        decimal_is_a_number(b as nat);
    }
}

/// A plane of another size is told with the size it must have, then the one it has.
pub proof fn a_misfit_is_told_by_both_sizes(e: RenderError, m: String) -> (r: (
    Seq<char>,
    Seq<char>,
))
    requires
        call_ensures(RenderError::message, (&e,), m),
    ensures
        is_number(r.0, e->expected as int),
        is_number(r.1, e->actual as int),
        m@ == "frame data size mismatch: expected "@ + r.0 + " bytes, got "@ + r.1,
{
    decimal_is_a_number(e->expected as nat);
    decimal_is_a_number(e->actual as nat);
    (decimal(e->expected as nat), decimal(e->actual as nat))
}

/// A pipeline's error says what failed, and then what that said of itself.
pub proof fn a_pipeline_says_what_failed(e: PipelineError, m: String)
    requires
        call_ensures(PipelineError::message, (&e,), m),
    ensures
        match e {
            PipelineError::Gpu(g) => m@ == "GPU error: "@ + g.reason@,
            PipelineError::Calibration(c) => m@ == "invalid calibration: "@ + c.reason@,
            PipelineError::Render(r) => forall|said: String| #[trigger]
                call_ensures(RenderError::message, (&r,), said) ==> m@ == "render error: "@
                    + said@,
            PipelineError::UnsupportedFrameVariant { reason } => m@
                == "unsupported frame variant: "@ + reason@,
            PipelineError::InvalidConfig { reason } => m@ == "invalid config: "@ + reason@,
        },
{
}

/// The same of a stitch.
pub proof fn a_stitch_says_what_failed(e: StitchError, m: String)
    requires
        call_ensures(StitchError::message, (&e,), m),
    ensures
        match e {
            StitchError::Pipeline(p) => forall|said: String| #[trigger]
                call_ensures(PipelineError::message, (&p,), said) ==> m@ == "gpu pipeline: "@
                    + said@,
            StitchError::Readback(r) => m@ == "gpu readback: "@ + r.reason@,
            StitchError::InvalidConfig(c) => m@ == "invalid stitch config: "@ + c@,
            StitchError::FrameSizeMismatch { expected, actual } => exists|
                a: Seq<char>,
                b: Seq<char>,
            |
                {
                    &&& #[trigger] is_number(a, actual as int)
                    &&& #[trigger] is_number(b, expected as int)
                    &&& m@ == "frame size mismatch: plane has "@ + a + " bytes, need at least "@ + b
                },
        },
{
    if let StitchError::FrameSizeMismatch { expected, actual } = e {
        decimal_is_a_number(expected as nat);
        decimal_is_a_number(actual as nat);
    }
}

/// A readback says what failed; a mapping that failed is told in the device's words.
pub proof fn a_readback_says_what_failed(
    e: Nv12ReadbackError,
    m: String,
    failure: MapFailure,
    mapped: Nv12ReadbackError,
)
    requires
        call_ensures(Nv12ReadbackError::message, (&e,), m),
        call_ensures(map_error, (failure,), mapped),
    ensures
        match e {
            Nv12ReadbackError::InvalidDimensions(d) => m@ == "invalid dimensions: "@ + d@,
            Nv12ReadbackError::MapFailed(d) => m@ == "buffer map failed: "@ + d@,
        },
        mapped is MapFailed,
        match failure {
            MapFailure::Poll(p) => mapped->MapFailed_0@ == "poll failed: "@ + p@,
            MapFailure::CallbackDropped => mapped->MapFailed_0@ == "map callback dropped"@,
            MapFailure::Device(d) => mapped->MapFailed_0@ == d@,
        },
{
}

/// A viewport is refused with the size that it has, or with the number that is out of bounds,
/// as it is shown.
pub proof fn a_viewport_says_what_is_out_of_bounds<F: Fn(Scalar) -> String>(
    show: F,
    e: ViewportError,
    m: String,
)
    requires
        call_ensures(viewport_message::<F>, (e, &show), m),
    ensures
        match e {
            ViewportError::Dimensions { width, height } => exists|a: Seq<char>, b: Seq<char>|
                {
                    &&& #[trigger] is_number(a, width as int)
                    &&& #[trigger] is_number(b, height as int)
                    &&& m@ == "viewport dimensions must be non-zero, got "@ + (a + "x"@ + b)
                },
            ViewportError::Fov(x) => exists|shown: String|
                #[trigger] call_ensures(show, (x,), shown) && m@
                    == "fov_degrees must be in (1, 179), got "@ + shown@,
            ViewportError::BlendWidth(x) => exists|shown: String|
                #[trigger] call_ensures(show, (x,), shown) && m@
                    == "blend_width must be in [0, 1], got "@ + shown@,
        },
{
    if let ViewportError::Dimensions { width, height } = e {
        decimal_is_a_number(width as nat);
        decimal_is_a_number(height as nat);
    }
}

/// An overlay is refused where it has no extent, was designed for none, cannot be addressed,
/// or has not four bytes to the pixel, and it is told which.
pub proof fn an_overlay_says_what_is_wrong(
    f: OverlayFrame,
    r: Result<(), OverlayError>,
    e: OverlayError,
    m: String,
)
    requires
        call_ensures(OverlayFrame::validate, (&f,), r),
        call_ensures(OverlayError::message, (&e,), m),
    ensures
        m@ == "invalid overlay frame: "@ + e->InvalidFrame_0@,
        ({
            let bytes = f.width * f.height * 4;
            let empty = f.width == 0 || f.height == 0;
            let aimless = f.design_size.0 == 0 || f.design_size.1 == 0;
            &&& r is Ok <==> !empty && !aimless && bytes <= u32::MAX && f.rgba@.len() == bytes
            &&& r matches Err(OverlayError::InvalidFrame(s)) ==> if empty {
                s@ == "overlay dimensions must be non-zero"@
            } else if aimless {
                s@ == "overlay design_size must be non-zero"@
            } else if bytes > u32::MAX {
                s@ == "overlay dimensions overflow"@
            } else {
                exists|n: Seq<char>, w: Seq<char>, h: Seq<char>, got: Seq<char>|
                    {
                        &&& #[trigger] is_number(n, bytes)
                        &&& #[trigger] is_number(w, f.width as int)
                        &&& #[trigger] is_number(h, f.height as int)
                        &&& #[trigger] is_number(got, f.rgba@.len() as int)
                        &&& s@ == "expected "@ + n + " RGBA bytes for "@ + (w + "x"@ + h)
                            + ", got "@ + got
                    }
            }
        }),
{
    assert(f.width * f.height >= 0) by (nonlinear_arith)
        requires
            f.width >= 0,
            f.height >= 0,
    ;
    decimal_is_a_number((f.width * f.height * 4) as nat);
    decimal_is_a_number(f.width as nat);
    decimal_is_a_number(f.height as nat);
    decimal_is_a_number(f.rgba@.len());
}

/// A pause takes some time, of which no part is negative or without end; else it is told which
/// part is not, and how long that is as it is shown.
pub proof fn a_pause_takes_some_time(
    fade: Scalar,
    hold: Scalar,
    text: String,
    r: Result<PauseOverlayConfig, PauseConfigError>,
    e: PauseConfigError,
    shown: &str,
    m: String,
)
    requires
        call_ensures(PauseOverlayConfig::new, (fade, hold, text), r),
        call_ensures(PauseConfigError::message, (&e, shown), m),
    ensures
        ({
            let nought = |x: Scalar| x.bits == 0 || x.bits == 0x8000_0000;
            let usable = |x: Scalar| x.bits < 0x7f80_0000 || x.bits == 0x8000_0000;
            &&& r is Ok <==> usable(fade) && usable(hold) && !(nought(fade) && nought(hold))
            &&& r matches Ok(c) ==> c.fade_secs == fade && c.hold_secs == hold && c.text == text
            &&& r matches Err(f) ==> if !usable(fade) {
                f == PauseConfigError::Fade(fade)
            } else if !usable(hold) {
                f == PauseConfigError::Hold(hold)
            } else {
                f == PauseConfigError::NoDuration
            }
        }),
        match e {
            PauseConfigError::Fade(_) => m@ == "pause overlay fade duration ("@ + shown@
                + "s) must be finite and >= 0"@,
            PauseConfigError::Hold(_) => m@ == "pause overlay hold duration ("@ + shown@
                + "s) must be finite and >= 0"@,
            PauseConfigError::NoDuration => m@ == "pause overlay duration must be greater than 0"@,
        },
{
}

/// A row is padded to the next multiple of 256.
pub proof fn a_row_is_padded_to_the_next_multiple(row: u32, p: u32)
    requires
        call_ensures(padded_row, (row,), p),
    ensures
        p % 256 == 0,
        row <= p < row + 256,
{
}

/// A straight image adds its colour by its own alpha to what it leaves of the colour below, and
/// its alpha to what it leaves of the alpha below.
pub proof fn a_straight_image_leaves_what_it_does_not_cover(b: AlphaBlend)
    requires
        call_ensures(straight_alpha_blend, (), b),
    ensures
        b.color.src_factor is SrcAlpha,
        b.alpha.src_factor is One,
        b.color.dst_factor == b.alpha.dst_factor,
        b.alpha.dst_factor is OneMinusSrcAlpha,
{
}

/// A plane's pass reads its own camera's block, and the mask a block of its own.
pub proof fn a_pass_reads_its_own_block(kind: PassKind, b: Option<Block>)
    requires
        call_ensures(block_for, (kind,), b),
    ensures
        b == Some(Block::Left) <==> kind == (PassKind::Plane { camera: CameraId::Left }),
        b == Some(Block::Right) <==> kind == (PassKind::Plane { camera: CameraId::Right }),
        b == Some(Block::Mask) <==> kind is MaskPlane,
{
}

/// A gamma brightens by the power that is one over it, and not at all where it is no positive
/// number.
pub proof fn a_gamma_brightens_by_its_inverse<M: StitchMath>(math: M, gamma: Scalar, e: Scalar)
    requires
        call_ensures(inv_gamma::<M>, (gamma, &math), e),
    ensures
        0 < gamma.bits < 0x7f80_0000 ==> call_ensures(
            M::divided,
            (&math, Scalar { bits: 0x3f80_0000 }, gamma),
            e,
        ),
        !(0 < gamma.bits < 0x7f80_0000) ==> e == (Scalar { bits: 0x3f80_0000 }),
{
}

/// Left to itself a viewport is full HD, seen at 75 degrees and blended over 0.05 of it, level,
/// with the lens corrected in full and the colours matched every fifteen frames, by 0.15 of the
/// way, in a band of 0.15, and by no more than 0.06 of luma and 0.04 of chroma. Colour matching
/// left to itself goes by the same numbers.
pub proof fn a_viewport_left_to_itself(c: ViewportConfig, m: ColorMatchParams)
    requires
        call_ensures(ViewportConfig::default, (), c),
        call_ensures(ColorMatchParams::default, (), m),
    ensures
        is_usable(c),
        c.width == 1920 && c.height == 1080,
        c.fov_degrees.bits == 0x4296_0000,
        !c.blend_flip_direction && !c.multiband_blend_enabled,
        c.rig_tilt.bits == 0 && c.rig_roll.bits == 0,
        c.lens_correction_amount.bits == 0x3f80_0000,
        c.color_match_enabled && c.color_match_interval_frames == 15,
        c.color_match_grid_cols == 8 && c.color_match_grid_rows == 16,
        c.blend_width.bits == 0x3d4c_cccd,
        c.color_match_band_width.bits == 0x3e19_999a,
        c.color_match_ema_alpha.bits == 0x3e19_999a,
        c.color_match_max_y_offset.bits == 0x3d75_c28f,
        c.color_match_max_chroma_offset.bits == 0x3d23_d70a,
        m.band_width == c.color_match_band_width,
        m.grid_cols == c.color_match_grid_cols,
        m.grid_rows == c.color_match_grid_rows,
        m.measure_interval_frames == c.color_match_interval_frames,
        m.ema_alpha == c.color_match_ema_alpha,
        m.max_y_offset == c.color_match_max_y_offset,
        m.max_chroma_offset == c.color_match_max_chroma_offset,
        m.seam_offset.bits == 0,
        m.gamma_left.bits == 0x3f80_0000 && m.gamma_right.bits == 0x3f80_0000,
        !m.blend_flip_direction && !m.auto_gamma,
{
}

/// A size, as it is written.
pub open spec fn is_size(text: Seq<char>, width: u32, height: u32) -> bool {
    exists|w: Seq<char>, h: Seq<char>|
        {
            &&& #[trigger] is_number(w, width as int)
            &&& #[trigger] is_number(h, height as int)
            &&& text == w + "x"@ + h
        }
}

proof fn dims_are_a_size(width: u32, height: u32)
    ensures
        is_size(dims_text(width as nat, height as nat), width, height),
{
    decimal_is_a_number(width as nat);
    decimal_is_a_number(height as nat);
}

/// What is said of pictures that have no extent, or more than can be held.
pub open spec fn says_size(reason: Seq<char>, width: u32, height: u32, max_dim: u32) -> bool {
    exists|size: Seq<char>, limit: Seq<char>|
        {
            &&& #[trigger] is_size(size, width, height)
            &&& #[trigger] is_number(limit, max_dim as int)
            &&& reason == if width == 0 || height == 0 {
                "input dimensions must be > 0, got "@ + size
            } else {
                "input dimensions "@ + size + " exceed MAX_DIM ("@ + limit + ")"@
            }
        }
}

/// A pipeline is refused for its calibration first, then for its viewport, and then for the
/// size of its pictures.
pub proof fn a_pipeline_is_refused_in_order<F: Fn(Scalar) -> String, M: SceneMath>(
    math: M,
    show: F,
    setup: PipelineSetup,
    r: Result<StitchPipeline, PipelineError>,
)
    requires
        call_ensures(StitchPipeline::with_gpu::<F, M>, (setup, &show, &math), r),
    ensures
        setup.calibration_check matches Err(c) ==> r == Err::<StitchPipeline, PipelineError>(
            PipelineError::Calibration(c),
        ),
        setup.calibration_check is Ok ==> {
            let (w, h, most) = (setup.input_width, setup.input_height, setup.max_dim);
            &&& is_usable(setup.viewport) && (w == 0 || h == 0 || w > most || h > most) ==> (
            r matches Err(PipelineError::InvalidConfig { reason }) && says_size(
                reason@,
                w,
                h,
                most,
            ))
            &&& !is_usable(setup.viewport) ==> r is Err && r->Err_0 is InvalidConfig
            &&& is_usable(setup.viewport) && 0 < w <= most && 0 < h <= most ==> r is Ok
        },
{
    dims_are_a_size(setup.input_width, setup.input_height);
    decimal_is_a_number(setup.max_dim as nat);
}

/// What is said where a projection is for another number of cameras than there are lenses.
pub open spec fn says_count(reason: Seq<char>, p: ProjectionInfo, lenses: nat) -> bool {
    exists|cameras: Seq<char>, have: Seq<char>|
        {
            &&& #[trigger] is_number(cameras, p.camera_count as int)
            &&& #[trigger] is_number(have, lenses as int)
            &&& reason == "projection '"@ + p.name@ + "' consumes "@ + cameras
                + " cameras but the calibration has "@ + have + " lenses"@
        }
}

/// An executor in memory takes its settings as they are, and needs a lens for every camera
/// and pictures of two pixels at least either way.
pub proof fn an_executor_in_memory_is_as_it_was_set_up<F: Fn(Scalar) -> String, M: SceneMath>(
    math: M,
    show: F,
    setup: CpuSetup,
    r: Result<CpuExecutor, StitchError>,
)
    requires
        call_ensures(CpuExecutor::new::<F, M>, (setup, &show, &math), r),
    ensures
        r is Ok <==> setup.calibration_check is Ok && is_usable(setup.config)
            && setup.projection.camera_count == setup.calibration.lenses@.len() && setup.cam_w
            >= 2 && setup.cam_h >= 2,
        r matches Ok(x) ==> {
            &&& is_scene_of(math, setup.calibration, x.scene)
            &&& x.projection == setup.projection
            &&& x.calib == setup.calibration
            &&& x.config == setup.config
            &&& x.cam == (setup.cam_w, setup.cam_h)
            &&& x.full_range == setup.full_range
        },
        setup.calibration_check is Ok && is_usable(setup.config) && r is Err ==> {
            &&& r->Err_0 is InvalidConfig
            &&& setup.projection.camera_count != setup.calibration.lenses@.len() ==> says_count(
                r->Err_0->InvalidConfig_0@,
                setup.projection,
                setup.calibration.lenses@.len(),
            )
            &&& setup.projection.camera_count == setup.calibration.lenses@.len() ==> exists|
                size: Seq<char>,
            |
                #[trigger] is_size(size, setup.cam_w, setup.cam_h)
                    && r->Err_0->InvalidConfig_0@ == "source dimensions must be >= 2, got "@ + size
        },
{
    dims_are_a_size(setup.cam_w, setup.cam_h);
    decimal_is_a_number(setup.projection.camera_count as nat);
    decimal_is_a_number(setup.calibration.lenses@.len());
}

/// An executor on the device has the settings of its configuration, and needs a lens for every
/// camera and pictures that the device can hold.
pub proof fn an_executor_on_the_device_is_as_it_was_set_up<
    F: Fn(Scalar) -> String,
    M: SceneMath,
>(
    math: M,
    show: F,
    config: GpuExecutorConfig,
    facts: SetupFacts,
    projection: ProjectionInfo,
    r: Result<GpuExecutor, StitchError>,
)
    requires
        call_ensures(GpuExecutor::new::<F, M>, (config, facts, projection, &show, &math), r),
    ensures
        r is Ok <==> projection.camera_count == config.calibration.lenses@.len()
            && facts.calibration_check is Ok && is_usable(config.viewport) && 0
            < config.input_width <= facts.max_dim && 0 < config.input_height <= facts.max_dim,
        projection.camera_count != config.calibration.lenses@.len() ==> r is Err
            && r->Err_0 is InvalidConfig && says_count(
            r->Err_0->InvalidConfig_0@,
            projection,
            config.calibration.lenses@.len(),
        ),
        r matches Ok(x) ==> {
            let p = x.pipeline;
            &&& x.projection == projection
            &&& x.sync_readback is None
            &&& is_scene_of(math, config.calibration, p.scene)
            &&& p.calibration == config.calibration
            &&& p.viewport == config.viewport
            &&& p.renderer.output_width == config.viewport.width
            &&& p.renderer.output_height == config.viewport.height
            &&& p.renderer.input_width == config.input_width
            &&& p.renderer.input_height == config.input_height
            &&& p.renderer.input_format == config.input_format
            &&& p.renderer.is_full_range == config.full_range
            &&& p.renderer.flip_180 == (false, false)
            &&& p.output_format == config.output_format
            &&& p.color_grade_pass.created <==> !facts.color_grade_identity
            &&& p.sharpen_pass.created <==> !facts.sharpen_identity
            &&& p.overlay is None && p.transition is None && p.band_gather is None
        },
{
    decimal_is_a_number(projection.camera_count as nat);
    decimal_is_a_number(config.calibration.lenses@.len());
}

/// A stitch of another format than the executor was built for is refused by the name of that
/// format.
pub proof fn a_stitch_of_another_format_is_refused(
    x: GpuExecutor,
    r: Result<Option<(u32, u32)>, StitchError>,
)
    requires
        call_ensures(GpuExecutor::begin_stitch, (&x,), r),
    ensures
        r is Err <==> !(x.pipeline.renderer.input_format is Nv12),
        r is Err ==> r->Err_0 is InvalidConfig,
        r is Err && x.pipeline.renderer.input_format is Yuv420p ==> r->Err_0->InvalidConfig_0@
            == "stitch() consumes NV12 planes but the executor was built for "@ + "Yuv420p"@
            + " input"@,
        r is Err && x.pipeline.renderer.input_format is Bgra ==> r->Err_0->InvalidConfig_0@
            == "stitch() consumes NV12 planes but the executor was built for "@ + "Bgra"@
            + " input"@,
{
}

} // verus!
