//! What the device is given: blocks of uniforms word by word, textures, and a pipeline's
//! first state.

use crate::async_detect::CameraId;
use crate::bytes::encodes;
use crate::calibration::Lens;
use crate::color_match::{
    clamp_offset, inv_gamma_base, is_fading_plane, ColorMatchParams, ColorMatchState,
};
use crate::executor::Executor;
use crate::overlay::{OverlayFrame, OverlayPlacement, RgbaOverlayCompositor};
use crate::pipeline::{
    OverlayChange, PassChange, PipelineError, PipelineSetup, StitchPipeline,
};
use crate::planes::{BgraPlanes, Nv12Planes, YuvPlanes};
use crate::renderer::{
    blur_bytes, blur_sigma, blur_width_driver, build_gpu_uniforms, composite_bytes, upload_bgra,
    upload_nv12, upload_yuv, GpuUniforms, GroundTilt, InputMode, LensUniforms, PassKind,
    PlaneWrite, RenderError, StitchMath, TopTilt,
};
use crate::resources::{
    intermediate, plane_textures, quad_vertices, render_target, scratch, vertex_bytes, BindGroup,
    Binding, GpuPixelFormat, InputFormat, PlaneTextures, ShaderProgram, TextureFormat, TextureSpec,
    Vertex,
};
use crate::scalar::Scalar;
use crate::scene::{SceneGeometry, SceneMath, SceneView};
use crate::setting_laws::{is_held, is_scene_of};
use crate::single_camera::SingleCameraRenderer;
use crate::viewport::{ViewportConfig, ViewportError};
use vstd::prelude::*;

verus! {

/// Four numbers stand in some words from a place on.
pub open spec fn stand_at(words: Seq<u32>, at: int, four: [Scalar; 4]) -> bool {
    &&& words[at] == four[0].bits
    &&& words[at + 1] == four[1].bits
    &&& words[at + 2] == four[2].bits
    &&& words[at + 3] == four[3].bits
}

/// A block of uniforms is forty-eight words: the four columns of the transform, the
/// intrinsics, the distortion, the colour scale, the colour offset and blend, the flags, the
/// lens preview, the ground tilt and the top tilt, four words each.
pub proof fn a_block_is_laid_out_in_order(u: GpuUniforms, bytes: Vec<u8>) -> (words: Seq<u32>)
    requires
        call_ensures(GpuUniforms::bytes, (&u,), bytes),
    ensures
        encodes(words, bytes@),
        words.len() == 48,
        bytes@.len() == 192,
        stand_at(words, 0, u.mvp[0]),
        stand_at(words, 4, u.mvp[1]),
        stand_at(words, 8, u.mvp[2]),
        stand_at(words, 12, u.mvp[3]),
        stand_at(words, 16, u.intrinsics),
        stand_at(words, 20, u.dist),
        stand_at(words, 24, u.color_scale),
        stand_at(words, 28, u.color_offset_blend),
        words[32] == u.flags[0],
        words[33] == u.flags[1],
        words[34] == u.flags[2],
        words[35] == u.flags[3],
        stand_at(words, 36, u.lens_preview),
        stand_at(words, 40, u.ground_tilt),
        stand_at(words, 44, u.top_tilt),
{
    u.words()
}

/// A block without a fade: the lens in full, no offsets, colours as they are.
pub proof fn a_plain_block_changes_no_colours(
    mvp: [[Scalar; 4]; 4],
    lens: LensUniforms,
    is_right: bool,
    blend_width: Scalar,
    mode: InputMode,
    ground: GroundTilt,
    top: TopTilt,
    u: GpuUniforms,
)
    requires
        call_ensures(
            build_gpu_uniforms,
            (mvp, &lens, is_right, blend_width, mode, ground, top),
            u,
        ),
    ensures
        is_plain_block(u, mvp, lens, is_right, blend_width, mode, ground, top),
{
    plain_block(u, mvp, lens, is_right, blend_width, mode, ground, top);
}

pub open spec fn is_plain_block(
    u: GpuUniforms,
    mvp: [[Scalar; 4]; 4],
    lens: LensUniforms,
    is_right: bool,
    blend_width: Scalar,
    mode: InputMode,
    ground: GroundTilt,
    top: TopTilt,
) -> bool {
    let zero = Scalar { bits: 0 };
    let one = Scalar { bits: 0x3f80_0000 };
    &&& u.mvp == mvp
    &&& u.intrinsics == lens.intrinsics
    &&& u.dist == lens.dist
    &&& u.color_scale[0] == one
    &&& u.color_scale[1] == one
    &&& u.color_scale[2] == one
    &&& u.color_scale[3] == one
    &&& u.color_offset_blend[0] == zero
    &&& u.color_offset_blend[1] == zero
    &&& u.color_offset_blend[2] == zero
    &&& u.color_offset_blend[3] == blend_width
    &&& u.flags[0] == if is_right {
        1u32
    } else {
        0
    }
    &&& u.flags[1] == match mode.format {
        InputFormat::Yuv420p => 0u32,
        InputFormat::Nv12 => 1,
        InputFormat::Bgra => 2,
    }
    &&& u.flags[2] == if mode.flip_180 {
        1u32
    } else {
        0
    }
    &&& u.flags[3] == if mode.full_range {
        1u32
    } else {
        0
    }
    &&& u.lens_preview[0] == one
    &&& u.lens_preview[1] == zero
    &&& u.lens_preview[2] == zero
    &&& u.lens_preview[3] == zero
    &&& u.ground_tilt[0] == ground.tilt
    &&& u.ground_tilt[1] == ground.k
    &&& u.ground_tilt[2] == lens.aspect
    &&& u.ground_tilt[3] == zero
    &&& u.top_tilt[0] == top.tilt
    &&& u.top_tilt[1] == top.k
    &&& u.top_tilt[2] == ground.band_full
    &&& u.top_tilt[3] == top.band_full
}

proof fn plain_block(
    u: GpuUniforms,
    mvp: [[Scalar; 4]; 4],
    lens: LensUniforms,
    is_right: bool,
    blend_width: Scalar,
    mode: InputMode,
    ground: GroundTilt,
    top: TopTilt,
)
    requires
        crate::renderer::is_plane_block(
            u,
            crate::renderer::PlaneInputs {
                mvp,
                lens,
                ground,
                top,
                correction: Scalar { bits: crate::scalar::ONE },
            },
            is_right,
            mode,
            crate::color_match::no_offset(),
            Scalar { bits: crate::scalar::ONE },
            crate::renderer::PassRole {
                fade: Scalar { bits: crate::scalar::ZERO },
                blend_width,
                seam_line: Scalar { bits: crate::scalar::ZERO },
                seam_offset: Scalar { bits: crate::scalar::ZERO },
            },
        ),
    ensures
        is_plain_block(u, mvp, lens, is_right, blend_width, mode, ground, top),
{
    assert(u.color_scale@[0] == u.color_scale[0] && u.color_scale@[1] == u.color_scale[1]
        && u.color_scale@[2] == u.color_scale[2] && u.color_scale@[3] == u.color_scale[3]);
}

/// A single camera is seen straight ahead through its own lens, without tilt, fade, seam or
/// correction of colours, in the aspect of the picture that is evaluated.
pub proof fn a_single_camera_is_seen_straight_ahead<M: StitchMath>(
    math: M,
    s: SingleCameraRenderer,
    scene: SceneGeometry,
    lens: Lens,
    is_right: bool,
    fov: Scalar,
    u: GpuUniforms,
) -> (r: (Scalar, LensUniforms))
    requires
        call_ensures(
            SingleCameraRenderer::uniforms::<M>,
            (&s, &scene, &lens, is_right, fov, &math),
            u,
        ),
    ensures
        ({
            let (aspect, l) = r;
            let zero = Scalar { bits: 0 };
            let level = GroundTilt { tilt: zero, k: zero, band_full: zero };
            let above = TopTilt { tilt: zero, k: zero, band_full: zero };
            &&& call_ensures(M::ratio, (&math, s.eval_width, s.eval_height), aspect)
            &&& call_ensures(
                M::transform,
                (
                    &math,
                    &scene,
                    if is_right {
                        CameraId::Right
                    } else {
                        CameraId::Left
                    },
                    SceneView {
                        yaw: zero,
                        pitch: zero,
                        tilt: zero,
                        roll: zero,
                        fov_degrees: fov,
                        aspect,
                    },
                ),
                u.mvp,
            )
            &&& is_lens_of(math, lens, l)
            &&& is_plain_block(
                u,
                u.mvp,
                l,
                is_right,
                zero,
                InputMode { format: InputFormat::Yuv420p, flip_180: false, full_range: false },
                level,
                above,
            )
        }),
{
    let (aspect, l) = choose|aspect: Scalar, l: LensUniforms|
        {
            &&& #[trigger] call_ensures(M::ratio, (&math, s.eval_width, s.eval_height), aspect)
            &&& #[trigger] crate::renderer::normalized_lens(math, lens, l)
            &&& call_ensures(
                M::transform,
                (
                    &math,
                    &scene,
                    crate::single_camera::camera_of(is_right),
                    crate::single_camera::straight_ahead(fov, aspect),
                ),
                u.mvp,
            )
            &&& crate::renderer::is_plane_block(
                u,
                crate::renderer::PlaneInputs {
                    mvp: u.mvp,
                    lens: l,
                    ground: crate::single_camera::level_ground(),
                    top: crate::single_camera::level_top(),
                    correction: Scalar { bits: crate::scalar::ONE },
                },
                is_right,
                InputMode { format: InputFormat::Yuv420p, flip_180: false, full_range: false },
                crate::color_match::no_offset(),
                Scalar { bits: crate::scalar::ONE },
                crate::renderer::PassRole {
                    fade: Scalar { bits: crate::scalar::ZERO },
                    blend_width: Scalar { bits: crate::scalar::ZERO },
                    seam_line: Scalar { bits: crate::scalar::ZERO },
                    seam_offset: Scalar { bits: crate::scalar::ZERO },
                },
            )
        };
    plain_block(
        u,
        u.mvp,
        l,
        is_right,
        Scalar { bits: crate::scalar::ZERO },
        InputMode { format: InputFormat::Yuv420p, flip_180: false, full_range: false },
        crate::single_camera::level_ground(),
        crate::single_camera::level_top(),
    );
    (aspect, l)
}

/// A lens as the shader takes it: its focal lengths and its centre as parts of its picture,
/// its distortion and its aspect.
pub open spec fn is_lens_of<M: StitchMath>(math: M, lens: Lens, l: LensUniforms) -> bool {
    &&& crate::stitch_laws::is_part_of(math, lens.fx, lens.width, l.intrinsics[0])
    &&& crate::stitch_laws::is_part_of(math, lens.fy, lens.height, l.intrinsics[1])
    &&& crate::stitch_laws::is_part_of(math, lens.cx, lens.width, l.intrinsics[2])
    &&& crate::stitch_laws::is_part_of(math, lens.cy, lens.height, l.intrinsics[3])
    &&& call_ensures(M::narrow, (&math, lens.distortion[0]), l.dist[0])
    &&& call_ensures(M::narrow, (&math, lens.distortion[1]), l.dist[1])
    &&& call_ensures(M::narrow, (&math, lens.distortion[2]), l.dist[2])
    &&& call_ensures(M::narrow, (&math, lens.distortion[3]), l.dist[3])
    &&& call_ensures(M::ratio, (&math, lens.width, lens.height), l.aspect)
}

pub proof fn a_lens_is_given_in_parts_of_its_picture<M: StitchMath>(
    math: M,
    lens: Lens,
    l: LensUniforms,
)
    requires
        call_ensures(LensUniforms::of::<M>, (&lens, &math), l),
    ensures
        is_lens_of(math, lens, l),
{
}

/// A blur is told the size of a pixel, its one direction, how far it spreads, and whether to
/// weight the colours.
pub proof fn a_blur_goes_one_way(
    texel: [Scalar; 2],
    sigma: Scalar,
    kind: PassKind,
    bytes: Vec<u8>,
) -> (words: Seq<u32>)
    requires
        call_ensures(blur_bytes, (texel, sigma, kind), bytes),
    ensures
        encodes(words, bytes@),
        words.len() == 8,
        words[0] == texel[0].bits,
        words[1] == texel[1].bits,
        kind is BlurHorizontal ==> words[2] == 0x3f80_0000 && words[3] == 0,
        kind is BlurVertical ==> words[2] == 0 && words[3] == 0x3f80_0000,
        words[4] == sigma.bits,
        kind matches PassKind::BlurHorizontal { premultiply, .. } ==> words[5] == if premultiply {
            0x3f80_0000u32
        } else {
            0
        },
        kind matches PassKind::BlurVertical { premultiply, .. } ==> words[5] == if premultiply {
            0x3f80_0000u32
        } else {
            0
        },
{
    seq![
        texel[0].bits,
        texel[1].bits,
        crate::renderer::unit(kind is BlurHorizontal).bits,
        crate::renderer::unit(kind is BlurVertical).bits,
        sigma.bits,
        crate::renderer::unit(
            match kind {
                PassKind::BlurHorizontal { premultiply, .. } => premultiply,
                PassKind::BlurVertical { premultiply, .. } => premultiply,
                _ => false,
            },
        ).bits,
        crate::scalar::ZERO,
        crate::scalar::ZERO,
    ]
}

/// The composite is told whether the right plane fades, and a softness of 0.04.
pub proof fn a_composite_knows_which_plane_fades(fading: CameraId, bytes: Vec<u8>) -> (words: Seq<
    u32,
>)
    requires
        call_ensures(composite_bytes, (fading,), bytes),
    ensures
        encodes(words, bytes@),
        words.len() == 4,
        fading == CameraId::Right ==> words[0] == 0x3f80_0000,
        fading == CameraId::Left ==> words[0] == 0,
        words[1] == 0x3d23_d70a,
{
    seq![
        crate::renderer::unit(fading == CameraId::Right).bits,
        crate::renderer::COMPOSITE_SOFTNESS,
        crate::scalar::ZERO,
        crate::scalar::ZERO,
    ]
}

/// A blur is held between two and ten pixels. It goes by the blend's width, or by that of the
/// colour matching's band where that is on and wider.
pub proof fn a_blur_is_held(
    wanted: Scalar,
    s: Scalar,
    on: bool,
    blend: Scalar,
    band: Scalar,
    w: Scalar,
)
    requires
        call_ensures(blur_sigma, (wanted,), s),
        call_ensures(blur_width_driver, (on, blend, band), w),
    ensures
        is_held(wanted, Scalar { bits: 0x4000_0000 }, Scalar { bits: 0x4120_0000 }, s),
        !on ==> w == blend,
        on ==> w == blend || w == band,
        on && !blend.spec_is_nan() && !band.spec_is_nan() ==> blend.at_most(w) && band.at_most(w),
{
}

/// Every picture is bound as three textures that can be written and read: the first holds
/// whole pixels, chroma is at half the size, and what a format lacks is a single pixel.
pub proof fn textures_hold_their_planes(
    format: InputFormat,
    width: u32,
    height: u32,
    t: PlaneTextures,
)
    requires
        call_ensures(plane_textures, (format, width, height), t),
    ensures
        is_sampled(t.first.1, width, height),
        t.first.1.format == if format is Bgra {
            TextureFormat::Rgba8Unorm
        } else {
            TextureFormat::R8Unorm
        },
        format is Yuv420p ==> {
            &&& t.first.0 is Y
            &&& t.second.0 is U
            &&& t.third.0 is V
            &&& is_sampled(t.second.1, width / 2, height / 2)
            &&& is_sampled(t.third.1, width / 2, height / 2)
            &&& t.second.1.format is R8Unorm
            &&& t.third.1.format is R8Unorm
        },
        format is Nv12 ==> {
            &&& t.first.0 is Y
            &&& t.second.0 is Uv
            &&& is_sampled(t.second.1, width / 2, height / 2)
            &&& t.second.1.format is Rg8Unorm
            &&& is_sampled(t.third.1, 1, 1)
        },
        format is Bgra ==> {
            &&& t.first.0 is Rgba
            &&& is_sampled(t.second.1, 1, 1)
            &&& is_sampled(t.third.1, 1, 1)
        },
{
}

pub open spec fn is_sampled(t: TextureSpec, width: u32, height: u32) -> bool {
    &&& t.width == width
    &&& t.height == height
    &&& t.usage.binding
    &&& t.usage.copy_dst
    &&& !t.usage.attachment
    &&& !t.usage.storage
}

/// What is drawn to can be read afterwards, and the target can be copied from.
pub proof fn targets_can_be_read(
    width: u32,
    height: u32,
    format: TextureFormat,
    target: TextureSpec,
    between: TextureSpec,
    computed: TextureSpec,
)
    requires
        call_ensures(render_target, (width, height, format), target),
        call_ensures(intermediate, (width, height, format), between),
        call_ensures(scratch, (width, height), computed),
    ensures
        target.width == width && target.height == height && target.format == format,
        target.usage.attachment && target.usage.binding && target.usage.copy_src,
        between.width == width && between.height == height && between.format == format,
        between.usage.attachment && between.usage.binding && !between.usage.copy_src,
        computed.width == width && computed.height == height,
        computed.format is Rgba8Unorm,
        computed.usage.storage && computed.usage.copy_src && !computed.usage.attachment,
{
}

/// A new pipeline has the settings that it was given, the scene of its calibration, nothing
/// drawn over it, and its first measurement due.
pub proof fn a_new_pipeline_is_as_it_was_set_up<F: Fn(Scalar) -> String, M: SceneMath>(
    math: M,
    show: F,
    setup: PipelineSetup,
    r: Result<StitchPipeline, PipelineError>,
)
    requires
        call_ensures(StitchPipeline::with_gpu::<F, M>, (setup, &show, &math), r),
    ensures
        r is Ok <==> setup.calibration_check is Ok && is_usable(setup.viewport)
            && setup.input_width > 0 && setup.input_height > 0 && setup.input_width
            <= setup.max_dim && setup.input_height <= setup.max_dim,
        r matches Ok(p) ==> {
            &&& is_scene_of(math, setup.calibration, p.scene)
            &&& p.calibration == setup.calibration
            &&& p.viewport == setup.viewport
            &&& !p.show_seam_line
            &&& p.renderer.output_width == setup.viewport.width
            &&& p.renderer.output_height == setup.viewport.height
            &&& p.renderer.input_width == setup.input_width
            &&& p.renderer.input_height == setup.input_height
            &&& p.renderer.input_format == setup.input_format
            &&& !p.renderer.is_full_range
            &&& p.renderer.flip_180 == (false, false)
            &&& p.renderer.multiband_size == (setup.viewport.width, setup.viewport.height)
            &&& p.color_match.frames_since_measure == 0xffff_fffe
            &&& p.band_gather is None
            &&& p.overlay is None
            &&& p.transition is None
            &&& p.color_grade_pass.created <==> !setup.color_grade_identity
            &&& p.sharpen_pass.created <==> !setup.sharpen_identity
        },
{
}

/// A viewport with some extent, seen at one degree or more and less than 179, and blended
/// over none to all of it.
pub open spec fn is_usable(v: ViewportConfig) -> bool {
    &&& v.width > 0
    &&& v.height > 0
    &&& (Scalar { bits: 0x3f80_0000 }).at_most(v.fov_degrees)
    &&& v.fov_degrees.below(Scalar { bits: 0x4333_0000 })
    &&& (Scalar { bits: 0 }).at_most(v.blend_width)
    &&& v.blend_width.at_most(Scalar { bits: 0x3f80_0000 })
}

pub proof fn a_viewport_is_checked(v: ViewportConfig, r: Result<(), ViewportError>)
    requires
        call_ensures(ViewportConfig::validate, (&v,), r),
    ensures
        r is Ok <==> is_usable(v),
        r matches Err(ViewportError::Dimensions { width, height }) ==> width == v.width && height
            == v.height && (width == 0 || height == 0),
        r matches Err(ViewportError::Fov(x)) ==> x == v.fov_degrees && v.width > 0 && v.height > 0,
        r matches Err(ViewportError::BlendWidth(x)) ==> x == v.blend_width && v.width > 0
            && v.height > 0,
{
}

/// A frame is shown as the overlay where the overlay was last placed, and as the transition
/// in the middle. A frame that is not whole changes nothing.
pub proof fn a_frame_is_shown_in_its_place()
    ensures
        forall|p: &mut StitchPipeline, f: &OverlayFrame, r: Result<OverlayChange, PipelineError>|
            #[trigger]
            call_ensures(StitchPipeline::set_overlay_frame, (p, f), r) ==> {
                &&& r is Ok <==> crate::plane_laws::is_whole_frame(*f)
                &&& r is Err ==> *final(p) == *p
                &&& r matches Ok(change) ==> is_upload_of(p.overlay, *f, change)
                &&& r is Ok ==> (final(p).overlay matches Some(c) && shows_frame(
                    p.overlay,
                    c,
                    *f,
                    (p.viewport.width, p.viewport.height),
                    p.overlay_placement,
                ))
                &&& final(p).transition == p.transition
                &&& final(p).overlay_placement == p.overlay_placement
            },
        forall|p: &mut StitchPipeline, f: &OverlayFrame, r: Result<OverlayChange, PipelineError>|
            #[trigger]
            call_ensures(StitchPipeline::set_transition_frame, (p, f), r) ==> {
                &&& r is Ok <==> crate::plane_laws::is_whole_frame(*f)
                &&& r is Err ==> *final(p) == *p
                &&& r matches Ok(change) ==> is_upload_of(p.transition, *f, change)
                &&& r is Ok ==> (final(p).transition matches Some(c) && shows_frame(
                    p.transition,
                    c,
                    *f,
                    (p.viewport.width, p.viewport.height),
                    OverlayPlacement {
                        offset: (Scalar { bits: 0 }, Scalar { bits: 0 }),
                        scale: Scalar { bits: 0x3f80_0000 },
                    },
                ))
                &&& final(p).overlay == p.overlay
            },
        forall|p: &mut StitchPipeline, at: OverlayPlacement| #[trigger]
            call_ensures(StitchPipeline::set_overlay_placement, (p, at), ()) ==> {
                &&& final(p).overlay_placement == at
                &&& final(p).overlay is Some <==> p.overlay is Some
                &&& final(p).overlay matches Some(c) ==> c.placement == at && c.opacity
                    == p.overlay->0.opacity
                &&& final(p).transition == p.transition
            },
        forall|p: &mut StitchPipeline| #[trigger]
            call_ensures(StitchPipeline::clear_overlay, (p,), ()) ==> final(p).overlay is None
                && final(p).transition == p.transition,
        forall|p: &mut StitchPipeline| #[trigger]
            call_ensures(StitchPipeline::clear_transition, (p,), ()) ==> final(p).transition is None
                && final(p).overlay == p.overlay,
{
    assert forall|f: &OverlayFrame| #[trigger]
        crate::plane_laws::is_whole_frame(*f) implies f.width * 4 <= u32::MAX by {
        assert(f.width * 4 <= f.width * f.height * 4) by (nonlinear_arith)
            requires
                f.height >= 1,
                f.width >= 0,
        ;
    }
}

/// A frame is uploaded in full, four bytes to the pixel. The texture is made anew where it has
/// another size, and the parameters are written where the design has.
pub open spec fn is_upload_of(
    before: Option<RgbaOverlayCompositor>,
    f: OverlayFrame,
    change: OverlayChange,
) -> bool {
    let plan = match change {
        OverlayChange::Created(plan) => plan,
        OverlayChange::Uploaded(plan) => plan,
    };
    &&& change is Created <==> before is None
    &&& plan.width == f.width
    &&& plan.height == f.height
    &&& plan.bytes_per_row == f.width * 4
    &&& before matches Some(c) ==> {
        &&& plan.recreate_texture <==> c.texture_size != (f.width, f.height)
        &&& plan.write_params <==> c.reference_size != f.design_size
    }
}

pub open spec fn shows_frame(
    before: Option<RgbaOverlayCompositor>,
    c: RgbaOverlayCompositor,
    f: OverlayFrame,
    output: (u32, u32),
    placement: OverlayPlacement,
) -> bool {
    &&& c.texture_size == (f.width, f.height)
    &&& c.reference_size == f.design_size
    &&& before is None ==> c.output_size == output && c.placement == placement && c.opacity == (
    Scalar { bits: 0x3f80_0000 })
    &&& before matches Some(b) ==> c.output_size == b.output_size && c.placement == b.placement
        && c.opacity == b.opacity
}

/// A gamma that is not a positive number counts as one.
pub proof fn a_gamma_is_positive(gamma: Scalar, g: Scalar)
    requires
        call_ensures(inv_gamma_base, (gamma,), g),
    ensures
        0 < gamma.bits < 0x7f80_0000 ==> g == gamma,
        !(0 < gamma.bits < 0x7f80_0000) ==> g == (Scalar { bits: 0x3f80_0000 }),
{
}

/// The right plane fades, unless the direction is flipped.
pub proof fn the_right_plane_fades_unless_flipped(is_right: bool, flip: bool, r: bool)
    requires
        call_ensures(is_fading_plane, (is_right, flip), r),
    ensures
        !flip ==> r == is_right,
        flip ==> r == !is_right,
{
}

/// Luma and chroma are held within limits of their own.
pub proof fn offsets_are_held_by_component(
    o: [Scalar; 3],
    params: ColorMatchParams,
    r: [Scalar; 3],
)
    requires
        params.bounded(),
        call_ensures(clamp_offset, (o, &params), r),
    ensures
        is_held(o[0], params.max_y_offset.spec_negated(), params.max_y_offset, r[0]),
        is_held(o[1], params.max_chroma_offset.spec_negated(), params.max_chroma_offset, r[1]),
        is_held(o[2], params.max_chroma_offset.spec_negated(), params.max_chroma_offset, r[2]),
{
}

/// A measurement is due once as many frames have passed as the interval says, counting the
/// frame that asks. Asking counts; issuing starts anew; forcing makes the next one due.
pub proof fn a_measurement_is_due_by_the_interval()
    ensures
        forall|s: &mut ColorMatchState, due: bool| #[trigger]
            call_ensures(ColorMatchState::measurement_due, (s,), due) ==> {
                &&& s.frames_since_measure < u32::MAX ==> final(s).frames_since_measure
                    == s.frames_since_measure + 1
                &&& due <==> final(s).frames_since_measure >= s.interval
                &&& final(s).left_offset == s.left_offset
                &&& final(s).right_offset == s.right_offset
                &&& final(s).interval == s.interval
            },
        forall|s: &mut ColorMatchState| #[trigger]
            call_ensures(ColorMatchState::measurement_issued, (s,), ()) ==> {
                &&& final(s).frames_since_measure == 0
                &&& final(s).left_offset == s.left_offset
                &&& final(s).interval == s.interval
            },
        forall|s: &mut ColorMatchState| #[trigger]
            call_ensures(ColorMatchState::force_remeasure, (s,), ()) ==> {
                &&& final(s).frames_since_measure == 0xffff_fffe
                &&& final(s).left_offset == s.left_offset
                &&& final(s).right_offset == s.right_offset
            },
        forall|s: &mut ColorMatchState, n: u32| #[trigger]
            call_ensures(ColorMatchState::set_interval, (s, n), ()) ==> {
                &&& final(s).interval == n
                &&& final(s).frames_since_measure == s.frames_since_measure
            },
{
}

/// What is wrong with a plane of another size than it must have.
pub open spec fn is_misfit(e: RenderError, plane: Seq<u8>, expected: int) -> bool {
    &&& plane.len() != expected
    &&& e == RenderError::FrameSizeMismatch {
        expected: expected as usize,
        actual: plane.len() as usize,
    }
}

/// A plane is written row by row, without gaps.
pub open spec fn is_written(w: PlaneWrite, width: u32, height: u32, row: int) -> bool {
    w.width == width && w.height == height && w.bytes_per_row == row
}

/// A planar picture is written when luma has a byte for every pixel and both chroma planes
/// one for every four; else the first plane that does not fit is told.
pub proof fn planar_pictures_are_written_whole(
    width: u32,
    height: u32,
    p: YuvPlanes<'_>,
    r: Result<(PlaneWrite, PlaneWrite), RenderError>,
)
    requires
        width * height <= u32::MAX,
        call_ensures(upload_yuv, (width, height, &p), r),
    ensures
        ({
            let luma = width * height;
            let chroma = (width / 2) * (height / 2);
            &&& r is Ok <==> p.y@.len() == luma && p.u@.len() == chroma && p.v@.len() == chroma
            &&& r matches Ok((y, c)) ==> is_written(y, width, height, width as int) && is_written(
                c,
                width / 2,
                height / 2,
                width as int / 2,
            )
            &&& r matches Err(e) ==> if p.y@.len() != luma {
                is_misfit(e, p.y@, luma)
            } else if p.u@.len() != chroma {
                is_misfit(e, p.u@, chroma)
            } else {
                is_misfit(e, p.v@, chroma)
            }
        }),
{
}

/// The same where blue and red chroma are side by side.
pub proof fn interleaved_pictures_are_written_whole(
    width: u32,
    height: u32,
    p: Nv12Planes<'_>,
    r: Result<(PlaneWrite, PlaneWrite), RenderError>,
)
    requires
        width * height <= u32::MAX,
        call_ensures(upload_nv12, (width, height, &p), r),
    ensures
        ({
            let luma = width * height;
            let chroma = (width / 2) * (height / 2) * 2;
            &&& r is Ok <==> p.y@.len() == luma && p.uv@.len() == chroma
            &&& r matches Ok((y, c)) ==> is_written(y, width, height, width as int) && is_written(
                c,
                width / 2,
                height / 2,
                2 * (width as int / 2),
            )
            &&& r matches Err(e) ==> if p.y@.len() != luma {
                is_misfit(e, p.y@, luma)
            } else {
                is_misfit(e, p.uv@, chroma)
            }
        }),
{
}

/// The same of four bytes to the pixel.
pub proof fn pictures_of_four_bytes_are_written_whole(
    width: u32,
    height: u32,
    p: BgraPlanes<'_>,
    r: Result<PlaneWrite, RenderError>,
)
    requires
        width * height * 4 <= u32::MAX,
        width * 4 <= u32::MAX,
        call_ensures(upload_bgra, (width, height, &p), r),
    ensures
        r is Ok <==> p.rgba@.len() == width * height * 4,
        r matches Ok(w) ==> is_written(w, width, height, 4 * width),
        r matches Err(e) ==> is_misfit(e, p.rgba@, width * height * 4),
{
}

/// A single camera's planes are written whole: luma in full, chroma at half the size.
pub proof fn a_single_camera_is_written_whole(
    s: SingleCameraRenderer,
    w: (PlaneWrite, PlaneWrite),
)
    requires
        call_ensures(SingleCameraRenderer::plane_writes, (&s,), w),
    ensures
        is_written(w.0, s.input_width, s.input_height, s.input_width as int),
        is_written(w.1, s.input_width / 2, s.input_height / 2, s.input_width as int / 2),
{
}

/// A format of ten bits takes two bytes where one of eight takes one, in luma as in chroma.
pub proof fn formats_agree_on_their_depth(
    f: GpuPixelFormat,
    y: TextureFormat,
    uv: TextureFormat,
    both: TextureFormat,
    n: usize,
)
    requires
        call_ensures(GpuPixelFormat::y_format, (f,), y),
        call_ensures(GpuPixelFormat::uv_format, (f,), uv),
        call_ensures(GpuPixelFormat::wgpu_format, (f,), both),
        call_ensures(GpuPixelFormat::bytes_per_sample, (f,), n),
    ensures
        n == 1 || n == 2,
        f is P010 <==> n == 2,
        n == 1 <==> y is R8Unorm,
        n == 2 <==> y is R16Unorm,
        n == 1 <==> uv is Rg8Unorm,
        n == 2 <==> uv is Rg16Unorm,
        n == 1 <==> both is Nv12,
        n == 2 <==> both is P010,
{
}

/// A plane is two triangles that share the corners at its lower left and upper right. A
/// corner's place in the picture is its place on the plane: the left edge, half a unit from
/// the middle, is where the picture's left edge is, and the top is where its top is.
pub proof fn a_plane_is_two_triangles<M: SceneMath>(
    math: M,
    aspect: Scalar,
    vs: Vec<Vertex>,
) -> (half_height: Scalar)
    requires
        call_ensures(quad_vertices::<M>, (aspect, &math), vs),
    ensures
        call_ensures(
            M::divided,
            (&math, Scalar { bits: 0x3f00_0000 }, aspect),
            half_height,
        ),
        vs@.len() == 6,
        forall|i: int| 0 <= i < 6 ==> is_corner(#[trigger] vs@[i], half_height),
        is_at(vs@[0], true, false),
        is_at(vs@[1], false, false),
        is_at(vs@[2], false, true),
        is_at(vs@[3], true, false),
        is_at(vs@[4], false, true),
        is_at(vs@[5], true, true),
{
    let h = choose|half_height: Scalar|
        {
            &&& #[trigger] call_ensures(
                M::divided,
                (&math, Scalar { bits: crate::scalar::HALF }, aspect),
                half_height,
            )
            &&& crate::resources::corner_words(vs@, 6) == crate::resources::quad_words(half_height)
        };
    let words = crate::resources::quad_words(h);
    corners_are_in_order(vs@, 6);
    assert forall|i: int| 0 <= i < 6 implies is_corner(#[trigger] vs@[i], h) by {
        assert(vs@[i].position[0].bits == words[5 * i]);
        assert(vs@[i].position[1].bits == words[5 * i + 1]);
        assert(vs@[i].position[2].bits == words[5 * i + 2]);
        assert(vs@[i].uv[0].bits == words[5 * i + 3]);
        assert(vs@[i].uv[1].bits == words[5 * i + 4]);
        if i == 0 {
        } else if i == 1 {
        } else if i == 2 {
        } else if i == 3 {
        } else if i == 4 {
        } else {
        }
    }
    assert(vs@[0].uv[0].bits == words[3] && vs@[0].uv[1].bits == words[4]);
    assert(vs@[1].uv[0].bits == words[8] && vs@[1].uv[1].bits == words[9]);
    assert(vs@[2].uv[0].bits == words[13] && vs@[2].uv[1].bits == words[14]);
    assert(vs@[3].uv[0].bits == words[18] && vs@[3].uv[1].bits == words[19]);
    assert(vs@[4].uv[0].bits == words[23] && vs@[4].uv[1].bits == words[24]);
    assert(vs@[5].uv[0].bits == words[28] && vs@[5].uv[1].bits == words[29]);
    h
}

/// The corner shows the picture's corner at the left or right and at the top or bottom.
pub open spec fn is_at(v: Vertex, left: bool, top: bool) -> bool {
    &&& v.uv[0] == if left {
        Scalar { bits: 0 }
    } else {
        Scalar { bits: 0x3f80_0000 }
    }
    &&& v.uv[1] == if top {
        Scalar { bits: 0 }
    } else {
        Scalar { bits: 0x3f80_0000 }
    }
}

/// A corner of a plane stands where the picture's corner that it shows belongs.
pub open spec fn is_corner(v: Vertex, half_height: Scalar) -> bool {
    &&& v.position[0] == if v.uv[0].bits == 0 {
        Scalar { bits: 0xbf00_0000 }
    } else {
        Scalar { bits: 0x3f00_0000 }
    }
    &&& v.position[1] == if v.uv[1].bits == 0 {
        half_height
    } else {
        half_height.spec_negated()
    }
    &&& v.position[2] == (Scalar { bits: 0 })
}

proof fn corners_are_in_order(vs: Seq<Vertex>, n: nat)
    ensures
        crate::resources::corner_words(vs, n).len() == 5 * n,
        forall|i: int|
            0 <= i < n ==> {
                let words = crate::resources::corner_words(vs, n);
                &&& words[5 * i] == (#[trigger] vs[i]).position[0].bits
                &&& words[5 * i + 1] == vs[i].position[1].bits
                &&& words[5 * i + 2] == vs[i].position[2].bits
                &&& words[5 * i + 3] == vs[i].uv[0].bits
                &&& words[5 * i + 4] == vs[i].uv[1].bits
            },
    decreases n,
{
    if n > 0 {
        corners_are_in_order(vs, (n - 1) as nat);
    }
}

/// Vertices are laid out one after the other, five words each: where it is, and which place
/// of the picture it shows.
pub proof fn vertices_are_laid_out_in_order(vs: Vec<Vertex>, bytes: Vec<u8>) -> (words: Seq<u32>)
    requires
        call_ensures(vertex_bytes, (&vs,), bytes),
    ensures
        encodes(words, bytes@),
        words.len() == 5 * vs@.len(),
        forall|i: int|
            0 <= i < vs@.len() ==> {
                &&& words[5 * i] == (#[trigger] vs@[i]).position[0].bits
                &&& words[5 * i + 1] == vs@[i].position[1].bits
                &&& words[5 * i + 2] == vs@[i].position[2].bits
                &&& words[5 * i + 3] == vs@[i].uv[0].bits
                &&& words[5 * i + 4] == vs@[i].uv[1].bits
            },
{
    corners_are_in_order(vs@, vs@.len());
    crate::resources::corner_words(vs@, vs@.len())
}

/// Every program that draws a camera's picture finds its planes and then their sampler, and
/// the uniforms in the next group.
pub proof fn programs_find_what_they_read(
    planes: Vec<Binding>,
    uniforms: Vec<Binding>,
    blur: Vec<Binding>,
    composite: Vec<Binding>,
    gather: Vec<Binding>,
    overlay: Vec<Binding>,
)
    requires
        call_ensures(BindGroup::bindings, (BindGroup::Planes,), planes),
        call_ensures(BindGroup::bindings, (BindGroup::Uniforms,), uniforms),
        call_ensures(BindGroup::bindings, (BindGroup::BlurSource,), blur),
        call_ensures(BindGroup::bindings, (BindGroup::CompositeSources,), composite),
        call_ensures(BindGroup::bindings, (BindGroup::Gather,), gather),
        call_ensures(BindGroup::bindings, (BindGroup::Overlay,), overlay),
    ensures
        is_textures_and_sampler(planes@, 3),
        is_textures_and_sampler(blur@, 1),
        is_textures_and_sampler(composite@, 5),
        uniforms@.len() == 1 && uniforms@[0] is Uniform,
        gather@.len() == 5 && gather@[0] is Texture && gather@[1] is Texture,
        gather@[2] is StorageRead && gather@[3] is StorageWrite && gather@[4] is Uniform,
        overlay@.len() == 3 && overlay@[0] is Texture && overlay@[1] is Sampler,
        overlay@[2] is Uniform,
{
}

pub open spec fn is_textures_and_sampler(b: Seq<Binding>, n: int) -> bool {
    &&& b.len() == n + 1
    &&& forall|i: int| 0 <= i < n ==> #[trigger] b[i] is Texture
    &&& b[n] is Sampler
}

/// A program reads what it is for, and its uniforms, if it has any, in the next group. The
/// gather alone draws nothing.
pub proof fn programs_read_their_groups(p: ShaderProgram, g: Vec<BindGroup>, n: u32)
    requires
        call_ensures(ShaderProgram::groups, (p,), g),
        call_ensures(ShaderProgram::vertices, (p,), n),
    ensures
        p is Plane <==> g@[0] is Planes,
        p is Blur <==> g@[0] is BlurSource,
        p is Composite <==> g@[0] is CompositeSources,
        p is Overlay <==> g@[0] is Overlay,
        p is Gather <==> g@[0] is Gather,
        p is Plane || p is Blur || p is Composite ==> g@.len() == 2 && g@[1] is Uniforms,
        p is Overlay || p is Gather ==> g@.len() == 1,
        n == 0 <==> p is Gather,
        p is Plane ==> n == 6,
        !(p is Plane) && !(p is Gather) ==> n == 3,
{
}

/// A colour grade is read back as it was set, is active where it changes something, and
/// leaves all other settings alone.
pub proof fn a_colour_grade_is_read_back()
    ensures
        forall|
            p: &mut StitchPipeline,
            brightness: Scalar,
            saturation: Scalar,
            gamma: Scalar,
            identity: bool,
            change: PassChange,
        | #[trigger]
            call_ensures(
                StitchPipeline::set_color_grade,
                (p, brightness, saturation, gamma, identity),
                change,
            ) ==> {
                let t = p.calibration.topology;
                let u = final(p).calibration.topology;
                &&& u.color_grade_brightness == brightness
                &&& u.color_grade_saturation == saturation
                &&& u.color_grade_gamma == gamma
                &&& u.sharpen_amount == t.sharpen_amount
                &&& u.sharpen_radius == t.sharpen_radius
                &&& final(p).color_grade_pass.identity == identity
                &&& final(p).color_grade_pass.created == (p.color_grade_pass.created || !identity)
                &&& final(p).sharpen_pass == p.sharpen_pass
                &&& final(p).viewport == p.viewport
                &&& final(p).renderer == p.renderer
                &&& final(p).color_match == p.color_match
                &&& change is Update <==> p.color_grade_pass.created
                &&& change is Create <==> !p.color_grade_pass.created && !identity
            },
        forall|p: &StitchPipeline, g: (Scalar, Scalar, Scalar)| #[trigger]
            call_ensures(StitchPipeline::color_grade, (p,), g) ==> {
                &&& g.0 == p.calibration.topology.color_grade_brightness
                &&& g.1 == p.calibration.topology.color_grade_saturation
                &&& g.2 == p.calibration.topology.color_grade_gamma
            },
{
}

/// The same of sharpening.
pub proof fn sharpening_is_read_back()
    ensures
        forall|
            p: &mut StitchPipeline,
            amount: Scalar,
            radius: Scalar,
            identity: bool,
            change: PassChange,
        | #[trigger]
            call_ensures(
                StitchPipeline::set_sharpen_params,
                (p, amount, radius, identity),
                change,
            ) ==> {
                let t = p.calibration.topology;
                let u = final(p).calibration.topology;
                &&& u.sharpen_amount == amount
                &&& u.sharpen_radius == radius
                &&& u.color_grade_brightness == t.color_grade_brightness
                &&& u.color_grade_saturation == t.color_grade_saturation
                &&& u.color_grade_gamma == t.color_grade_gamma
                &&& final(p).sharpen_pass.identity == identity
                &&& final(p).sharpen_pass.created == (p.sharpen_pass.created || !identity)
                &&& final(p).color_grade_pass == p.color_grade_pass
                &&& final(p).viewport == p.viewport
                &&& final(p).renderer == p.renderer
                &&& change is Update <==> p.sharpen_pass.created
                &&& change is Create <==> !p.sharpen_pass.created && !identity
            },
        forall|p: &StitchPipeline, s: (Scalar, Scalar)| #[trigger]
            call_ensures(StitchPipeline::sharpen_params, (p,), s) ==> {
                &&& s.0 == p.calibration.topology.sharpen_amount
                &&& s.1 == p.calibration.topology.sharpen_radius
            },
{
}

/// On an executor the device alone has the passes: there they are set as on its pipeline.
pub proof fn passes_are_set_on_the_device()
    ensures
        forall|
            e: &mut Executor,
            brightness: Scalar,
            saturation: Scalar,
            gamma: Scalar,
            identity: bool,
            change: PassChange,
        | #[trigger]
            call_ensures(
                Executor::set_color_grade,
                (e, brightness, saturation, gamma, identity),
                change,
            ) ==> {
                &&& *e is Cpu ==> *final(e) == *e && change is Nothing
                &&& *e matches Executor::Gpu(g) ==> (*final(e) matches Executor::Gpu(h) && {
                    let u = h.pipeline.calibration.topology;
                    &&& u.color_grade_brightness == brightness
                    &&& u.color_grade_saturation == saturation
                    &&& u.color_grade_gamma == gamma
                    &&& h.pipeline.color_grade_pass.identity == identity
                    &&& h.pipeline.sharpen_pass == g.pipeline.sharpen_pass
                    &&& change is Update <==> g.pipeline.color_grade_pass.created
                    &&& change is Create <==> !g.pipeline.color_grade_pass.created && !identity
                })
            },
        forall|
            e: &mut Executor,
            amount: Scalar,
            radius: Scalar,
            identity: bool,
            change: PassChange,
        | #[trigger]
            call_ensures(Executor::set_sharpen_params, (e, amount, radius, identity), change)
                ==> {
                &&& *e is Cpu ==> *final(e) == *e && change is Nothing
                &&& *e matches Executor::Gpu(g) ==> (*final(e) matches Executor::Gpu(h) && {
                    let u = h.pipeline.calibration.topology;
                    &&& u.sharpen_amount == amount
                    &&& u.sharpen_radius == radius
                    &&& h.pipeline.sharpen_pass.identity == identity
                    &&& h.pipeline.color_grade_pass == g.pipeline.color_grade_pass
                    &&& change is Update <==> g.pipeline.sharpen_pass.created
                    &&& change is Create <==> !g.pipeline.sharpen_pass.created && !identity
                })
            },
{
}

/// A transition is as opaque as it was last told, from not at all to fully, and its parameters
/// are written just when that is a change.
pub proof fn a_transition_is_as_opaque_as_told()
    ensures
        forall|p: &mut StitchPipeline, opacity: Scalar, write: bool| #[trigger]
            call_ensures(StitchPipeline::set_transition_opacity, (p, opacity), write) ==> {
                &&& final(p).overlay == p.overlay
                &&& p.transition is None ==> !write && *final(p) == *p
                &&& p.transition matches Some(b) ==> (final(p).transition matches Some(c) && {
                    &&& c.placement == b.placement
                    &&& write ==> is_held(
                        opacity,
                        Scalar { bits: 0 },
                        Scalar { bits: 0x3f80_0000 },
                        c.opacity,
                    ) && !b.opacity.equals(c.opacity)
                    &&& !write ==> c == b && (opacity.bits <= 0x3f80_0000 ==> b.opacity.equals(
                        opacity,
                    ))
                })
            },
{
}

} // verus!
