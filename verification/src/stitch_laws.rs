//! What a stitch shows: each camera through its own lens, in its own colours, joined
//! along one seam.

use crate::async_detect::CameraId;
use crate::calibration::Topology;
use crate::color_match::ColorCorrection;
use crate::pipeline::{RenderPlan, RenderTo, StitchPipeline};
use crate::renderer::{
    composite_reads, driven_width, multiband_passes, pictures, plan_multiband, plan_stitch, Block,
    GpuUniforms, MultibandPlan, Pass, PassKind, Picture, StitchInputs, StitchMath, StitchPlan,
    Target,
};
use crate::resources::InputFormat;
use crate::scalar::{Scalar, Wide};
use crate::scene::SceneView;
use vstd::prelude::*;

verus! {

/// One of a plan's blocks of uniforms, and whether it is the right camera's plane that
/// is drawn with it. The mask is that of the plane that fades.
pub open spec fn block_of(p: StitchPipeline, plan: RenderPlan, which: Block) -> Option<
    (GpuUniforms, bool),
> {
    match (plan, which) {
        (RenderPlan::Plain(s), Block::Left) => Some((s.left, false)),
        (RenderPlan::Plain(s), Block::Right) => Some((s.right, true)),
        (RenderPlan::Plain(_), Block::Mask) => None,
        (RenderPlan::Multiband { plan: m, .. }, Block::Left) => Some((m.left, false)),
        (RenderPlan::Multiband { plan: m, .. }, Block::Right) => Some((m.right, true)),
        (RenderPlan::Multiband { plan: m, .. }, Block::Mask) => Some(
            (m.mask, !p.calibration.topology.blend_flip_direction),
        ),
    }
}

/// A length in pixels of `x`, on a side of so many pixels, is the part `part` of it.
pub open spec fn is_part_of<M: StitchMath>(math: M, x: Wide, pixels: u32, part: Scalar) -> bool {
    exists|n: Scalar, all: Scalar|
        {
            &&& call_ensures(M::narrow, (&math, x), n)
            &&& #[trigger] call_ensures(M::whole, (&math, pixels), all)
            &&& #[trigger] call_ensures(M::divided, (&math, n, all), part)
        }
}

/// Whichever block a plane is drawn with, the lens in it is that of the plane's own
/// camera: the first lens on the left, the second on the right. Its focal lengths and
/// its centre are parts of its own picture, across and down, and its distortion, its
/// aspect, its tilt constant and its correction are its own.
pub proof fn each_plane_is_seen_through_its_own_lens<M: StitchMath>(
    p: StitchPipeline,
    to: RenderTo,
    pose: (Scalar, Scalar),
    color: ColorCorrection,
    math: M,
    plan: RenderPlan,
    after: StitchPipeline,
    which: Block,
)
    requires
        p.planned(to, pose, color, math, plan, after),
    ensures
        block_of(p, plan, which) matches Some((u, is_right)) ==> {
            let lens = p.calibration.lenses@[if is_right {
                1
            } else {
                0
            }];
            &&& is_part_of(math, lens.fx, lens.width, u.intrinsics[0])
            &&& is_part_of(math, lens.fy, lens.height, u.intrinsics[1])
            &&& is_part_of(math, lens.cx, lens.width, u.intrinsics[2])
            &&& is_part_of(math, lens.cy, lens.height, u.intrinsics[3])
            &&& call_ensures(M::narrow, (&math, lens.distortion[0]), u.dist[0])
            &&& call_ensures(M::narrow, (&math, lens.distortion[1]), u.dist[1])
            &&& call_ensures(M::narrow, (&math, lens.distortion[2]), u.dist[2])
            &&& call_ensures(M::narrow, (&math, lens.distortion[3]), u.dist[3])
            &&& call_ensures(M::ratio, (&math, lens.width, lens.height), u.ground_tilt[2])
            &&& call_ensures(M::tilt_constant, (&math, &lens), u.ground_tilt[1])
            &&& u.top_tilt[1] == u.ground_tilt[1]
            &&& u.lens_preview[0] == lens.correction
        },
{
}

/// A plane is placed by its own camera's turn of the same view: the given yaw and pitch,
/// the framing's tilt and roll, the viewport's field of view, and the aspect of what is
/// drawn to, which is the viewport for a view and the renderer's own output for the
/// target.
pub proof fn planes_are_seen_in_one_view<M: StitchMath>(
    p: StitchPipeline,
    to: RenderTo,
    pose: (Scalar, Scalar),
    color: ColorCorrection,
    math: M,
    plan: RenderPlan,
    after: StitchPipeline,
) -> (view: SceneView)
    requires
        p.planned(to, pose, color, math, plan, after),
    ensures
        view.yaw == pose.0,
        view.pitch == pose.1,
        call_ensures(M::narrow, (&math, p.calibration.framing.tilt), view.tilt),
        call_ensures(M::narrow, (&math, p.calibration.framing.roll), view.roll),
        view.fov_degrees == p.viewport.fov_degrees,
        to == RenderTo::View ==> call_ensures(
            M::ratio,
            (&math, p.viewport.width, p.viewport.height),
            view.aspect,
        ),
        to == RenderTo::Target ==> call_ensures(
            M::ratio,
            (&math, p.renderer.output_width, p.renderer.output_height),
            view.aspect,
        ),
        forall|which: Block| #[trigger]
            block_of(p, plan, which) matches Some((u, is_right)) ==> call_ensures(
                M::transform,
                (
                    &math,
                    &p.scene,
                    if is_right {
                        CameraId::Right
                    } else {
                        CameraId::Left
                    },
                    view,
                ),
                u.mvp,
            ),
{
    let i = choose|i: crate::renderer::StitchInputs|
        {
            &&& #[trigger] p.stitched_from(to, pose, color, math, i)
            &&& match plan {
                RenderPlan::Plain(s) => crate::pipeline::is_plain_plan(i, s),
                RenderPlan::Multiband { plan: m, .. } => crate::pipeline::is_multiband_plan(i, m),
            }
        };
    choose|view: SceneView|
        {
            &&& #[trigger] p.looks(to, pose, math, view)
            &&& p.plane_from(CameraId::Left, view, math, i.left)
            &&& p.plane_from(CameraId::Right, view, math, i.right)
        }
}

/// The left plane is tilted by the z terms of the topology and the right one by its x
/// terms, each over the bands that the topology gives for the ground and for the top.
pub proof fn each_plane_is_tilted_by_its_own_terms<M: StitchMath>(
    p: StitchPipeline,
    to: RenderTo,
    pose: (Scalar, Scalar),
    color: ColorCorrection,
    math: M,
    plan: RenderPlan,
    after: StitchPipeline,
    which: Block,
)
    requires
        p.planned(to, pose, color, math, plan, after),
    ensures
        block_of(p, plan, which) matches Some((u, is_right)) ==> {
            let t = p.calibration.topology;
            let (ground, top) = if is_right {
                (t.ground_tilt_x, t.top_tilt_x)
            } else {
                (t.ground_tilt_z, t.top_tilt_z)
            };
            &&& call_ensures(M::narrow, (&math, ground), u.ground_tilt[0])
            &&& call_ensures(M::narrow, (&math, top), u.top_tilt[0])
            &&& call_ensures(M::narrow, (&math, t.ground_tilt_band_width), u.top_tilt[2])
            &&& call_ensures(M::narrow, (&math, t.top_tilt_band_width), u.top_tilt[3])
        },
{
}

/// Each plane's colours are corrected by its own camera's offsets and raised to the
/// reciprocal of its own gamma, or left as they are where the gamma is not a positive
/// number.
pub proof fn each_plane_is_corrected_by_its_own_camera<M: StitchMath>(
    p: StitchPipeline,
    to: RenderTo,
    pose: (Scalar, Scalar),
    color: ColorCorrection,
    math: M,
    plan: RenderPlan,
    after: StitchPipeline,
    which: Block,
)
    requires
        p.planned(to, pose, color, math, plan, after),
    ensures
        block_of(p, plan, which) matches Some((u, is_right)) ==> {
            let one = Scalar { bits: 0x3f80_0000 };
            let zero = Scalar { bits: 0 };
            let (offset, gamma) = if is_right {
                (color.right_offset, color.right_gamma)
            } else {
                (color.left_offset, color.left_gamma)
            };
            &&& u.color_offset_blend[0] == offset[0]
            &&& u.color_offset_blend[1] == offset[1]
            &&& u.color_offset_blend[2] == offset[2]
            &&& u.color_scale[0] == one
            &&& u.color_scale[1] == one
            &&& u.color_scale[2] == one
            &&& 0 < gamma.bits < 0x7f80_0000 ==> call_ensures(
                M::divided,
                (&math, one, gamma),
                u.color_scale[3],
            )
            &&& !(0 < gamma.bits < 0x7f80_0000) ==> u.color_scale[3] == one
            &&& u.lens_preview[1] == zero
        },
{
    let i = choose|i: crate::renderer::StitchInputs|
        {
            &&& #[trigger] p.stitched_from(to, pose, color, math, i)
            &&& match plan {
                RenderPlan::Plain(s) => crate::pipeline::is_plain_plan(i, s),
                RenderPlan::Multiband { plan: m, .. } => crate::pipeline::is_multiband_plan(i, m),
            }
        };
    assert(i.color == color);
}

/// The shader is told which camera it draws, how its picture comes in, whether that
/// camera's own picture is turned, and the range of its values.
pub proof fn each_plane_is_read_as_it_comes_in<M: StitchMath>(
    p: StitchPipeline,
    to: RenderTo,
    pose: (Scalar, Scalar),
    color: ColorCorrection,
    math: M,
    plan: RenderPlan,
    after: StitchPipeline,
    which: Block,
)
    requires
        p.planned(to, pose, color, math, plan, after),
    ensures
        block_of(p, plan, which) matches Some((u, is_right)) ==> {
            let turned = if is_right {
                p.renderer.flip_180.1
            } else {
                p.renderer.flip_180.0
            };
            &&& u.flags[0] == 1 <==> is_right
            &&& u.flags[0] <= 1
            &&& u.flags[1] == match p.renderer.input_format {
                InputFormat::Yuv420p => 0u32,
                InputFormat::Nv12 => 1,
                InputFormat::Bgra => 2,
            }
            &&& u.flags[2] == 1 <==> turned
            &&& u.flags[2] <= 1
            &&& u.flags[3] == 1 <==> p.renderer.is_full_range
            &&& u.flags[3] <= 1
        },
{
}

/// In the plain stitch the plane that fades is drawn over the other. It alone fades, over
/// the blend width, at the seam, and it alone carries the seam's line where that is
/// shown. The right plane fades unless the direction is flipped.
pub proof fn the_fading_plane_is_drawn_over_the_other<M: StitchMath>(
    p: StitchPipeline,
    to: RenderTo,
    pose: (Scalar, Scalar),
    color: ColorCorrection,
    math: M,
    plan: RenderPlan,
    after: StitchPipeline,
)
    requires
        p.planned(to, pose, color, math, plan, after),
    ensures
        plan is Plain <==> !p.calibration.topology.multiband_blend_enabled,
        plan matches RenderPlan::Plain(s) ==> {
            let t = p.calibration.topology;
            let one = Scalar { bits: 0x3f80_0000 };
            let zero = Scalar { bits: 0 };
            let (over, under) = if t.blend_flip_direction {
                (s.left, s.right)
            } else {
                (s.right, s.left)
            };
            &&& s.second == CameraId::Left <==> t.blend_flip_direction
            &&& s.first == CameraId::Right <==> t.blend_flip_direction
            &&& over.ground_tilt[3] == one
            &&& under.ground_tilt[3] == zero
            &&& over.color_offset_blend[3] == t.blend_width
            &&& under.color_offset_blend[3] == t.blend_width
            &&& over.lens_preview[3] == t.seam_offset
            &&& under.lens_preview[3] == zero
            &&& over.lens_preview[2] == if p.show_seam_line {
                one
            } else {
                zero
            }
            &&& under.lens_preview[2] == zero
        },
{
    let i = choose|i: crate::renderer::StitchInputs|
        {
            &&& #[trigger] p.stitched_from(to, pose, color, math, i)
            &&& match plan {
                RenderPlan::Plain(s) => crate::pipeline::is_plain_plan(i, s),
                RenderPlan::Multiband { plan: m, .. } => crate::pipeline::is_multiband_plan(i, m),
            }
        };
    assert(i.flip == p.calibration.topology.blend_flip_direction);
}

/// In the multiband stitch both planes are drawn whole. The mask is the plane that would
/// fade, cut off at the seam within 0.0001. The seam's line, where it is shown, is on that
/// plane alone.
pub proof fn the_mask_is_cut_at_the_seam<M: StitchMath>(
    p: StitchPipeline,
    to: RenderTo,
    pose: (Scalar, Scalar),
    color: ColorCorrection,
    math: M,
    plan: RenderPlan,
    after: StitchPipeline,
)
    requires
        p.planned(to, pose, color, math, plan, after),
    ensures
        plan matches RenderPlan::Multiband { plan: m, .. } ==> {
            let t = p.calibration.topology;
            let one = Scalar { bits: 0x3f80_0000 };
            let zero = Scalar { bits: 0 };
            let (fading, other) = if t.blend_flip_direction {
                (m.left, m.right)
            } else {
                (m.right, m.left)
            };
            &&& fading.ground_tilt[3] == zero
            &&& other.ground_tilt[3] == zero
            &&& m.mask.ground_tilt[3] == one
            &&& m.mask.color_offset_blend[3] == (Scalar { bits: 0x38d1_b717 })
            &&& fading.color_offset_blend[3] == t.blend_width
            &&& other.color_offset_blend[3] == t.blend_width
            &&& m.mask.lens_preview[3] == t.seam_offset
            &&& m.mask.lens_preview[2] == zero
            &&& other.lens_preview[2] == zero
            &&& other.lens_preview[3] == zero
            &&& fading.lens_preview[2] == if p.show_seam_line {
                one
            } else {
                zero
            }
            &&& p.show_seam_line ==> fading.lens_preview[3] == t.seam_offset
            &&& !p.show_seam_line ==> fading.lens_preview[3] == zero
        },
{
    let i = choose|i: crate::renderer::StitchInputs|
        {
            &&& #[trigger] p.stitched_from(to, pose, color, math, i)
            &&& match plan {
                RenderPlan::Plain(s) => crate::pipeline::is_plain_plan(i, s),
                RenderPlan::Multiband { plan: m, .. } => crate::pipeline::is_multiband_plan(i, m),
            }
        };
    assert(i.flip == p.calibration.topology.blend_flip_direction);
}

/// The multiband stitch is made for the size of what is drawn to, and its textures are
/// made anew just when they have another. Its blur goes by that size: a step is one pixel
/// of each side, and it spreads over 0.12 of the blend's pixels, but at least two pixels
/// and at most ten.
pub proof fn the_blur_fits_what_is_drawn_to<M: StitchMath>(
    p: StitchPipeline,
    to: RenderTo,
    pose: (Scalar, Scalar),
    color: ColorCorrection,
    math: M,
    plan: RenderPlan,
    after: StitchPipeline,
)
    requires
        p.planned(to, pose, color, math, plan, after),
    ensures
        plan matches RenderPlan::Multiband { blur, recreate, .. } ==> {
            let t = p.calibration.topology;
            let size = match to {
                RenderTo::Target => (p.renderer.output_width, p.renderer.output_height),
                RenderTo::View => (p.viewport.width, p.viewport.height),
            };
            &&& after.renderer.multiband_size == size
            &&& recreate <==> p.renderer.multiband_size != size
            &&& is_step_of(math, size.0, blur.texel_size[0])
            &&& is_step_of(math, size.1, blur.texel_size[1])
            &&& is_blur_for(math, t, size.0, blur.sigma)
        },
{
    if let RenderPlan::Multiband { blur, .. } = plan {
        let t = p.calibration.topology;
        let size = p.spec_drawn_size(to);
        let driver = driven_width(t.color_match_enabled, t.blend_width, t.color_match_band_width);
        let wanted = choose|wanted: Scalar|
            {
                &&& #[trigger] crate::renderer::spread_by(math, driver, size.0, wanted)
                &&& blur.sigma == wanted.spec_clamp(
                    Scalar { bits: crate::renderer::SIGMA_MIN },
                    Scalar { bits: crate::renderer::SIGMA_MAX },
                )
            };
        assert(is_spread_of(math, driver, size.0, wanted));
        assert(is_step_of(math, size.0, blur.texel_size[0]));
        assert(is_step_of(math, size.1, blur.texel_size[1]));
        assert(t.color_match_enabled && !t.blend_width.spec_is_nan()
            && !t.color_match_band_width.spec_is_nan() ==> t.blend_width.at_most(driver)
            && t.color_match_band_width.at_most(driver));
        assert(is_blur_for(math, t, size.0, blur.sigma));
    }
}

/// `sigma` is how far a picture so many pixels wide is blurred: by the wider of the blend
/// and, where colours are matched, of the matching's band.
pub open spec fn is_blur_for<M: StitchMath>(
    math: M,
    t: Topology,
    pixels: u32,
    sigma: Scalar,
) -> bool {
    let two = Scalar { bits: 0x4000_0000 };
    let ten = Scalar { bits: 0x4120_0000 };
    exists|width: Scalar, wanted: Scalar|
        {
            &&& #[trigger] is_spread_of(math, width, pixels, wanted)
            &&& width == t.blend_width || t.color_match_enabled && width
                == t.color_match_band_width
            &&& t.color_match_enabled && !t.blend_width.spec_is_nan()
                && !t.color_match_band_width.spec_is_nan() ==> t.blend_width.at_most(width)
                && t.color_match_band_width.at_most(width)
            &&& two.at_most(wanted) && wanted.at_most(ten) ==> sigma == wanted
            &&& wanted.below(two) ==> sigma == two
            &&& ten.below(wanted) ==> sigma == ten
        }
}

/// One of so many pixels is the part `part` of a side.
pub open spec fn is_step_of<M: StitchMath>(math: M, pixels: u32, part: Scalar) -> bool {
    exists|all: Scalar|
        {
            &&& #[trigger] call_ensures(M::whole, (&math, pixels), all)
            &&& call_ensures(M::divided, (&math, Scalar { bits: 0x3f80_0000 }, all), part)
        }
}

/// `x` is 0.12 of a part `width` of so many pixels.
pub open spec fn is_spread_of<M: StitchMath>(
    math: M,
    width: Scalar,
    pixels: u32,
    x: Scalar,
) -> bool {
    exists|all: Scalar, blended: Scalar|
        {
            &&& #[trigger] call_ensures(M::whole, (&math, pixels), all)
            &&& #[trigger] call_ensures(M::product, (&math, width, all), blended)
            &&& call_ensures(M::product, (&math, blended, Scalar { bits: 0x3df5_c28f }), x)
        }
}

/// The composite is drawn last, to the output, from five textures: the two sharp planes,
/// left before right, the same two blurred, and the blurred mask of the plane that fades.
pub proof fn the_composite_joins_sharp_and_blurred_planes(fading: CameraId)
    ensures
        ({
            let passes = multiband_passes(fading);
            let seen = pictures(passes, (passes.len() - 1) as nat);
            let from = composite_reads();
            &&& passes.len() == 10
            &&& passes.last().target == Target::Output
            &&& passes.last().kind == PassKind::Composite
            &&& from.len() == 5
            &&& seen[from[0]] == (Picture::Plane {
                camera: CameraId::Left,
                horizontal: 0,
                vertical: 0,
            })
            &&& seen[from[1]] == (Picture::Plane {
                camera: CameraId::Right,
                horizontal: 0,
                vertical: 0,
            })
            &&& seen[from[2]] == (Picture::Plane {
                camera: CameraId::Left,
                horizontal: 1,
                vertical: 1,
            })
            &&& seen[from[3]] == (Picture::Plane {
                camera: CameraId::Right,
                horizontal: 1,
                vertical: 1,
            })
            &&& seen[from[4]] == (Picture::Mask { camera: fading, horizontal: 1, vertical: 1 })
        }),
{
    crate::renderer::composite_reads_finished_pictures(fading);
}

/// A picture's colours are weighted by its opacity just when it is blurred for the first
/// time: across, from where it was drawn to the temporary texture. From there it is
/// blurred down as it is.
pub proof fn colours_are_weighted_once(fading: CameraId, i: int)
    requires
        0 <= i < multiband_passes(fading).len(),
    ensures
        multiband_passes(fading)[i].kind matches PassKind::BlurHorizontal { source, premultiply }
            ==> premultiply && source != Target::Tmp && multiband_passes(fading)[i].target
            == Target::Tmp,
        multiband_passes(fading)[i].kind matches PassKind::BlurVertical { source, premultiply }
            ==> !premultiply && source == Target::Tmp && multiband_passes(fading)[i].target
            != Target::Tmp,
{
}

/// Some passes end in a composite on the output, and show before it each camera's plane sharp,
/// each blurred once either way, and the mask of the fading plane blurred likewise.
pub open spec fn are_joined_at_last(passes: Seq<Pass>, fading: CameraId) -> bool {
    let seen = pictures(passes, (passes.len() - 1) as nat);
    &&& passes.len() > 0
    &&& passes.last().kind is Composite
    &&& passes.last().target is Output
    &&& seen[Target::Left] == (Picture::Plane {
        camera: CameraId::Left,
        horizontal: 0,
        vertical: 0,
    })
    &&& seen[Target::Right] == (Picture::Plane {
        camera: CameraId::Right,
        horizontal: 0,
        vertical: 0,
    })
    &&& seen[Target::LeftBlur] == (Picture::Plane {
        camera: CameraId::Left,
        horizontal: 1,
        vertical: 1,
    })
    &&& seen[Target::RightBlur] == (Picture::Plane {
        camera: CameraId::Right,
        horizontal: 1,
        vertical: 1,
    })
    &&& seen[Target::MaskBlur] == (Picture::Mask { camera: fading, horizontal: 1, vertical: 1 })
}

/// A multiband plan joins the planes of its inputs at last, with the mask of the one that
/// fades. A plain plan draws the one that fades over the other.
pub proof fn a_plan_ends_in_both_planes(
    i: StitchInputs,
    plain: StitchPlan,
    multiband: MultibandPlan,
)
    requires
        call_ensures(plan_stitch, (&i,), plain),
        call_ensures(plan_multiband, (&i,), multiband),
    ensures
        are_joined_at_last(
            multiband.passes@,
            if i.flip {
                CameraId::Left
            } else {
                CameraId::Right
            },
        ),
        i.flip ==> plain.first is Right && plain.second is Left,
        !i.flip ==> plain.first is Left && plain.second is Right,
{
    crate::renderer::composite_reads_finished_pictures(i.spec_fading());
}

/// The same of a frame's plan, by the settings of its pipeline.
pub proof fn a_planned_frame_ends_in_both_planes<M: StitchMath>(
    math: M,
    p: StitchPipeline,
    to: RenderTo,
    pose: (Scalar, Scalar),
    color: ColorCorrection,
    plan: RenderPlan,
    after: StitchPipeline,
)
    requires
        p.planned(to, pose, color, math, plan, after),
    ensures
        ({
            let flip = p.calibration.topology.blend_flip_direction;
            match plan {
                RenderPlan::Plain(s) => {
                    &&& !p.calibration.topology.multiband_blend_enabled
                    &&& flip ==> s.first is Right && s.second is Left
                    &&& !flip ==> s.first is Left && s.second is Right
                },
                RenderPlan::Multiband { plan: m, .. } => {
                    &&& p.calibration.topology.multiband_blend_enabled
                    &&& are_joined_at_last(
                        m.passes@,
                        if flip {
                            CameraId::Left
                        } else {
                            CameraId::Right
                        },
                    )
                },
            }
        }),
{
    let i = choose|i: StitchInputs|
        {
            &&& #[trigger] p.stitched_from(to, pose, color, math, i)
            &&& match plan {
                RenderPlan::Plain(s) => crate::pipeline::is_plain_plan(i, s),
                RenderPlan::Multiband { plan: m, .. } => crate::pipeline::is_multiband_plan(i, m),
            }
        };
    crate::renderer::composite_reads_finished_pictures(i.spec_fading());
}

} // verus!
