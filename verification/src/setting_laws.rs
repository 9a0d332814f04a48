//! What each setting of a pipeline and of an executor sets, and what stays.

use crate::calibration::{Calibration, Framing, Lens, Topology};
use crate::executor::{CpuExecutor, Executor, GpuExecutor, MemoryStitch, StitchError};
use crate::pipeline::{correct_lenses, replace_lenses, PassChange, PostPass, StitchPipeline};
use crate::planes::{Nv12Planes, YuvPlanes};
use crate::scalar::{Scalar, Wide};
use crate::scene::{laid_out, SceneGeometry, SceneMath};
use crate::viewport::ViewportConfig;
use vstd::prelude::*;

verus! {

/// Everything but the topology is the same, and the seam is measured anew at the next frame
/// if `remeasures`, else when it would have been.
pub open spec fn only_topology_differs(
    p: StitchPipeline,
    q: StitchPipeline,
    remeasures: bool,
) -> bool {
    &&& q.calibration.lenses == p.calibration.lenses
    &&& q.calibration.framing == p.calibration.framing
    &&& q.scene == p.scene
    &&& q.viewport == p.viewport
    &&& q.renderer == p.renderer
    &&& q.show_seam_line == p.show_seam_line
    &&& q.overlay == p.overlay
    &&& q.overlay_placement == p.overlay_placement
    &&& q.transition == p.transition
    &&& q.band_gather == p.band_gather
    &&& q.output_format == p.output_format
    &&& q.color_grade_pass == p.color_grade_pass
    &&& q.sharpen_pass == p.sharpen_pass
    &&& q.color_match.left_offset == p.color_match.left_offset
    &&& q.color_match.right_offset == p.color_match.right_offset
    &&& q.color_match.left_gamma == p.color_match.left_gamma
    &&& q.color_match.right_gamma == p.color_match.right_gamma
    &&& q.color_match.interval == p.color_match.interval
    &&& remeasures ==> q.color_match.frames_since_measure == 0xffff_fffe
    &&& !remeasures ==> q.color_match.frames_since_measure == p.color_match.frames_since_measure
}

/// Each setter of the topology sets what its name says and nothing else. Those that change
/// what is measured have the seam measured anew.
pub proof fn a_setting_sets_what_its_name_says()
    ensures
        forall|p: &mut StitchPipeline, x: Scalar| #[trigger]
            call_ensures(StitchPipeline::set_blend_width, (p, x), ()) ==> {
                &&& final(p).calibration.topology == (Topology {
                    blend_width: x,
                    ..p.calibration.topology
                })
                &&& only_topology_differs(*p, *final(p), false)
            },
        forall|p: &mut StitchPipeline, x: bool| #[trigger]
            call_ensures(StitchPipeline::set_blend_flip_direction, (p, x), ()) ==> {
                &&& final(p).calibration.topology == (Topology {
                    blend_flip_direction: x,
                    ..p.calibration.topology
                })
                &&& only_topology_differs(*p, *final(p), false)
            },
        forall|p: &mut StitchPipeline, x: Scalar| #[trigger]
            call_ensures(StitchPipeline::set_seam_offset, (p, x), ()) ==> {
                &&& final(p).calibration.topology == (Topology {
                    seam_offset: x,
                    ..p.calibration.topology
                })
                &&& only_topology_differs(*p, *final(p), false)
            },
        forall|p: &mut StitchPipeline, x: bool| #[trigger]
            call_ensures(StitchPipeline::set_multiband_blend_enabled, (p, x), ()) ==> {
                &&& final(p).calibration.topology == (Topology {
                    multiband_blend_enabled: x,
                    ..p.calibration.topology
                })
                &&& only_topology_differs(*p, *final(p), false)
            },
        forall|p: &mut StitchPipeline, x: Wide| #[trigger]
            call_ensures(StitchPipeline::set_ground_tilt_x, (p, x), ()) ==> {
                &&& final(p).calibration.topology == (Topology {
                    ground_tilt_x: x,
                    ..p.calibration.topology
                })
                &&& only_topology_differs(*p, *final(p), false)
            },
        forall|p: &mut StitchPipeline, x: Wide| #[trigger]
            call_ensures(StitchPipeline::set_ground_tilt_z, (p, x), ()) ==> {
                &&& final(p).calibration.topology == (Topology {
                    ground_tilt_z: x,
                    ..p.calibration.topology
                })
                &&& only_topology_differs(*p, *final(p), false)
            },
        forall|p: &mut StitchPipeline, x: Wide| #[trigger]
            call_ensures(StitchPipeline::set_top_tilt_x, (p, x), ()) ==> {
                &&& final(p).calibration.topology == (Topology {
                    top_tilt_x: x,
                    ..p.calibration.topology
                })
                &&& only_topology_differs(*p, *final(p), false)
            },
        forall|p: &mut StitchPipeline, x: Wide| #[trigger]
            call_ensures(StitchPipeline::set_top_tilt_z, (p, x), ()) ==> {
                &&& final(p).calibration.topology == (Topology {
                    top_tilt_z: x,
                    ..p.calibration.topology
                })
                &&& only_topology_differs(*p, *final(p), false)
            },
        forall|p: &mut StitchPipeline, x: Wide| #[trigger]
            call_ensures(StitchPipeline::set_ground_tilt_band_width, (p, x), ()) ==> {
                &&& final(p).calibration.topology == (Topology {
                    ground_tilt_band_width: x,
                    ..p.calibration.topology
                })
                &&& only_topology_differs(*p, *final(p), false)
            },
        forall|p: &mut StitchPipeline, x: Wide| #[trigger]
            call_ensures(StitchPipeline::set_top_tilt_band_width, (p, x), ()) ==> {
                &&& final(p).calibration.topology == (Topology {
                    top_tilt_band_width: x,
                    ..p.calibration.topology
                })
                &&& only_topology_differs(*p, *final(p), false)
            },
        forall|p: &mut StitchPipeline, x: bool| #[trigger]
            call_ensures(StitchPipeline::set_color_match_enabled, (p, x), ()) ==> {
                &&& final(p).calibration.topology == (Topology {
                    color_match_enabled: x,
                    ..p.calibration.topology
                })
                &&& only_topology_differs(*p, *final(p), true)
            },
        forall|p: &mut StitchPipeline, x: Scalar| #[trigger]
            call_ensures(StitchPipeline::set_color_match_band_width, (p, x), ()) ==> {
                &&& final(p).calibration.topology == (Topology {
                    color_match_band_width: x,
                    ..p.calibration.topology
                })
                &&& only_topology_differs(*p, *final(p), true)
            },
        forall|p: &mut StitchPipeline, x: u32| #[trigger]
            call_ensures(StitchPipeline::set_color_match_grid_cols, (p, x), ()) ==> {
                &&& final(p).calibration.topology == (Topology {
                    color_match_grid_cols: x,
                    ..p.calibration.topology
                })
                &&& only_topology_differs(*p, *final(p), true)
            },
        forall|p: &mut StitchPipeline, x: u32| #[trigger]
            call_ensures(StitchPipeline::set_color_match_grid_rows, (p, x), ()) ==> {
                &&& final(p).calibration.topology == (Topology {
                    color_match_grid_rows: x,
                    ..p.calibration.topology
                })
                &&& only_topology_differs(*p, *final(p), true)
            },
        forall|p: &mut StitchPipeline, x: u32| #[trigger]
            call_ensures(StitchPipeline::set_color_match_interval_frames, (p, x), ()) ==> {
                &&& final(p).calibration.topology == (Topology {
                    color_match_interval_frames: x,
                    ..p.calibration.topology
                })
                &&& only_topology_differs(*p, *final(p), true)
            },
        forall|p: &mut StitchPipeline, x: Scalar| #[trigger]
            call_ensures(StitchPipeline::set_color_match_ema_alpha, (p, x), ()) ==> {
                &&& final(p).calibration.topology == (Topology {
                    color_match_ema_alpha: x,
                    ..p.calibration.topology
                })
                &&& only_topology_differs(*p, *final(p), true)
            },
        forall|p: &mut StitchPipeline, x: bool| #[trigger]
            call_ensures(StitchPipeline::set_color_match_auto_gamma, (p, x), ()) ==> {
                &&& final(p).calibration.topology == (Topology {
                    color_match_auto_gamma: x,
                    ..p.calibration.topology
                })
                &&& only_topology_differs(*p, *final(p), true)
            },
        forall|p: &mut StitchPipeline, x: Scalar| #[trigger]
            call_ensures(StitchPipeline::set_color_match_max_y_offset, (p, x), ()) ==> {
                &&& final(p).calibration.topology == (Topology {
                    color_match_max_y_offset: x,
                    ..p.calibration.topology
                })
                &&& only_topology_differs(*p, *final(p), true)
            },
        forall|p: &mut StitchPipeline, x: Scalar| #[trigger]
            call_ensures(StitchPipeline::set_color_match_max_chroma_offset, (p, x), ()) ==> {
                &&& final(p).calibration.topology == (Topology {
                    color_match_max_chroma_offset: x,
                    ..p.calibration.topology
                })
                &&& only_topology_differs(*p, *final(p), true)
            },
{
}

/// Both gammas are set, each to its own camera, and the seam is measured anew.
pub proof fn gammas_are_set_by_camera()
    ensures
        forall|p: &mut StitchPipeline, left: Scalar, right: Scalar| #[trigger]
            call_ensures(StitchPipeline::set_color_gamma, (p, left, right), ()) ==> {
                &&& final(p).calibration.topology == (Topology {
                    color_gamma_left: left,
                    color_gamma_right: right,
                    ..p.calibration.topology
                })
                &&& only_topology_differs(*p, *final(p), true)
            },
{
}

/// Pictures are turned and their range is set by camera, and nothing else changes.
pub proof fn inputs_are_set_by_camera()
    ensures
        forall|p: &mut StitchPipeline, left: bool, right: bool| #[trigger]
            call_ensures(StitchPipeline::set_flip_180, (p, left, right), ()) ==> {
                &&& final(p).renderer.flip_180.0 == left
                &&& final(p).renderer.flip_180.1 == right
                &&& final(p).renderer.is_full_range == p.renderer.is_full_range
                &&& final(p).calibration == p.calibration
            },
        forall|p: &mut StitchPipeline, full: bool| #[trigger]
            call_ensures(StitchPipeline::set_full_range, (p, full), ()) ==> {
                &&& final(p).renderer.is_full_range == full
                &&& final(p).renderer.flip_180 == p.renderer.flip_180
                &&& final(p).calibration == p.calibration
            },
        forall|p: &mut StitchPipeline, show: bool| #[trigger]
            call_ensures(StitchPipeline::set_show_seam_line, (p, show), ()) ==> {
                &&& final(p).show_seam_line == show
                &&& final(p).calibration == p.calibration
                &&& final(p).renderer == p.renderer
            },
{
}

/// A number, held between two others.
pub open spec fn is_held(x: Scalar, low: Scalar, high: Scalar, held: Scalar) -> bool {
    &&& x.below(low) ==> held == low
    &&& high.below(x) ==> held == high
    &&& low.at_most(x) && x.at_most(high) ==> held == x
}

/// The field of view is held between 1 and 179 degrees.
pub proof fn a_field_of_view_is_held()
    ensures
        forall|p: &mut StitchPipeline, fov: Scalar| #[trigger]
            call_ensures(StitchPipeline::set_fov, (p, fov), ()) ==> {
                &&& is_held(
                    fov,
                    Scalar { bits: 0x3f80_0000 },
                    Scalar { bits: 0x4333_0000 },
                    final(p).viewport.fov_degrees,
                )
                &&& final(p).viewport.width == p.viewport.width
                &&& final(p).viewport.height == p.viewport.height
                &&& final(p).calibration == p.calibration
            },
        forall|x: &mut Executor, fov: Scalar| #[trigger]
            call_ensures(Executor::set_fov, (x, fov), ()) ==> {
                &&& is_held(
                    fov,
                    Scalar { bits: 0x3f80_0000 },
                    Scalar { bits: 0x4333_0000 },
                    viewport_of(*final(x)).fov_degrees,
                )
                &&& viewport_of(*final(x)).width == viewport_of(*x).width
                &&& viewport_of(*final(x)).height == viewport_of(*x).height
                &&& calibration_of(*final(x)) == calibration_of(*x)
            },
{
}

pub open spec fn viewport_of(x: Executor) -> ViewportConfig {
    match x {
        Executor::Cpu(c) => c.config,
        Executor::Gpu(g) => g.pipeline.viewport,
    }
}

pub open spec fn calibration_of(x: Executor) -> Calibration {
    match x {
        Executor::Cpu(c) => c.calib,
        Executor::Gpu(g) => g.pipeline.calibration,
    }
}

pub open spec fn scene_in(x: Executor) -> SceneGeometry {
    match x {
        Executor::Cpu(c) => c.scene,
        Executor::Gpu(g) => g.pipeline.scene,
    }
}

/// The lens correction is held between nought and one and set on every lens, of which
/// nothing else changes.
pub proof fn every_lens_is_corrected_alike()
    ensures
        forall|lenses: &mut Vec<Lens>, amount: Scalar| #[trigger]
            call_ensures(correct_lenses, (lenses, amount), ()) ==> {
                &&& final(lenses)@.len() == lenses@.len()
                &&& forall|i: int|
                    0 <= i < lenses@.len() ==> {
                        &&& is_held(
                            amount,
                            Scalar { bits: 0 },
                            Scalar { bits: 0x3f80_0000 },
                            (#[trigger] final(lenses)@[i]).correction,
                        )
                        &&& final(lenses)@[i] == (Lens {
                            correction: final(lenses)@[i].correction,
                            ..lenses@[i]
                        })
                    }
            },
        forall|p: &mut StitchPipeline, amount: Scalar| #[trigger]
            call_ensures(StitchPipeline::set_lens_correction_amount, (p, amount), ()) ==> {
                &&& final(p).calibration.topology == p.calibration.topology
                &&& final(p).calibration.lenses@.len() == p.calibration.lenses@.len()
                &&& forall|i: int|
                    0 <= i < p.calibration.lenses@.len() ==> is_held(
                        amount,
                        Scalar { bits: 0 },
                        Scalar { bits: 0x3f80_0000 },
                        (#[trigger] final(p).calibration.lenses@[i]).correction,
                    )
            },
{
}

/// The lenses are there that are replaced.
pub open spec fn can_be_replaced(
    before: Seq<Lens>,
    left: Option<Lens>,
    right: Option<Lens>,
) -> bool {
    &&& left is Some ==> before.len() > 0
    &&& right is Some ==> before.len() > 1
}

/// A lens that is given takes the place of its own camera's: the left one that of the first,
/// the right one that of the second. The others stay.
pub open spec fn are_replaced(
    before: Seq<Lens>,
    left: Option<Lens>,
    right: Option<Lens>,
    after: Seq<Lens>,
) -> bool {
    &&& after.len() == before.len()
    &&& forall|i: int|
        0 <= i < before.len() ==> #[trigger] after[i] == if i == 0 && left is Some {
            left->0
        } else if i == 1 && right is Some {
            right->0
        } else {
            before[i]
        }
}

pub proof fn a_lens_replaces_its_own_cameras()
    ensures
        forall|lenses: &mut Vec<Lens>, left: Option<Lens>, right: Option<Lens>|
            can_be_replaced(lenses@, left, right) && #[trigger] call_ensures(
                replace_lenses,
                (lenses, left, right),
                (),
            ) ==> are_replaced(
                lenses@,
                left,
                right,
                final(lenses)@,
            ),
        forall|p: &mut StitchPipeline, left: Option<Lens>, right: Option<Lens>|
            can_be_replaced(p.calibration.lenses@, left, right) && #[trigger] call_ensures(
                StitchPipeline::update_camera_params,
                (p, left, right),
                (),
            ) ==> {
                &&& are_replaced(
                    p.calibration.lenses@,
                    left,
                    right,
                    final(p).calibration.lenses@,
                )
                &&& final(p).calibration.topology == p.calibration.topology
                &&& final(p).scene == p.scene
            },
{
}

/// An executor that is given a lens lays out the scene that follows from its lenses.
pub proof fn an_executors_scene_follows_its_lenses<M: SceneMath>(math: M)
    ensures
        forall|x: &mut Executor, left: Option<Lens>, right: Option<Lens>|
            can_be_replaced(calibration_of(*x).lenses@, left, right) && #[trigger] call_ensures(
                Executor::update_camera_params::<M>,
                (x, left, right, &math),
                (),
            ) ==> {
                &&& are_replaced(
                    calibration_of(*x).lenses@,
                    left,
                    right,
                    calibration_of(*final(x)).lenses@,
                )
                &&& calibration_of(*final(x)).topology == calibration_of(*x).topology
                &&& calibration_of(*final(x)).framing == calibration_of(*x).framing
                &&& left is Some || right is Some ==> is_scene_of(
                    math,
                    calibration_of(*final(x)),
                    scene_in(*final(x)),
                )
            },
{
}

/// A scene is laid out for a calibration, with planes of the aspect of its first lens.
pub open spec fn is_scene_of<M: SceneMath>(math: M, c: Calibration, s: SceneGeometry) -> bool {
    exists|aspect: Scalar|
        {
            &&& call_ensures(M::ratio, (&math, c.lenses@[0].width, c.lenses@[0].height), aspect)
            &&& #[trigger] laid_out(math, c.topology, c.framing, aspect, s)
        }
}

/// A pipeline takes over a calibration whole, or only its topology or framing; its scene
/// follows, and the seam is measured anew.
pub proof fn a_pipelines_scene_follows_its_calibration<M: SceneMath>(math: M)
    ensures
        forall|p: &mut StitchPipeline, c: Calibration| #[trigger]
            call_ensures(StitchPipeline::update_calibration::<M>, (p, c, &math), ()) ==> {
                &&& final(p).calibration == c
                &&& is_scene_of(math, c, final(p).scene)
                &&& final(p).color_match.frames_since_measure == 0xffff_fffe
                &&& final(p).color_match.left_offset == p.color_match.left_offset
                &&& final(p).viewport == p.viewport
            },
        forall|p: &mut StitchPipeline, t: Topology| #[trigger]
            call_ensures(StitchPipeline::update_topology::<M>, (p, t, &math), ()) ==> {
                &&& final(p).calibration.topology == t
                &&& final(p).calibration.lenses == p.calibration.lenses
                &&& final(p).calibration.framing == p.calibration.framing
                &&& is_scene_of(math, final(p).calibration, final(p).scene)
                &&& final(p).color_match.frames_since_measure == 0xffff_fffe
            },
        forall|p: &mut StitchPipeline, f: Framing| #[trigger]
            call_ensures(StitchPipeline::update_framing::<M>, (p, f, &math), ()) ==> {
                &&& final(p).calibration.framing == f
                &&& final(p).calibration.lenses == p.calibration.lenses
                &&& final(p).calibration.topology == p.calibration.topology
                &&& is_scene_of(math, final(p).calibration, final(p).scene)
                &&& final(p).color_match.frames_since_measure == 0xffff_fffe
            },
        forall|x: &mut Executor, c: Calibration| #[trigger]
            call_ensures(Executor::update_calibration::<M>, (x, c, &math), ()) ==> {
                &&& calibration_of(*final(x)) == c
                &&& is_scene_of(math, c, scene_in(*final(x)))
                &&& viewport_of(*final(x)) == viewport_of(*x)
            },
        forall|x: &mut Executor, t: Topology| #[trigger]
            call_ensures(Executor::update_topology::<M>, (x, t, &math), ()) ==> {
                &&& calibration_of(*final(x)).topology == t
                &&& calibration_of(*final(x)).lenses == calibration_of(*x).lenses
                &&& calibration_of(*final(x)).framing == calibration_of(*x).framing
                &&& is_scene_of(math, calibration_of(*final(x)), scene_in(*final(x)))
            },
        forall|x: &mut Executor, f: Framing| #[trigger]
            call_ensures(Executor::update_framing::<M>, (x, f, &math), ()) ==> {
                &&& calibration_of(*final(x)).framing == f
                &&& calibration_of(*final(x)).lenses == calibration_of(*x).lenses
                &&& calibration_of(*final(x)).topology == calibration_of(*x).topology
                &&& is_scene_of(math, calibration_of(*final(x)), scene_in(*final(x)))
            },
{
}

/// The camera moves to where it is asked to, unless that is within 0.01 of the corner. A
/// camera that flies moves from where it stands.
pub proof fn the_camera_keeps_away_from_the_corner<M: SceneMath>(math: M)
    ensures
        forall|p: &mut StitchPipeline, at: [Scalar; 3]| #[trigger]
            call_ensures(StitchPipeline::set_camera_position::<M>, (p, at, &math), ())
                ==> is_moved(math, *p, at, *final(p)),
        forall|p: &mut StitchPipeline, by: [Scalar; 3], yaw: Scalar, pitch: Scalar| #[trigger]
            call_ensures(StitchPipeline::fly_camera::<M>, (p, by, yaw, pitch, &math), ())
                ==> exists|at: [Scalar; 3]|
                {
                    &&& call_ensures(
                        M::flown,
                        (&math, p.scene.camera_position, by, yaw, pitch),
                        at,
                    )
                    &&& #[trigger] is_moved(math, *p, at, *final(p))
                },
{
    assert forall|p: &mut StitchPipeline, by: [Scalar; 3], yaw: Scalar, pitch: Scalar| #[trigger]
        call_ensures(StitchPipeline::fly_camera::<M>, (p, by, yaw, pitch, &math), ()) implies exists|
        at: [Scalar; 3],
    |
        {
            &&& call_ensures(M::flown, (&math, p.scene.camera_position, by, yaw, pitch), at)
            &&& #[trigger] is_moved(math, *p, at, *final(p))
        } by {
        let at = choose|at: [Scalar; 3]|
            {
                &&& call_ensures(M::flown, (&math, p.scene.camera_position, by, yaw, pitch), at)
                &&& #[trigger] p.camera_moved(at, math, *final(p))
            };
        assert(is_moved(math, *p, at, *final(p)));
    }
}

pub open spec fn is_moved<M: SceneMath>(
    math: M,
    p: StitchPipeline,
    at: [Scalar; 3],
    q: StitchPipeline,
) -> bool {
    exists|distance: Scalar|
        {
            &&& #[trigger] call_ensures(M::distance, (&math, at), distance)
            &&& (Scalar { bits: 0x3c23_d70a }).below(distance) ==> q.scene.camera_position == at
            &&& !(Scalar { bits: 0x3c23_d70a }).below(distance) ==> q == p
            &&& q.calibration == p.calibration
            &&& q.scene.left_position == p.scene.left_position
            &&& q.scene.right_position == p.scene.right_position
        }
}

/// An output takes another size, unless that has no extent, and so do the overlays over it;
/// what the passes over it compute into is made anew.
pub proof fn an_output_takes_its_size_over()
    ensures
        forall|p: &mut StitchPipeline, width: u32, height: u32, r: Option<(u32, u32)>| #[trigger]
            call_ensures(StitchPipeline::resize, (p, width, height), r) ==> {
                &&& r is Some <==> width > 0 && height > 0
                &&& r is None ==> *final(p) == *p
                &&& r matches Some(size) ==> {
                    &&& size == (width, height)
                    &&& final(p).viewport.width == width
                    &&& final(p).viewport.height == height
                    &&& final(p).viewport.fov_degrees == p.viewport.fov_degrees
                    &&& final(p).overlay is Some <==> p.overlay is Some
                    &&& final(p).overlay matches Some(c) ==> c.output_size == size
                        && c.placement == p.overlay->0.placement
                    &&& final(p).transition is Some <==> p.transition is Some
                    &&& final(p).transition matches Some(c) ==> c.output_size == size
                    &&& final(p).color_grade_pass.scratch is None
                    &&& final(p).sharpen_pass.scratch is None
                    &&& final(p).color_grade_pass.created == p.color_grade_pass.created
                    &&& final(p).renderer == p.renderer
                    &&& final(p).calibration == p.calibration
                }
            },
        forall|x: &mut Executor, width: u32, height: u32, r: Option<(u32, u32)>| #[trigger]
            call_ensures(Executor::resize, (x, width, height), r) ==> {
                &&& r is Some <==> width > 0 && height > 0
                &&& r is None ==> *final(x) == *x
                &&& r matches Some(size) ==> {
                    &&& size == (width, height)
                    &&& viewport_of(*final(x)).width == width
                    &&& viewport_of(*final(x)).height == height
                    &&& viewport_of(*final(x)).fov_degrees == viewport_of(*x).fov_degrees
                }
            },
{
}

/// A pass over the picture is made when it is first needed, and does something just where it
/// was made and its parameters change something.
pub proof fn a_pass_is_made_when_it_is_needed()
    ensures
        forall|p: &mut PostPass, identity: bool, change: PassChange| #[trigger]
            call_ensures(PostPass::set_params, (p, identity), change) ==> {
                &&& final(p).created <==> p.created || !identity
                &&& final(p).identity == identity
                &&& final(p).scratch == p.scratch
                &&& p.created ==> change == PassChange::Update
                &&& !p.created && !identity ==> change == PassChange::Create
                &&& !p.created && identity ==> change == PassChange::Nothing
            },
        forall|p: &PostPass, on: bool| #[trigger]
            call_ensures(PostPass::active, (p,), on) ==> (on <==> p.created && !p.identity),
{
}

/// A stitch in memory is given the executor's own settings: its projection, the left and the
/// right picture, their size, the calibration, the viewport, the pose and the range. With
/// interleaved chroma, the first plane that is too short is named instead.
pub proof fn a_stitch_in_memory_has_the_executors_settings<K: MemoryStitch>(
    x: CpuExecutor,
    left: Nv12Planes<'_>,
    right: Nv12Planes<'_>,
    yaw: Scalar,
    pitch: Scalar,
    kernel: K,
    r: Result<Vec<u8>, StitchError>,
)
    requires
        call_ensures(
            CpuExecutor::stitch_nv12::<K>,
            (&x, &left, &right, yaw, pitch, &kernel),
            r,
        ),
    ensures
        ({
            let luma = x.cam.0 * x.cam.1;
            let chroma = (x.cam.0 / 2) * (x.cam.1 / 2) * 2;
            let held = left.y@.len() >= luma && left.uv@.len() >= chroma && right.y@.len() >= luma
                && right.uv@.len() >= chroma;
            &&& held ==> call_ensures(
                K::stitch_rgba,
                (
                    &kernel,
                    &x.projection,
                    &left,
                    &right,
                    x.cam,
                    &x.calib,
                    &x.config,
                    (yaw, pitch),
                    x.full_range,
                ),
                r,
            )
            &&& left.y@.len() < luma ==> is_short(r, luma, left.y@.len())
            &&& left.y@.len() >= luma && left.uv@.len() < chroma ==> is_short(
                r,
                chroma,
                left.uv@.len(),
            )
            &&& left.y@.len() >= luma && left.uv@.len() >= chroma && right.y@.len() < luma
                ==> is_short(r, luma, right.y@.len())
            &&& left.y@.len() >= luma && left.uv@.len() >= chroma && right.y@.len() >= luma
                && right.uv@.len() < chroma ==> is_short(r, chroma, right.uv@.len())
        }),
{
}

pub open spec fn is_short(r: Result<Vec<u8>, StitchError>, expected: int, actual: nat) -> bool {
    match r {
        Err(StitchError::FrameSizeMismatch { expected: e, actual: a }) => e == expected && a
            == actual,
        _ => false,
    }
}

pub proof fn a_planar_stitch_in_memory_has_the_executors_settings<K: MemoryStitch>(
    x: CpuExecutor,
    left: YuvPlanes<'_>,
    right: YuvPlanes<'_>,
    yaw: Scalar,
    pitch: Scalar,
    kernel: K,
    r: Result<Vec<u8>, StitchError>,
)
    requires
        call_ensures(CpuExecutor::stitch_yuv::<K>, (&x, &left, &right, yaw, pitch, &kernel), r),
    ensures
        call_ensures(
            K::stitch_rgba_yuv420p,
            (
                &kernel,
                &x.projection,
                &left,
                &right,
                x.cam,
                &x.calib,
                &x.config,
                (yaw, pitch),
                x.full_range,
            ),
            r,
        ),
{
}

/// A ring for reading pictures back is made just where there is none for the output's size.
pub proof fn a_ring_is_made_for_the_outputs_size(
    x: GpuExecutor,
    r: Result<Option<(u32, u32)>, StitchError>,
)
    requires
        call_ensures(GpuExecutor::begin_stitch, (&x,), r),
    ensures
        r is Ok <==> x.pipeline.renderer.input_format is Nv12,
        r matches Ok(None) ==> x.sync_readback == Some(
            (x.pipeline.viewport.width, x.pipeline.viewport.height),
        ),
        r matches Ok(Some(size)) ==> size == (
            x.pipeline.viewport.width,
            x.pipeline.viewport.height,
        ) && x.sync_readback != Some(size),
{
}

} // verus!
