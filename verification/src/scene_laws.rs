//! How the two planes stand to each other, and where their seam is.

use crate::async_detect::CameraId;
use crate::calibration::{Calibration, Framing, Topology};
use crate::scalar::Scalar;
use crate::scene::{
    fading_plane, laid_out, scene_of, seam_line_screen_points, seam_seen, SceneGeometry, SceneMath,
    SceneView,
};
use crate::viewport::ViewportConfig;
use vstd::prelude::*;

verus! {

/// The two planes stand at a right angle, equally far from the corner, each turned by its
/// own terms: the left one along the third axis and turned by a quarter about the
/// second, the right one along the first and raised by its own offset. The camera stands
/// on the diagonal, as far from the corner as the framing says.
pub proof fn the_planes_stand_at_a_right_angle<M: SceneMath>(
    math: M,
    topology: Topology,
    framing: Framing,
    aspect: Scalar,
    s: SceneGeometry,
)
    requires
        call_ensures(SceneGeometry::new::<M>, (&topology, &framing, aspect, &math), s),
    ensures
        ({
            let zero = Scalar { bits: 0 };
            let one = Scalar { bits: 0x3f80_0000 };
            let half = Scalar { bits: 0x3f00_0000 };
            &&& s.left_position[0] == zero
            &&& s.left_position[1] == zero
            &&& s.left_position[2] == s.right_position[0]
            &&& s.right_position[2] == zero
            &&& call_ensures(M::narrow, (&math, topology.x_ty), s.right_position[1])
            &&& exists|shared: Scalar, rest: Scalar|
                {
                    &&& call_ensures(M::narrow, (&math, topology.intersect), shared)
                    &&& #[trigger] call_ensures(M::difference, (&math, one, shared), rest)
                    &&& call_ensures(M::product, (&math, half, rest), s.right_position[0])
                }
            &&& call_ensures(M::narrow, (&math, topology.z_rx), s.left_rotation[0])
            &&& s.left_rotation[1] == (Scalar { bits: 0x3fc9_0fdb })
            &&& call_ensures(M::narrow, (&math, topology.z_rz), s.left_rotation[2])
            &&& call_ensures(M::narrow, (&math, topology.x_rx), s.right_rotation[0])
            &&& s.right_rotation[1] == zero
            &&& call_ensures(M::narrow, (&math, topology.x_rz), s.right_rotation[2])
            &&& call_ensures(M::narrow, (&math, framing.axis_offset), s.camera_position[0])
            &&& s.camera_position[1] == zero
            &&& s.camera_position[2] == s.camera_position[0]
            &&& s.plane_width == one
            &&& s.plane_aspect == aspect
        }),
{
    assert(s.camera_position@[2] == s.camera_position@[0]);
    assert(s.left_position@[0] == (Scalar { bits: 0 }));
    assert(s.left_position@[1] == (Scalar { bits: 0 }));
    assert(s.camera_position@[1] == (Scalar { bits: 0 }));
    let (shared, rest) = choose|intersect: Scalar, rest: Scalar|
        {
            &&& #[trigger] crate::scene::narrowed(math, topology.intersect, intersect)
            &&& #[trigger] call_ensures(
                M::difference,
                (&math, Scalar { bits: crate::scalar::ONE }, intersect),
                rest,
            )
            &&& call_ensures(
                M::product,
                (&math, Scalar { bits: crate::scalar::HALF }, rest),
                s.left_position[2],
            )
        };
    assert(call_ensures(M::difference, (&math, Scalar { bits: 0x3f80_0000 }, shared), rest));
}

/// The arithmetic of the seam keeps order and sign: taking a smaller number away leaves
/// something above nought and taking a larger one away something below it, halving keeps
/// that, and exchanging what is taken away with what it is taken from turns the sign.
pub open spec fn halves_keep_signs<M: SceneMath>(math: M, a: Scalar, b: Scalar) -> bool {
    let zero = Scalar { bits: 0 };
    let two = Scalar { bits: 0x4000_0000 };
    forall|x: Scalar, y: Scalar, p: Scalar, q: Scalar|
        {
            &&& #[trigger] call_ensures(M::difference, (&math, a, b), x)
            &&& #[trigger] call_ensures(M::difference, (&math, b, a), y)
            &&& #[trigger] call_ensures(M::divided, (&math, x, two), p)
            &&& #[trigger] call_ensures(M::divided, (&math, y, two), q)
        } ==> {
            &&& p.units() == -q.units()
            &&& b.below(a) ==> zero.below(p) && q.below(zero)
            &&& a.below(b) ==> p.below(zero) && zero.below(q)
        }
}

/// The seam is on opposite sides of the two planes' middles, equally far from them. For an
/// offset below a half it is on the right of the left plane and on the left of the right
/// one, where the planes meet.
pub proof fn the_seam_is_where_the_planes_meet<M: SceneMath>(
    math: M,
    topology: Topology,
    framing: Framing,
    aspect: Scalar,
    s: SceneGeometry,
)
    requires
        call_ensures(SceneGeometry::new::<M>, (&topology, &framing, aspect, &math), s),
        halves_keep_signs(math, Scalar { bits: 0x3f00_0000 }, topology.seam_offset),
    ensures
        s.left_seam_pivot_x.units() == -s.right_seam_pivot_x.units(),
        topology.seam_offset.below(Scalar { bits: 0x3f00_0000 }) ==> (Scalar { bits: 0 }).below(
            s.left_seam_pivot_x,
        ) && s.right_seam_pivot_x.below(Scalar { bits: 0 }),
        (Scalar { bits: 0x3f00_0000 }).below(topology.seam_offset) ==> s.left_seam_pivot_x.below(
            Scalar { bits: 0 },
        ) && (Scalar { bits: 0 }).below(s.right_seam_pivot_x),
{
    assert(crate::scene::seam_placed(
        math,
        topology.seam_offset,
        s.left_seam_pivot_x,
        s.right_seam_pivot_x,
    ));
}

/// The seam is half as far from a plane's middle as its offset is from a half.
pub proof fn the_seam_is_half_its_offset_away<M: SceneMath>(
    math: M,
    topology: Topology,
    framing: Framing,
    aspect: Scalar,
    s: SceneGeometry,
)
    requires
        call_ensures(SceneGeometry::new::<M>, (&topology, &framing, aspect, &math), s),
    ensures
        ({
            let half = Scalar { bits: 0x3f00_0000 };
            let two = Scalar { bits: 0x4000_0000 };
            let seam = topology.seam_offset;
            &&& exists|x: Scalar|
                #[trigger] call_ensures(M::difference, (&math, half, seam), x) && call_ensures(
                    M::divided,
                    (&math, x, two),
                    s.left_seam_pivot_x,
                )
            &&& exists|x: Scalar|
                #[trigger] call_ensures(M::difference, (&math, seam, half), x) && call_ensures(
                    M::divided,
                    (&math, x, two),
                    s.right_seam_pivot_x,
                )
        }),
{
}

/// A point of the plane that fades is seen at `at`.
pub open spec fn is_seen<M: SceneMath>(
    math: M,
    scene: SceneGeometry,
    flip: bool,
    view: SceneView,
    y: Scalar,
    at: Option<(Scalar, Scalar)>,
) -> bool {
    if flip {
        call_ensures(
            M::on_screen,
            (&math, &scene, CameraId::Left, view, (scene.left_seam_pivot_x, y)),
            at,
        )
    } else {
        call_ensures(
            M::on_screen,
            (&math, &scene, CameraId::Right, view, (scene.right_seam_pivot_x, y)),
            at,
        )
    }
}

/// The seam's line goes down the whole of the plane that fades, at that plane's own seam:
/// from half the plane's height above its middle to as far below it. It is seen in the
/// given view, of the calibration's own scene, and not at all where either end is not.
pub proof fn the_seam_line_goes_down_the_fading_plane<M: SceneMath>(
    math: M,
    calibration: Calibration,
    viewport: ViewportConfig,
    yaw: Scalar,
    pitch: Scalar,
    aspect: Scalar,
    line: Option<((Scalar, Scalar), (Scalar, Scalar))>,
) -> (r: (SceneGeometry, SceneView, Scalar))
    requires
        call_ensures(
            seam_line_screen_points::<M>,
            (&calibration, &viewport, yaw, pitch, aspect, &math),
            line,
        ),
    ensures
        ({
            let (scene, view, half_height) = r;
            let flip = calibration.topology.blend_flip_direction;
            &&& exists|a: Scalar|
                {
                    &&& call_ensures(
                        M::ratio,
                        (&math, calibration.lenses@[0].width, calibration.lenses@[0].height),
                        a,
                    )
                    &&& #[trigger] laid_out(
                        math,
                        calibration.topology,
                        calibration.framing,
                        a,
                        scene,
                    )
                }
            &&& view.yaw == yaw
            &&& view.pitch == pitch
            &&& call_ensures(M::narrow, (&math, calibration.framing.tilt), view.tilt)
            &&& call_ensures(M::narrow, (&math, calibration.framing.roll), view.roll)
            &&& view.fov_degrees == viewport.fov_degrees
            &&& view.aspect == aspect
            &&& call_ensures(
                M::divided,
                (&math, Scalar { bits: 0x3f00_0000 }, scene.plane_aspect),
                half_height,
            )
            &&& line matches Some((top, bottom)) ==> {
                &&& is_seen(math, scene, flip, view, half_height, Some(top))
                &&& is_seen(math, scene, flip, view, half_height.spec_negated(), Some(bottom))
            }
            &&& line is None ==> is_seen(math, scene, flip, view, half_height, None) || is_seen(
                math,
                scene,
                flip,
                view,
                half_height.spec_negated(),
                None,
            )
        }),
{
    choose|scene: SceneGeometry, view: SceneView, half_height: Scalar|
        {
            &&& scene_of(math, calibration, scene)
            &&& view.yaw == yaw
            &&& view.pitch == pitch
            &&& crate::scene::narrowed(math, calibration.framing.tilt, view.tilt)
            &&& crate::scene::narrowed(math, calibration.framing.roll, view.roll)
            &&& view.fov_degrees == viewport.fov_degrees
            &&& view.aspect == aspect
            &&& call_ensures(
                M::divided,
                (&math, Scalar { bits: crate::scalar::HALF }, scene.plane_aspect),
                half_height,
            )
            &&& #[trigger] seam_seen(
                math,
                scene,
                fading_plane(calibration.topology),
                view,
                half_height,
                line,
            )
        }
}

} // verus!
