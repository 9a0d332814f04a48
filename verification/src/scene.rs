//! The two image planes in space, and the camera that looks at them.

use crate::async_detect::CameraId;
use crate::calibration::{Calibration, Framing, Topology};
use crate::scalar::{Scalar, Wide, HALF, ONE, TWO, ZERO};
use crate::viewport::ViewportConfig;
use vstd::prelude::*;

verus! {

/// The bits of half of pi, the angle between the planes.
pub const QUARTER_TURN: u32 = 0x3fc9_0fdb;

/// The arithmetic that a scene is laid out by, which is done on numbers.
pub trait SceneMath {
    /// The nearest number of single precision.
    fn narrow(&self, x: Wide) -> Scalar;

    /// The quotient of two counts.
    fn ratio(&self, a: u32, b: u32) -> Scalar;

    /// A count as a number.
    fn whole(&self, n: u32) -> Scalar;

    fn difference(&self, a: Scalar, b: Scalar) -> Scalar;

    fn product(&self, a: Scalar, b: Scalar) -> Scalar;

    /// The quotient of two numbers.
    fn divided(&self, a: Scalar, b: Scalar) -> Scalar;

    /// How far from the corner a position is.
    fn distance(&self, position: [Scalar; 3]) -> Scalar;

    /// Where a camera comes that moves by `local` to its right, up and ahead,
    /// turned by a yaw and a pitch.
    fn flown(
        &self,
        position: [Scalar; 3],
        local: [Scalar; 3],
        yaw: Scalar,
        pitch: Scalar,
    ) -> [Scalar; 3];

    /// Where a point of a plane is seen, in fractions of the screen; none where
    /// it is behind the camera.
    fn on_screen(
        &self,
        scene: &SceneGeometry,
        plane: CameraId,
        view: SceneView,
        at: (Scalar, Scalar),
    ) -> Option<(Scalar, Scalar)>;
}

/// How the camera looks at a scene.
#[derive(Clone, Copy, Debug, PartialEq, Eq, Structural)]
pub struct SceneView {
    pub yaw: Scalar,
    pub pitch: Scalar,
    pub tilt: Scalar,
    pub roll: Scalar,
    pub fov_degrees: Scalar,
    pub aspect: Scalar,
}

/// The left plane stands along the z axis and the right one along the x axis.
/// Each is turned about the seam.
#[derive(Clone, Copy, Debug)]
pub struct SceneGeometry {
    pub left_position: [Scalar; 3],
    pub left_rotation: [Scalar; 3],
    pub right_position: [Scalar; 3],
    pub right_rotation: [Scalar; 3],
    pub camera_position: [Scalar; 3],
    pub plane_width: Scalar,
    pub plane_aspect: Scalar,
    pub left_seam_pivot_x: Scalar,
    pub right_seam_pivot_x: Scalar,
}

/// `x` is `wide` in single precision.
pub open spec fn narrowed<M: SceneMath>(math: M, wide: Wide, x: Scalar) -> bool {
    call_ensures(M::narrow, (&math, wide), x)
}

/// `half` is how far the planes' centres are from the corner: half a plane's width, but
/// for what the planes share.
pub open spec fn set_apart<M: SceneMath>(math: M, topology: Topology, half: Scalar) -> bool {
    exists|intersect: Scalar, rest: Scalar|
        {
            &&& #[trigger] narrowed(math, topology.intersect, intersect)
            &&& #[trigger] call_ensures(
                M::difference,
                (&math, Scalar { bits: ONE }, intersect),
                rest,
            )
            &&& call_ensures(M::product, (&math, Scalar { bits: HALF }, rest), half)
        }
}

/// `left` and `right` are where the seam is across the planes: half as far from the
/// middle as the seam's offset is from a half, on opposite sides.
pub open spec fn seam_placed<M: SceneMath>(
    math: M,
    seam_offset: Scalar,
    left: Scalar,
    right: Scalar,
) -> bool {
    let half = Scalar { bits: HALF };
    let two = Scalar { bits: TWO };
    exists|a: Scalar, b: Scalar|
        {
            &&& #[trigger] call_ensures(M::difference, (&math, half, seam_offset), a)
            &&& #[trigger] call_ensures(M::difference, (&math, seam_offset, half), b)
            &&& call_ensures(M::divided, (&math, a, two), left)
            &&& call_ensures(M::divided, (&math, b, two), right)
        }
}

/// `s` is the scene of a topology and a framing, with planes of the given
/// aspect.
pub open spec fn laid_out<M: SceneMath>(
    math: M,
    topology: Topology,
    framing: Framing,
    aspect: Scalar,
    s: SceneGeometry,
) -> bool {
    let zero = Scalar { bits: ZERO };
    &&& set_apart(math, topology, s.left_position[2])
    &&& s.left_position@ == seq![zero, zero, s.left_position[2]]
    &&& narrowed(math, topology.z_rx, s.left_rotation[0])
    &&& s.left_rotation[1] == (Scalar { bits: QUARTER_TURN })
    &&& narrowed(math, topology.z_rz, s.left_rotation[2])
    &&& s.right_position[0] == s.left_position[2]
    &&& narrowed(math, topology.x_ty, s.right_position[1])
    &&& s.right_position[2] == zero
    &&& narrowed(math, topology.x_rx, s.right_rotation[0])
    &&& s.right_rotation[1] == zero
    &&& narrowed(math, topology.x_rz, s.right_rotation[2])
    &&& narrowed(math, framing.axis_offset, s.camera_position[0])
    &&& s.camera_position@ == seq![s.camera_position[0], zero, s.camera_position[0]]
    &&& s.plane_width == (Scalar { bits: ONE })
    &&& s.plane_aspect == aspect
    &&& seam_placed(math, topology.seam_offset, s.left_seam_pivot_x, s.right_seam_pivot_x)
}

/// `s` is the scene of a calibration, whose planes have the first lens's aspect.
pub open spec fn scene_of<M: SceneMath>(
    math: M,
    calibration: Calibration,
    s: SceneGeometry,
) -> bool {
    exists|aspect: Scalar|
        {
            &&& call_ensures(
                M::ratio,
                (&math, calibration.lenses@[0].width, calibration.lenses@[0].height),
                aspect,
            )
            &&& #[trigger] laid_out(
                math,
                calibration.topology,
                calibration.framing,
                aspect,
                s,
            )
        }
}

impl SceneGeometry {
    pub fn new<M: SceneMath>(
        topology: &Topology,
        framing: &Framing,
        aspect: Scalar,
        math: &M,
    ) -> (s: SceneGeometry)
        ensures
            laid_out(*math, *topology, *framing, aspect, s),
    {
        let zero = Scalar { bits: ZERO };
        let intersect: Scalar = math.narrow(topology.intersect);
        let rest: Scalar = math.difference(Scalar { bits: ONE }, intersect);
        let half: Scalar = math.product(Scalar { bits: HALF }, rest);
        let axis: Scalar = math.narrow(framing.axis_offset);
        let two = Scalar { bits: TWO };
        let a: Scalar = math.difference(Scalar { bits: HALF }, topology.seam_offset);
        let b: Scalar = math.difference(topology.seam_offset, Scalar { bits: HALF });
        let left_seam_pivot_x: Scalar = math.divided(a, two);
        let right_seam_pivot_x: Scalar = math.divided(b, two);
        let s = SceneGeometry {
            left_position: [zero, zero, half],
            left_rotation: [
                math.narrow(topology.z_rx),
                Scalar { bits: QUARTER_TURN },
                math.narrow(topology.z_rz),
            ],
            right_position: [half, math.narrow(topology.x_ty), zero],
            right_rotation: [math.narrow(topology.x_rx), zero, math.narrow(topology.x_rz)],
            camera_position: [axis, zero, axis],
            plane_width: Scalar { bits: ONE },
            plane_aspect: aspect,
            left_seam_pivot_x,
            right_seam_pivot_x,
        };
        assert(narrowed(*math, topology.intersect, intersect));
        s
    }

    /// The scene of a calibration.
    pub fn of<M: SceneMath>(calibration: &Calibration, math: &M) -> (s: SceneGeometry)
        requires
            calibration.lenses@.len() > 0,
        ensures
            scene_of(*math, *calibration, s),
    {
        let aspect: Scalar = math.ratio(calibration.lenses[0].width, calibration.lenses[0].height);
        SceneGeometry::new(&calibration.topology, &calibration.framing, aspect, math)
    }
}

/// The plane that fades into the other, which the seam is drawn on.
pub open spec fn fading_plane(topology: Topology) -> CameraId {
    if topology.blend_flip_direction {
        CameraId::Left
    } else {
        CameraId::Right
    }
}

/// Where the seam is on the fading plane.
pub open spec fn seam_pivot(scene: SceneGeometry, plane: CameraId) -> Scalar {
    match plane {
        CameraId::Left => scene.left_seam_pivot_x,
        CameraId::Right => scene.right_seam_pivot_x,
    }
}

/// `line` are the top and the bottom of the seam of a scene on the screen, if
/// both are before the camera.
pub open spec fn seam_seen<M: SceneMath>(
    math: M,
    scene: SceneGeometry,
    plane: CameraId,
    view: SceneView,
    half_height: Scalar,
    line: Option<((Scalar, Scalar), (Scalar, Scalar))>,
) -> bool {
    let x = seam_pivot(scene, plane);
    match line {
        Some((top, bottom)) => {
            &&& call_ensures(
                M::on_screen,
                (&math, &scene, plane, view, (x, half_height)),
                Some(top),
            )
            &&& call_ensures(
                M::on_screen,
                (&math, &scene, plane, view, (x, half_height.spec_negated())),
                Some(bottom),
            )
        },
        None => {
            ||| call_ensures(
                M::on_screen,
                (&math, &scene, plane, view, (x, half_height)),
                None::<(Scalar, Scalar)>,
            )
            ||| call_ensures(
                M::on_screen,
                (&math, &scene, plane, view, (x, half_height.spec_negated())),
                None::<(Scalar, Scalar)>,
            )
        },
    }
}

/// Where the seam's top and bottom are seen: none where either is behind the
/// camera.
pub fn seam_line_screen_points<M: SceneMath>(
    calibration: &Calibration,
    viewport: &ViewportConfig,
    yaw: Scalar,
    pitch: Scalar,
    output_aspect: Scalar,
    math: &M,
) -> (line: Option<((Scalar, Scalar), (Scalar, Scalar))>)
    requires
        calibration.lenses@.len() > 0,
    ensures
        exists|scene: SceneGeometry, view: SceneView, half_height: Scalar|
            {
                &&& scene_of(*math, *calibration, scene)
                &&& view.yaw == yaw
                &&& view.pitch == pitch
                &&& narrowed(*math, calibration.framing.tilt, view.tilt)
                &&& narrowed(*math, calibration.framing.roll, view.roll)
                &&& view.fov_degrees == viewport.fov_degrees
                &&& view.aspect == output_aspect
                &&& call_ensures(
                    M::divided,
                    (math, Scalar { bits: HALF }, scene.plane_aspect),
                    half_height,
                )
                &&& #[trigger] seam_seen(
                    *math,
                    scene,
                    fading_plane(calibration.topology),
                    view,
                    half_height,
                    line,
                )
            },
{
    let scene: SceneGeometry = SceneGeometry::of(calibration, math);
    let view = SceneView {
        yaw,
        pitch,
        tilt: math.narrow(calibration.framing.tilt),
        roll: math.narrow(calibration.framing.roll),
        fov_degrees: viewport.fov_degrees,
        aspect: output_aspect,
    };
    let (plane, x): (CameraId, Scalar) = if calibration.topology.blend_flip_direction {
        (CameraId::Left, scene.left_seam_pivot_x)
    } else {
        (CameraId::Right, scene.right_seam_pivot_x)
    };
    let half_height: Scalar = math.divided(Scalar { bits: HALF }, scene.plane_aspect);
    let top: Option<(Scalar, Scalar)> = math.on_screen(&scene, plane, view, (x, half_height));
    let line: Option<((Scalar, Scalar), (Scalar, Scalar))> = match top {
        Some(t) => match math.on_screen(&scene, plane, view, (x, half_height.negated())) {
            Some(b) => Some((t, b)),
            None => None,
        },
        None => None,
    };
    assert(seam_seen(
        *math,
        scene,
        fading_plane(calibration.topology),
        view,
        half_height,
        line,
    ));
    line
}

/// The camera stands on the diagonal between the planes, which are equally far
/// from the corner.
pub proof fn scene_is_symmetric<M: SceneMath>(
    math: M,
    topology: Topology,
    framing: Framing,
    aspect: Scalar,
    s: SceneGeometry,
)
    requires
        laid_out(math, topology, framing, aspect, s),
    ensures
        s.camera_position[0] == s.camera_position[2],
        s.camera_position[1] == (Scalar { bits: ZERO }),
        s.left_position[2] == s.right_position[0],
{
}

} // verus!
