//! Where the seam is seen, with the matrices of a real projection.

use nalgebra::{
    Isometry3, Matrix4, Perspective3, Point3, Translation3, Unit, UnitQuaternion, Vector3, Vector4,
};
use reco_core::async_detect::CameraId;
use reco_core::calibration::{Calibration, Framing, Lens, Topology};
use reco_core::scalar::{Scalar, Wide};
use reco_core::scene::{seam_line_screen_points, SceneGeometry, SceneMath, SceneView};
use reco_core::viewport::ViewportConfig;

fn s(x: f32) -> Scalar {
    Scalar { bits: x.to_bits() }
}

fn f(x: Scalar) -> f32 {
    f32::from_bits(x.bits)
}

fn wide(x: f64) -> Wide {
    Wide { bits: x.to_bits() }
}

/// A camera that looks from its position to the corner.
struct Math;

impl Math {
    fn basis(position: [Scalar; 3]) -> (Vector3<f32>, Vector3<f32>) {
        let eye = Vector3::new(f(position[0]), f(position[1]), f(position[2]));
        let forward = (-eye).normalize();
        (forward, forward.cross(&Vector3::y()).normalize())
    }

    fn model(scene: &SceneGeometry, plane: CameraId) -> Matrix4<f32> {
        let (p, r, x) = match plane {
            CameraId::Left => (
                scene.left_position,
                scene.left_rotation,
                scene.left_seam_pivot_x,
            ),
            CameraId::Right => (
                scene.right_position,
                scene.right_rotation,
                scene.right_seam_pivot_x,
            ),
        };
        let at = Translation3::new(f(p[0]), f(p[1]), f(p[2])).to_homogeneous();
        let turned = |a: f32, b: f32, c: f32| {
            UnitQuaternion::from_euler_angles(a, b, c).to_homogeneous()
        };
        let (correction, base) = match plane {
            CameraId::Left => (
                turned(f(r[0]), 0.0, 0.0) * turned(0.0, 0.0, f(r[2])),
                turned(0.0, f(r[1]), 0.0),
            ),
            CameraId::Right => (turned(f(r[0]), f(r[1]), f(r[2])), Matrix4::identity()),
        };
        // The seam's middle height stays where the base rotation puts it.
        let seam = base * Vector4::new(f(x), 0.0, 0.0, 1.0);
        let pivot = Translation3::new(seam.x, seam.y, seam.z);
        at * pivot.to_homogeneous() * correction * pivot.inverse().to_homogeneous() * base
    }
}

impl SceneMath for Math {
    fn narrow(&self, x: Wide) -> Scalar {
        s(f64::from_bits(x.bits) as f32)
    }

    fn ratio(&self, a: u32, b: u32) -> Scalar {
        s(a as f32 / b as f32)
    }

    fn whole(&self, n: u32) -> Scalar {
        s(n as f32)
    }

    fn difference(&self, a: Scalar, b: Scalar) -> Scalar {
        s(f(a) - f(b))
    }

    fn product(&self, a: Scalar, b: Scalar) -> Scalar {
        s(f(a) * f(b))
    }

    fn divided(&self, a: Scalar, b: Scalar) -> Scalar {
        s(f(a) / f(b))
    }

    fn distance(&self, p: [Scalar; 3]) -> Scalar {
        s(Vector3::new(f(p[0]), f(p[1]), f(p[2])).norm())
    }

    fn flown(
        &self,
        position: [Scalar; 3],
        local: [Scalar; 3],
        _yaw: Scalar,
        _pitch: Scalar,
    ) -> [Scalar; 3] {
        let (forward, right) = Math::basis(position);
        let delta = right * f(local[0]) + Vector3::y() * f(local[1]) + forward * f(local[2]);
        [
            s(f(position[0]) + delta.x),
            s(f(position[1]) + delta.y),
            s(f(position[2]) + delta.z),
        ]
    }

    fn on_screen(
        &self,
        scene: &SceneGeometry,
        plane: CameraId,
        view: SceneView,
        at: (Scalar, Scalar),
    ) -> Option<(Scalar, Scalar)> {
        assert_eq!((f(view.tilt), f(view.roll)), (0.0, 0.0));
        let p = scene.camera_position;
        let eye = Point3::new(f(p[0]), f(p[1]), f(p[2]));
        let (rest_forward, base_right) = Math::basis(p);
        let up = Vector3::y();
        let yaw = UnitQuaternion::from_axis_angle(&Unit::new_normalize(up), f(view.yaw));
        let right = yaw * base_right;
        let pitch = UnitQuaternion::from_axis_angle(&Unit::new_normalize(right), f(view.pitch));
        let rotation = pitch * yaw;
        let target = eye + rotation * rest_forward;
        let looking = Isometry3::look_at_rh(&eye, &target, &(rotation * up)).to_homogeneous();
        let lens = Perspective3::new(
            f(view.aspect),
            f(view.fov_degrees).to_radians(),
            0.01,
            5.0,
        )
        .to_homogeneous();
        let mvp = lens * looking * Math::model(scene, plane);
        let clip = mvp * Vector4::new(f(at.0), f(at.1), 0.0, 1.0);
        if clip.w <= 1e-4 {
            return None;
        }
        Some((
            s((clip.x / clip.w + 1.0) * 0.5),
            s((1.0 - clip.y / clip.w) * 0.5),
        ))
    }
}

fn topology(intersect: f64) -> Topology {
    Topology {
        intersect: wide(intersect),
        x_ty: wide(0.0),
        x_rz: wide(0.0),
        z_rx: wide(0.0),
        x_rx: wide(0.0),
        z_rz: wide(0.0),
        blend_width: s(0.05),
        blend_flip_direction: false,
        seam_offset: s(0.0),
        multiband_blend_enabled: false,
        color_match_enabled: true,
        color_match_band_width: s(0.15),
        color_match_grid_cols: 8,
        color_match_grid_rows: 16,
        color_match_interval_frames: 15,
        color_match_ema_alpha: s(0.15),
        color_match_max_y_offset: s(0.06),
        color_match_max_chroma_offset: s(0.04),
        color_gamma_left: s(1.0),
        color_gamma_right: s(1.0),
        color_match_auto_gamma: false,
        color_grade_brightness: s(0.0),
        color_grade_saturation: s(1.0),
        color_grade_gamma: s(1.0),
        sharpen_amount: s(0.0),
        sharpen_radius: s(1.0),
        ground_tilt_x: wide(0.0),
        ground_tilt_z: wide(0.0),
        top_tilt_x: wide(0.0),
        top_tilt_z: wide(0.0),
        ground_tilt_band_width: wide(0.16),
        top_tilt_band_width: wide(0.16),
    }
}

fn calibration(lens: Lens, topology: Topology, axis_offset: f64) -> Calibration {
    Calibration {
        lenses: vec![lens, lens],
        topology,
        framing: Framing {
            axis_offset: wide(axis_offset),
            tilt: wide(0.0),
            roll: wide(0.0),
        },
    }
}

fn seam_test_calibration() -> Calibration {
    let lens = Lens {
        width: 1920,
        height: 1080,
        fx: wide(900.0),
        fy: wide(900.0),
        cx: wide(960.0),
        cy: wide(540.0),
        distortion: [wide(0.0); 4],
        correction: s(1.0),
    };
    calibration(lens, topology(0.54), 0.24)
}

fn points(
    cal: &Calibration,
    viewport: &ViewportConfig,
    yaw: f32,
    aspect: f32,
) -> Option<((f32, f32), (f32, f32))> {
    seam_line_screen_points(cal, viewport, s(yaw), s(0.0), s(aspect), &Math)
        .map(|(top, bottom)| ((f(top.0), f(top.1)), (f(bottom.0), f(bottom.1))))
}

#[test]
fn seam_line_screen_points_some_when_blend_width_zero() {
    let mut cal = seam_test_calibration();
    cal.topology.blend_width = s(0.0);
    let viewport = ViewportConfig::default();
    assert!(points(&cal, &viewport, 0.0, 16.0 / 9.0).is_some());
}

#[test]
fn seam_line_screen_points_returns_finite_points_near_center() {
    let cal = seam_test_calibration();
    let viewport = ViewportConfig::default();
    let (top, bottom) = points(&cal, &viewport, 0.0, 16.0 / 9.0)
        .expect("seam offset 0 straight ahead should project on-screen");
    for (x, y) in [top, bottom] {
        assert!(x.is_finite() && y.is_finite());
        assert!((-1.0..=2.0).contains(&x), "x={x} out of expected range");
        assert!((-1.0..=2.0).contains(&y), "y={y} out of expected range");
    }
    assert!(top.1 < bottom.1);
}

#[test]
fn seam_line_screen_points_shifts_monotonically_with_seam_offset() {
    let viewport = ViewportConfig::default();
    let at = |offset: f32| {
        let mut cal = seam_test_calibration();
        cal.topology.seam_offset = s(offset);
        points(&cal, &viewport, 0.0, 16.0 / 9.0)
            .expect("should project")
            .0
             .0
    };
    let x_neg = at(-0.1);
    let x_zero = at(0.0);
    let x_pos = at(0.1);
    assert!(
        x_neg < x_zero && x_zero < x_pos,
        "seam_offset should shift the projected x monotonically: {x_neg} < {x_zero} < {x_pos}"
    );
}

#[test]
fn seam_line_screen_points_tracks_yaw_not_just_straight_ahead() {
    let cal = seam_test_calibration();
    let viewport = ViewportConfig::default();
    let x_at = |yaw: f32| {
        points(&cal, &viewport, yaw, 16.0 / 9.0)
            .expect("should project")
            .0
             .0
    };
    let straight = x_at(0.0);
    let panned = x_at(0.3);
    assert!(
        (straight - panned).abs() > 0.05,
        "panning yaw should measurably move the projected seam column: \
         straight={straight} panned={panned}"
    );
}

#[test]
fn seam_line_screen_points_matches_real_screenshot_measurement() {
    let lens = Lens {
        width: 3840,
        height: 2880,
        fx: wide(1457.07373046875),
        fy: wide(1457.07373046875),
        cx: wide(1920.0),
        cy: wide(1440.0),
        distortion: [
            wide(0.15513110160827637),
            wide(0.1371408998966217),
            wide(-0.0938614010810852),
            wide(0.0041704000905156136),
        ],
        correction: s(1.0),
    };
    let topology = Topology {
        x_ty: wide(-0.00602530796897377),
        x_rz: wide(0.004217210506111289),
        z_rx: wide(-0.02375206433034046),
        blend_width: s(0.19363637),
        seam_offset: s(0.15829112),
        multiband_blend_enabled: true,
        color_match_band_width: s(0.4),
        color_match_max_chroma_offset: s(0.0),
        ground_tilt_x: wide(-0.007000000681728125),
        ground_tilt_z: wide(0.0010000000474974513),
        ..topology(0.656978189945221)
    };
    let cal = calibration(lens, topology, 0.18876110017299652);
    let viewport = ViewportConfig {
        fov_degrees: s(75.0),
        ..ViewportConfig::default()
    };
    let (top, bottom) = points(&cal, &viewport, 0.0, 1020.0 / 688.0).expect("should project");
    assert!(
        (top.0 - 0.5).abs() < 0.02,
        "expected top.x near 0.5 (measured ~0.499-0.501 from a real screenshot), got {}",
        top.0
    );
    assert!(
        (bottom.0 - 0.5).abs() < 0.02,
        "expected bottom.x near 0.5, got {}",
        bottom.0
    );
}

#[test]
fn turning_a_plane_keeps_the_middle_of_its_seam() {
    let cal = |z_rx: f64, z_rz: f64, x_rx: f64, x_rz: f64| {
        let turned = Topology {
            z_rx: wide(z_rx),
            z_rz: wide(z_rz),
            x_rx: wide(x_rx),
            x_rz: wide(x_rz),
            seam_offset: s(0.1),
            ..topology(0.5)
        };
        let cal = seam_test_calibration();
        SceneGeometry::new(&turned, &cal.framing, s(16.0 / 9.0), &Math)
    };
    let still = cal(0.0, 0.0, 0.0, 0.0);
    let turned = cal(0.05, -0.03, 0.02, 0.04);
    for (plane, x) in [
        (CameraId::Left, still.left_seam_pivot_x),
        (CameraId::Right, still.right_seam_pivot_x),
    ] {
        let middle = Vector4::new(f(x), 0.0, 0.0, 1.0);
        let moved = Math::model(&turned, plane) * middle - Math::model(&still, plane) * middle;
        assert!(moved.norm() < 1e-6, "{plane:?} moved by {moved}");
    }
}

#[test]
fn a_seam_behind_the_camera_is_not_seen() {
    let cal = seam_test_calibration();
    let viewport = ViewportConfig::default();
    assert_eq!(
        points(&cal, &viewport, std::f32::consts::PI, 16.0 / 9.0),
        None
    );
    let flipped = Calibration {
        topology: Topology {
            blend_flip_direction: true,
            seam_offset: s(0.1),
            ..cal.topology
        },
        ..seam_test_calibration()
    };
    let moved = points(&flipped, &viewport, 0.0, 16.0 / 9.0).expect("should project");
    let still = points(&seam_test_calibration(), &viewport, 0.0, 16.0 / 9.0).unwrap();
    assert!(moved.0 .0 < still.0 .0, "the left plane's seam moves left");
}
