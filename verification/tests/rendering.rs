//! The plan of a stitch, the pipeline's settings and the executors.

use reco_core::async_detect::CameraId;
use reco_core::band_gather::{GatheredSamples, MapPoll, Readback, TakeAction, SAMPLES_BYTES};
use reco_core::calibration::{Calibration, CalibrationError, Framing, Lens, Topology};
use reco_core::color_match::{BandMath, ColorCorrection, SourcePoint};
use reco_core::executor::{
    CpuExecutor, CpuSetup, Executor, GpuExecutor, GpuExecutorConfig, MemoryStitch, ProjectionInfo,
    SetupFacts, StitchError,
};
use reco_core::frame_buffer::{Nv12Data, Nv12FramePair, StereoFrame, YuvData, YuvFramePair};
use reco_core::overlay::{OverlayFrame, OverlayPlacement};
use reco_core::pipeline::{
    CompositeStep, GatherNext, GpuError, OverlayChange, PassChange, PipelineError, PipelineSetup,
    PlaneWrites, RenderPlan, RenderTo, StitchPipeline,
};
use reco_core::planes::{BgraPlanes, Nv12Planes, YuvPlanes};
use reco_core::renderer::{
    blur_bytes, blur_sigma, blur_width_driver, build_gpu_uniforms, composite_bytes,
    composite_sources, inv_gamma, multiband_textures, plan_multiband, plan_stitch, upload_bgra,
    upload_nv12, upload_yuv, GroundTilt, InputMode, LensUniforms, PassKind, RenderError, Renderer,
    StitchInputs, StitchMath, Target, TopTilt,
};
use reco_core::resources::{
    plane_textures, quad_vertices, vertex_bytes, BindGroup, Binding, GpuPixelFormat, InputFormat,
    PlaneName, ShaderProgram, TextureFormat,
};
use reco_core::scalar::{Scalar, Wide};
use reco_core::scene::{SceneGeometry, SceneMath, SceneView};
use reco_core::single_camera::SingleCameraRenderer;
use reco_core::viewport::{ViewportConfig, ViewportError};

fn s(x: f32) -> Scalar {
    Scalar { bits: x.to_bits() }
}

fn f(x: Scalar) -> f32 {
    f32::from_bits(x.bits)
}

fn wide(x: f64) -> Wide {
    Wide { bits: x.to_bits() }
}

fn d(x: Wide) -> f64 {
    f64::from_bits(x.bits)
}

fn show(x: Scalar) -> String {
    format!("{}", f(x))
}

fn level() -> GroundTilt {
    GroundTilt {
        tilt: s(0.0),
        k: s(0.0),
        band_full: s(0.0),
    }
}

fn level_top() -> TopTilt {
    TopTilt {
        tilt: s(0.0),
        k: s(0.0),
        band_full: s(0.0),
    }
}

fn identity() -> [[Scalar; 4]; 4] {
    let mut m = [[s(0.0); 4]; 4];
    for i in 0..4 {
        m[i][i] = s(1.0);
    }
    m
}

fn lens_uniforms(w: u32, h: u32, fx: f64, fy: f64, cx: f64, cy: f64, d: [f64; 4]) -> LensUniforms {
    let lens = Lens {
        width: w,
        height: h,
        fx: wide(fx),
        fy: wide(fy),
        cx: wide(cx),
        cy: wide(cy),
        distortion: d.map(wide),
        correction: s(1.0),
    };
    LensUniforms::of(&lens, &Math)
}

fn plain_mode() -> InputMode {
    InputMode {
        format: InputFormat::Yuv420p,
        flip_180: false,
        full_range: false,
    }
}

#[test]
fn uniforms_are_normalized() {
    let camera = lens_uniforms(
        3840,
        2160,
        1796.32,
        1797.22,
        1919.37,
        1063.17,
        [0.0342, 0.0677, -0.0741, 0.0299],
    );
    let u = build_gpu_uniforms(
        identity(),
        &camera,
        false,
        s(0.0),
        plain_mode(),
        level(),
        level_top(),
    );
    assert!((f(u.intrinsics[0]) - 1796.32 / 3840.0).abs() < 1e-4);
    assert!((f(u.intrinsics[3]) - 1063.17 / 2160.0).abs() < 1e-4);
    assert!((f(u.intrinsics[1]) - 1797.22 / 2160.0).abs() < 1e-4);
    assert!((f(u.intrinsics[2]) - 1919.37 / 3840.0).abs() < 1e-4);
    assert_eq!(f(u.dist[2]), -0.0741);
    assert_eq!(u.flags[0], 0);
    assert_eq!(u.flags[1], 0);
    assert_eq!(f(u.ground_tilt[0]), 0.0);
    assert_eq!(f(u.ground_tilt[1]), 0.0);
    assert_eq!(f(u.top_tilt[0]), 0.0);
    assert_eq!(f(u.top_tilt[1]), 0.0);
}

#[test]
fn ground_tilt_uniform_packs_plane_aspect() {
    let camera = lens_uniforms(3840, 2880, 1457.07, 1457.07, 1920.0, 1440.0, [0.0; 4]);
    let u = build_gpu_uniforms(
        identity(),
        &camera,
        true,
        s(0.0),
        plain_mode(),
        GroundTilt {
            tilt: s(-0.09),
            k: s(0.1897),
            band_full: s(0.2),
        },
        level_top(),
    );
    assert_eq!(f(u.ground_tilt[0]), -0.09);
    assert!((f(u.ground_tilt[1]) - 0.1897).abs() < 1e-6);
    assert!((f(u.ground_tilt[2]) - (3840.0 / 2880.0)).abs() < 1e-6);
    assert_eq!(f(u.top_tilt[2]), 0.2);
}

#[test]
fn top_tilt_uniform_packs_correctly() {
    let camera = lens_uniforms(3840, 2880, 1457.07, 1457.07, 1920.0, 1440.0, [0.0; 4]);
    let u = build_gpu_uniforms(
        identity(),
        &camera,
        true,
        s(0.0),
        plain_mode(),
        level(),
        TopTilt {
            tilt: s(0.05),
            k: s(0.1897),
            band_full: s(0.18),
        },
    );
    assert_eq!(f(u.top_tilt[0]), 0.05);
    assert!((f(u.top_tilt[1]) - 0.1897).abs() < 1e-6);
    assert_eq!(f(u.ground_tilt[0]), 0.0);
    assert_eq!(f(u.top_tilt[3]), 0.18);
}

fn native(words: &[u32]) -> Vec<u8> {
    words.iter().flat_map(|w| w.to_ne_bytes()).collect()
}

#[test]
fn a_block_of_uniforms_is_its_words_in_order() {
    let camera = lens_uniforms(4, 2, 8.0, 4.0, 2.0, 1.0, [0.1, 0.2, 0.3, 0.4]);
    let u = build_gpu_uniforms(
        identity(),
        &camera,
        true,
        s(0.05),
        InputMode {
            format: InputFormat::Bgra,
            flip_180: true,
            full_range: false,
        },
        level(),
        level_top(),
    );
    let bytes = u.bytes();
    assert_eq!(bytes.len(), 192);
    let words: Vec<u32> = bytes
        .chunks_exact(4)
        .map(|c| u32::from_ne_bytes([c[0], c[1], c[2], c[3]]))
        .collect();
    assert_eq!(f32::from_bits(words[0]), 1.0);
    assert_eq!(f32::from_bits(words[1]), 0.0);
    assert_eq!(f32::from_bits(words[16]), 2.0);
    assert_eq!(f32::from_bits(words[23]), 0.4);
    assert_eq!(f32::from_bits(words[31]), 0.05);
    assert_eq!(&words[32..36], &[1, 2, 1, 0]);
    assert_eq!(f32::from_bits(words[36]), 1.0);
    assert_eq!(f32::from_bits(words[42]), 2.0);
}

/// The numbers of a stitch. Samples count by their luma alone, and a lens changes
/// nothing.
struct Math;

impl SceneMath for Math {
    fn narrow(&self, x: Wide) -> Scalar {
        s(f64::from_bits(x.bits) as f32)
    }

    fn ratio(&self, a: u32, b: u32) -> Scalar {
        s(a as f32 / b as f32)
    }

    fn whole(&self, n: u32) -> Scalar {
        s(n as f32)
    }

    fn difference(&self, a: Scalar, b: Scalar) -> Scalar {
        s(f(a) - f(b))
    }

    fn product(&self, a: Scalar, b: Scalar) -> Scalar {
        s(f(a) * f(b))
    }

    fn divided(&self, a: Scalar, b: Scalar) -> Scalar {
        s(f(a) / f(b))
    }

    fn distance(&self, p: [Scalar; 3]) -> Scalar {
        s((f(p[0]).powi(2) + f(p[1]).powi(2) + f(p[2]).powi(2)).sqrt())
    }

    fn flown(&self, p: [Scalar; 3], by: [Scalar; 3], yaw: Scalar, _: Scalar) -> [Scalar; 3] {
        [
            s(f(p[0]) + f(by[0])),
            s(f(p[1]) + f(by[1]) + f(yaw)),
            s(f(p[2]) + f(by[2])),
        ]
    }

    fn on_screen(
        &self,
        _scene: &SceneGeometry,
        _plane: CameraId,
        _view: SceneView,
        at: (Scalar, Scalar),
    ) -> Option<(Scalar, Scalar)> {
        Some(at)
    }
}

impl StitchMath for Math {
    fn tilt_constant(&self, lens: &Lens) -> Scalar {
        s(lens.width as f32 / 100.0)
    }

    fn transform(
        &self,
        scene: &SceneGeometry,
        plane: CameraId,
        view: SceneView,
    ) -> [[Scalar; 4]; 4] {
        let mut m = identity();
        m[3] = [
            view.yaw,
            view.pitch,
            scene.camera_position[0],
            s(if plane == CameraId::Left { 1.0 } else { 2.0 }),
        ];
        m[2][0] = view.aspect;
        m
    }
}

impl BandMath for Math {
    fn widen(&self, x: Scalar) -> Wide {
        wide(f64::from(f(x)))
    }

    fn wide_sum(&self, a: Wide, b: Wide) -> Wide {
        wide(d(a) + d(b))
    }

    fn wide_difference(&self, a: Wide, b: Wide) -> Wide {
        wide(d(a) - d(b))
    }

    fn wide_product(&self, a: Wide, b: Wide) -> Wide {
        wide(d(a) * d(b))
    }

    fn wide_ratio(&self, a: Wide, b: Wide) -> Wide {
        wide(d(a) / d(b))
    }

    fn wide_whole(&self, n: u32) -> Wide {
        wide(f64::from(n))
    }

    fn sum(&self, a: Scalar, b: Scalar) -> Scalar {
        s(f(a) + f(b))
    }

    fn difference(&self, a: Scalar, b: Scalar) -> Scalar {
        s(f(a) - f(b))
    }

    fn product(&self, a: Scalar, b: Scalar) -> Scalar {
        s(f(a) * f(b))
    }

    fn project(&self, _lens: &Lens, _width: u32, _height: u32, at: (Wide, Wide)) -> SourcePoint {
        SourcePoint {
            x: Some(d(at.0).floor() as i64),
            y: Some(d(at.1).floor() as i64),
        }
    }

    fn average(&self, samples: &Vec<(u8, u8, u8)>, _: bool, _: Scalar) -> [Scalar; 3] {
        let sum: f32 = samples.iter().map(|p| p.0 as f32).sum();
        [s(sum / samples.len() as f32 / 255.0); 3]
    }

    fn average_normalized(&self, samples: &Vec<[Scalar; 4]>, _: bool, _: Scalar) -> [Scalar; 3] {
        let sum: f32 = samples.iter().map(|p| f(p[0])).sum();
        [s(sum / samples.len() as f32); 3]
    }
}

fn color() -> ColorCorrection {
    ColorCorrection {
        left_offset: [s(0.01), s(0.02), s(0.03)],
        right_offset: [s(-0.01), s(-0.02), s(-0.03)],
        left_gamma: s(1.0),
        right_gamma: s(1.0),
    }
}

fn lens() -> Lens {
    Lens {
        width: 64,
        height: 36,
        fx: wide(30.0),
        fy: wide(30.0),
        cx: wide(32.0),
        cy: wide(18.0),
        distortion: [wide(0.0); 4],
        correction: s(1.0),
    }
}

fn topology() -> Topology {
    Topology {
        intersect: wide(0.5),
        x_ty: wide(0.0),
        x_rz: wide(0.0),
        z_rx: wide(0.0),
        x_rx: wide(0.0),
        z_rz: wide(0.0),
        blend_width: s(0.05),
        blend_flip_direction: false,
        seam_offset: s(0.1),
        multiband_blend_enabled: false,
        color_match_enabled: true,
        color_match_band_width: s(0.15),
        color_match_grid_cols: 8,
        color_match_grid_rows: 16,
        color_match_interval_frames: 15,
        color_match_ema_alpha: s(1.0),
        color_match_max_y_offset: s(0.06),
        color_match_max_chroma_offset: s(0.04),
        color_gamma_left: s(1.1),
        color_gamma_right: s(0.9),
        color_match_auto_gamma: false,
        color_grade_brightness: s(0.0),
        color_grade_saturation: s(1.0),
        color_grade_gamma: s(1.0),
        sharpen_amount: s(0.0),
        sharpen_radius: s(1.0),
        ground_tilt_x: wide(0.0),
        ground_tilt_z: wide(0.0),
        top_tilt_x: wide(0.0),
        top_tilt_z: wide(0.0),
        ground_tilt_band_width: wide(0.16),
        top_tilt_band_width: wide(0.16),
    }
}

fn calibration() -> Calibration {
    Calibration {
        lenses: vec![lens(), lens()],
        topology: topology(),
        framing: framing(0.25),
    }
}

fn scene_from(
    intersect: f64,
    x_ty: f64,
    x_rz: f64,
    z_rx: f64,
    axis_offset: f64,
    aspect: f32,
) -> SceneGeometry {
    let topology = Topology {
        intersect: wide(intersect),
        x_ty: wide(x_ty),
        x_rz: wide(x_rz),
        z_rx: wide(z_rx),
        seam_offset: s(0.0),
        ..topology()
    };
    SceneGeometry::new(&topology, &framing(axis_offset), s(aspect), &Math)
}

fn framing(axis_offset: f64) -> Framing {
    Framing {
        axis_offset: wide(axis_offset),
        tilt: wide(0.0),
        roll: wide(0.0),
    }
}

#[test]
fn geometry_from_default_layout() {
    let geom = scene_from(0.5, 0.0, 0.0, 0.0, 0.25, 16.0 / 9.0);
    assert!((f(geom.left_position[2]) - 0.25).abs() < 1e-5);
    assert!((f(geom.right_position[0]) - 0.25).abs() < 1e-5);
    assert!((f(geom.camera_position[0]) - 0.25).abs() < 1e-5);
    assert!((f(geom.camera_position[2]) - 0.25).abs() < 1e-5);
    assert!((f(geom.plane_aspect) - 16.0 / 9.0).abs() < 1e-5);
}

#[test]
fn geometry_with_corrections() {
    let geom = scene_from(0.55, 0.005, 0.008, -0.004, 0.24, 16.0 / 9.0);
    assert!((f(geom.right_position[1]) - 0.005).abs() < 1e-5);
    assert!((f(geom.right_rotation[2]) - 0.008).abs() < 1e-5);
    assert!((f(geom.left_rotation[0]) - (-0.004)).abs() < 1e-5);
    assert_eq!(f(geom.left_rotation[1]), std::f32::consts::FRAC_PI_2);
}

#[test]
fn geometry_with_custom_aspect() {
    let aspect_4_3 = 4.0 / 3.0;
    let geom = scene_from(0.5, 0.0, 0.0, 0.0, 0.25, aspect_4_3);
    assert!((f(geom.plane_aspect) - aspect_4_3).abs() < 1e-5);
}

fn setup() -> PipelineSetup {
    PipelineSetup {
        calibration: calibration(),
        calibration_check: Ok(()),
        viewport: ViewportConfig {
            width: 64,
            height: 36,
            ..Default::default()
        },
        input_width: 64,
        input_height: 36,
        max_dim: 16384,
        output_format: TextureFormat::Rgba8Unorm,
        input_format: InputFormat::Nv12,
        color_grade_identity: true,
        sharpen_identity: true,
    }
}

fn pipeline() -> StitchPipeline {
    match StitchPipeline::with_gpu(setup(), &show, &Math) {
        Ok(p) => p,
        Err(e) => panic!("{}", e.message()),
    }
}

fn inputs(flip: bool, show_seam_line: bool) -> StitchInputs {
    let mut p = pipeline();
    p.set_blend_flip_direction(flip);
    p.set_show_seam_line(show_seam_line);
    p.set_flip_180(true, false);
    p.stitch_inputs(RenderTo::Target, (s(0.0), s(0.0)), color(), &Math)
}

#[test]
fn the_fading_plane_is_drawn_second_and_carries_the_seam() {
    let plan = plan_stitch(&inputs(false, true));
    assert_eq!((plan.first, plan.second), (CameraId::Left, CameraId::Right));
    assert_eq!(f(plan.right.ground_tilt[3]), 1.0);
    assert_eq!(f(plan.left.ground_tilt[3]), 0.0);
    assert_eq!(f(plan.right.lens_preview[2]), 1.0);
    assert_eq!(f(plan.left.lens_preview[2]), 0.0);
    assert_eq!(f(plan.right.lens_preview[3]), 0.1);
    assert_eq!(f(plan.left.lens_preview[3]), 0.0);
    assert_eq!(f(plan.left.color_offset_blend[1]), 0.02);
    assert_eq!(f(plan.right.color_offset_blend[1]), -0.02);
    assert_eq!(f(plan.right.color_offset_blend[3]), 0.05);
    assert_eq!(plan.left.flags, [0, 1, 1, 0]);
    assert_eq!(plan.right.flags, [1, 1, 0, 0]);
    let flipped = plan_stitch(&inputs(true, false));
    assert_eq!(
        (flipped.first, flipped.second),
        (CameraId::Right, CameraId::Left)
    );
    assert_eq!(f(flipped.left.ground_tilt[3]), 1.0);
    assert_eq!(f(flipped.left.lens_preview[2]), 0.0);
    assert_eq!(f(flipped.left.lens_preview[3]), 0.1);
    assert_eq!(f(flipped.right.lens_preview[3]), 0.0);
}

#[test]
fn the_multiband_stitch_masks_the_fading_plane() {
    let plan = plan_multiband(&inputs(false, false));
    assert_eq!(f(plan.left.ground_tilt[3]), 0.0);
    assert_eq!(f(plan.right.ground_tilt[3]), 0.0);
    assert_eq!(f(plan.right.lens_preview[3]), 0.0);
    assert_eq!(f(plan.mask.ground_tilt[3]), 1.0);
    assert_eq!(f(plan.mask.color_offset_blend[3]), 1e-4);
    assert_eq!(f(plan.mask.lens_preview[3]), 0.1);
    assert_eq!(plan.mask.flags[0], 1);
    assert_eq!(plan.passes.len(), 10);
    let marked = plan_multiband(&inputs(true, true));
    assert_eq!(f(marked.left.lens_preview[2]), 1.0);
    assert_eq!(f(marked.left.lens_preview[3]), 0.1);
    assert_eq!(f(marked.right.lens_preview[2]), 0.0);
    assert_eq!(f(marked.mask.lens_preview[2]), 0.0, "the mask has no line");
    assert_eq!(marked.mask.flags[0], 0);
    assert_eq!(
        marked.passes[2].kind,
        PassKind::MaskPlane {
            camera: CameraId::Left
        }
    );
}

#[test]
fn only_the_output_starts_black() {
    assert!(Target::Output.cleared_opaque());
    for between in [Target::Left, Target::Mask, Target::Tmp, Target::RightBlur] {
        assert!(!between.cleared_opaque());
    }
}

#[test]
fn every_source_of_a_pass_was_drawn_before() {
    let plan = plan_multiband(&inputs(false, false));
    let mut drawn: Vec<Target> = Vec::new();
    for pass in &plan.passes {
        let sources = match pass.kind {
            PassKind::BlurHorizontal { source, .. } | PassKind::BlurVertical { source, .. } => {
                vec![source]
            }
            PassKind::Composite => composite_sources(),
            _ => vec![],
        };
        for source in sources {
            assert!(drawn.contains(&source));
            assert_ne!(source, pass.target);
        }
        drawn.push(pass.target);
    }
    assert_eq!(multiband_textures().len(), 7);
}

#[test]
fn blur_and_composite_parameters() {
    assert_eq!(f(blur_width_driver(true, s(0.05), s(0.15))), 0.15);
    assert_eq!(f(blur_width_driver(false, s(0.05), s(0.15))), 0.05);
    assert_eq!(f(blur_sigma(s(0.5))), 2.0);
    assert_eq!(f(blur_sigma(s(5.5))), 5.5);
    assert_eq!(f(blur_sigma(s(99.0))), 10.0);
    let bytes = blur_bytes(
        [s(0.25), s(0.5)],
        s(3.0),
        PassKind::BlurHorizontal {
            source: Target::Left,
            premultiply: true,
        },
    );
    let words: Vec<u32> = [0.25f32, 0.5, 1.0, 0.0, 3.0, 1.0, 0.0, 0.0]
        .iter()
        .map(|x| x.to_bits())
        .collect();
    assert_eq!(bytes, native(&words));
    let words: Vec<u32> = [1.0f32, 0.04, 0.0, 0.0].iter().map(|x| x.to_bits()).collect();
    assert_eq!(composite_bytes(CameraId::Right), native(&words));
    assert_eq!(&composite_bytes(CameraId::Left)[0..4], &[0, 0, 0, 0]);
}

#[test]
fn planes_of_the_wrong_size_are_refused() {
    let (y, c) = (vec![0u8; 8], vec![0u8; 2]);
    let yuv = |y, u, v| upload_yuv(4, 2, &YuvPlanes { y, u, v });
    let (luma, chroma) = yuv(&y, &c, &c).unwrap();
    assert_eq!((luma.width, luma.height, luma.bytes_per_row), (4, 2, 4));
    assert_eq!((chroma.width, chroma.height, chroma.bytes_per_row), (2, 1, 2));
    let mismatch = |expected, actual| RenderError::FrameSizeMismatch { expected, actual };
    assert_eq!(yuv(&y[..7], &c, &c).unwrap_err(), mismatch(8, 7));
    assert_eq!(yuv(&y, &y, &c).unwrap_err(), mismatch(2, 8));
    assert_eq!(yuv(&y, &c, &[]).unwrap_err(), mismatch(2, 0));
    assert_eq!(
        mismatch(8, 7).message(),
        "frame data size mismatch: expected 8 bytes, got 7"
    );
    let nv12 = |y, uv| upload_nv12(4, 2, &Nv12Planes { y, uv });
    let (_, chroma) = nv12(&y, &y[..4]).unwrap();
    assert_eq!(chroma.bytes_per_row, 4);
    assert_eq!(nv12(&y, &c).unwrap_err(), mismatch(4, 2));
    assert_eq!(nv12(&c, &c).unwrap_err(), mismatch(8, 2));
    let bgra = |rgba| upload_bgra(1, 2, &BgraPlanes { rgba });
    assert_eq!(bgra(&y).unwrap().bytes_per_row, 4);
    assert_eq!(bgra(&c).unwrap_err(), mismatch(8, 2));
}

#[test]
fn textures_follow_the_input_format() {
    let t = plane_textures(InputFormat::Nv12, 640, 480);
    assert_eq!(t.first.0, PlaneName::Y);
    assert_eq!(t.second.0, PlaneName::Uv);
    assert_eq!(t.second.1.format, TextureFormat::Rg8Unorm);
    assert_eq!((t.second.1.width, t.second.1.height), (320, 240));
    assert_eq!((t.third.1.width, t.third.1.height), (1, 1));
    let t = plane_textures(InputFormat::Bgra, 640, 480);
    assert_eq!(t.first.0, PlaneName::Rgba);
    assert_eq!(t.first.1.format, TextureFormat::Rgba8Unorm);
    assert_eq!(t.second.0, PlaneName::UDummy);
    let t = plane_textures(InputFormat::Yuv420p, 640, 480);
    assert_eq!(t.third.0, PlaneName::V);
    assert_eq!((t.third.1.width, t.third.1.height), (320, 240));
    assert_eq!(GpuPixelFormat::Nv12.bytes_per_sample(), 1);
    assert_eq!(GpuPixelFormat::P010.bytes_per_sample(), 2);
    assert_eq!(GpuPixelFormat::P010.y_format(), TextureFormat::R16Unorm);
    assert_eq!(GpuPixelFormat::P010.uv_format(), TextureFormat::Rg16Unorm);
    assert_eq!(GpuPixelFormat::Nv12.wgpu_format(), TextureFormat::Nv12);
    assert_eq!(BindGroup::Gather.bindings().len(), 5);
    assert_eq!(BindGroup::Overlay.bindings()[1], Binding::Sampler);
    assert_eq!(
        ShaderProgram::Composite.groups(),
        vec![BindGroup::CompositeSources, BindGroup::Uniforms]
    );
    assert_eq!(ShaderProgram::Plane.vertices(), 6);
}

#[test]
fn the_plane_is_two_triangles() {
    let vs = quad_vertices(s(16.0 / 9.0), &Math);
    let xy: Vec<(f32, f32)> = vs
        .iter()
        .map(|v| (f(v.position[0]), f(v.position[1])))
        .collect();
    assert_eq!(
        xy,
        vec![
            (-0.5, -0.28125),
            (0.5, -0.28125),
            (0.5, 0.28125),
            (-0.5, -0.28125),
            (0.5, 0.28125),
            (-0.5, 0.28125)
        ]
    );
    let uv: Vec<(f32, f32)> = vs.iter().map(|v| (f(v.uv[0]), f(v.uv[1]))).collect();
    assert_eq!(uv[0], (0.0, 1.0));
    assert_eq!(uv[5], (0.0, 0.0));
    let bytes = vertex_bytes(&vs);
    assert_eq!(bytes.len(), 6 * 20);
    assert_eq!(&bytes[0..4], &(-0.5f32).to_ne_bytes());
    assert_eq!(&bytes[20..24], &0.5f32.to_ne_bytes());
}

#[test]
fn multiband_textures_are_remade_for_another_size() {
    let mut r = Renderer::new(64, 36, 32, 18, InputFormat::Bgra);
    assert!(!r.ensure_size(64, 36));
    assert!(r.ensure_size(128, 72));
    assert!(!r.ensure_size(128, 72));
}

#[test]
fn a_small_picture_is_read_back_without_padding() {
    let (r, resources) = SingleCameraRenderer::new(640, 480, 2, 3);
    assert_eq!(r.aligned_row(), 256);
    assert_eq!(resources.readback_bytes, 768);
    assert_eq!(resources.planes.second.1.width, 320);
    let mut mapped = vec![0xeeu8; 768];
    for row in 0..3usize {
        for k in 0..8usize {
            mapped[row * 256 + k] = (row * 8 + k) as u8;
        }
    }
    let rgba = r.strip_readback(&mapped);
    assert_eq!(rgba, (0..24).collect::<Vec<u8>>());
    let scene = scene_from(0.5, 0.0, 0.0, 0.0, 0.25, 1.0);
    let u = r.uniforms(&scene, &lens(), true, s(60.0), &Math);
    assert_eq!(u.mvp[3], [s(0.0), s(0.0), s(0.25), s(2.0)]);
    assert_eq!(f(u.mvp[2][0]), 2.0 / 3.0);
    assert_eq!(f(u.intrinsics[0]), 30.0 / 64.0);
    assert_eq!(f(u.color_offset_blend[3]), 0.0);
    assert_eq!(u.flags, [1, 0, 0, 0]);
    let (luma, chroma) = r.plane_writes();
    assert_eq!((luma.bytes_per_row, chroma.bytes_per_row), (640, 320));
}

#[test]
fn viewports_are_checked_in_order() {
    let fine = ViewportConfig::default();
    assert!(fine.validate().is_ok());
    assert_eq!(f(fine.fov_degrees), 75.0);
    assert_eq!(f(fine.blend_width), 0.05);
    assert_eq!(f(fine.color_match_ema_alpha), 0.15);
    assert_eq!(f(fine.color_match_max_y_offset), 0.06);
    assert_eq!(f(fine.color_match_max_chroma_offset), 0.04);
    let said = |c: ViewportConfig, shown: &str| c.validate().unwrap_err().message(shown);
    assert_eq!(
        said(ViewportConfig { width: 0, ..fine }, ""),
        "viewport dimensions must be non-zero, got 0x1080"
    );
    for fov in [0.5f32, 179.0, f32::NAN] {
        let bad = ViewportConfig {
            fov_degrees: s(fov),
            ..fine
        };
        assert!(matches!(bad.validate(), Err(ViewportError::Fov(_))));
    }
    let edge = ViewportConfig {
        fov_degrees: s(1.0),
        blend_width: s(1.0),
        ..fine
    };
    assert!(edge.validate().is_ok());
    assert_eq!(
        said(
            ViewportConfig {
                blend_width: s(1.5),
                ..fine
            },
            "1.5"
        ),
        "blend_width must be in [0, 1], got 1.5"
    );
    let ratio = |w: u32, h: u32| s(w as f32 / h as f32);
    assert!((f(fine.aspect_ratio(&ratio)) - 16.0 / 9.0).abs() < 1e-6);
    assert_eq!(f(ViewportConfig { height: 0, ..fine }.aspect_ratio(&ratio)), 1.0);
}

#[test]
fn a_pipeline_refuses_what_is_not_valid() {
    let refuse = |setup: PipelineSetup| match StitchPipeline::with_gpu(setup, &show, &Math) {
        Ok(_) => panic!("must be refused"),
        Err(e) => e.message(),
    };
    assert_eq!(
        refuse(PipelineSetup {
            calibration_check: Err(CalibrationError {
                reason: "no lenses".to_string()
            }),
            input_width: 0,
            ..setup()
        }),
        "invalid calibration: no lenses"
    );
    assert_eq!(
        refuse(PipelineSetup {
            viewport: ViewportConfig {
                fov_degrees: s(200.5),
                ..Default::default()
            },
            ..setup()
        }),
        "invalid config: fov_degrees must be in (1, 179), got 200.5"
    );
    assert_eq!(
        refuse(PipelineSetup {
            input_height: 0,
            ..setup()
        }),
        "invalid config: input dimensions must be > 0, got 64x0"
    );
    assert_eq!(
        refuse(PipelineSetup {
            input_width: 20000,
            ..setup()
        }),
        "invalid config: input dimensions 20000x36 exceed MAX_DIM (16384)"
    );
    assert_eq!(
        PipelineError::Gpu(GpuError {
            reason: "lost".to_string()
        })
        .message(),
        "GPU error: lost"
    );
    assert_eq!(
        PipelineError::Render(RenderError::FrameSizeMismatch {
            expected: 1,
            actual: 2
        })
        .message(),
        "render error: frame data size mismatch: expected 1 bytes, got 2"
    );
}

fn card(width: u32) -> OverlayFrame {
    OverlayFrame {
        width,
        height: 1,
        design_size: (width, 1),
        rgba: vec![9; width as usize * 4],
    }
}

#[test]
fn overlays_are_placed_resized_and_cleared() {
    let mut p = pipeline();
    let at = OverlayPlacement {
        offset: (s(0.25), s(0.0)),
        scale: s(0.5),
    };
    p.set_overlay_placement(at);
    assert!(!p.has_overlay());
    assert!(matches!(
        p.set_overlay_frame(&card(2)),
        Ok(OverlayChange::Created(_))
    ));
    assert_eq!(p.overlay.unwrap().placement, at);
    assert!(matches!(
        p.set_overlay_frame(&card(3)),
        Ok(OverlayChange::Uploaded(plan)) if plan.recreate_texture && plan.write_params
    ));
    let e = p.set_overlay_frame(&card(0)).unwrap_err();
    assert_eq!(
        e.message(),
        "invalid config: invalid overlay frame: overlay dimensions must be non-zero"
    );
    assert!(p.set_transition_frame(&card(1)).is_ok());
    assert_eq!(p.transition.unwrap().placement, OverlayPlacement::default());
    assert!(p.set_transition_opacity(s(0.5)));
    assert!(!p.set_transition_opacity(s(0.5)));
    assert_eq!(p.resize(0, 10), None);
    assert_eq!(p.viewport().width, 64);
    assert_eq!(p.resize(128, 72), Some((128, 72)));
    assert_eq!(p.overlay.unwrap().output_size, (128, 72));
    assert_eq!(p.transition.unwrap().output_size, (128, 72));
    p.clear_overlay();
    p.clear_transition();
    assert!(!p.has_overlay() && !p.has_transition());
    assert!(!p.set_transition_opacity(s(0.1)));
}

#[test]
fn steps_are_drawn_in_order() {
    let mut p = pipeline();
    assert!(p.target_steps().is_empty());
    assert!(p.set_overlay_frame(&card(1)).is_ok());
    assert!(p.set_transition_frame(&card(1)).is_ok());
    assert_eq!(
        p.set_color_grade(s(0.1), s(1.0), s(1.0), false),
        PassChange::Create
    );
    assert_eq!(p.set_sharpen_params(s(0.5), s(1.0), false), PassChange::Create);
    assert_eq!(
        p.target_steps(),
        vec![
            CompositeStep::ColorGrade,
            CompositeStep::Transition,
            CompositeStep::Overlay,
            CompositeStep::Sharpen
        ]
    );
    assert_eq!(
        p.view_steps(),
        vec![
            CompositeStep::Transition,
            CompositeStep::Overlay,
            CompositeStep::ColorGrade,
            CompositeStep::Sharpen
        ]
    );
    assert_eq!(
        p.set_color_grade(s(0.0), s(1.0), s(1.0), true),
        PassChange::Update
    );
    assert_eq!(f(p.color_grade().0), 0.0);
    assert_eq!(f(p.sharpen_params().0), 0.5);
    assert_eq!(p.target_steps()[0], CompositeStep::Transition);
    assert!(p.sharpen_pass.scratch_for(64, 36));
    assert!(!p.sharpen_pass.scratch_for(64, 36));
    p.resize(10, 10);
    assert!(p.sharpen_pass.scratch_for(64, 36));
    let mut fresh = pipeline();
    assert_eq!(
        fresh.set_sharpen_params(s(0.0), s(1.0), true),
        PassChange::Nothing
    );
}

#[test]
fn settings_are_held_to_what_can_be_drawn() {
    let mut p = pipeline();
    p.set_fov(s(500.0));
    assert_eq!(f(p.fov()), 179.0);
    p.set_fov(s(0.0));
    assert_eq!(f(p.fov()), 1.0);
    p.set_lens_correction_amount(s(7.0));
    assert!(p.calibration().lenses.iter().all(|l| f(l.correction) == 1.0));
    p.set_lens_correction_amount(s(0.25));
    assert!(p.calibration().lenses.iter().all(|l| f(l.correction) == 0.25));
    let before = p.camera_position();
    p.set_camera_position([s(0.001), s(0.0), s(0.0)], &Math);
    assert_eq!(p.camera_position(), before);
    p.set_camera_position([s(3.0), s(4.0), s(0.0)], &Math);
    assert_eq!(f(p.camera_position()[1]), 4.0);
    p.fly_camera([s(1.0), s(0.5), s(0.0)], s(0.25), s(0.0), &Math);
    assert_eq!(p.camera_position(), [s(4.0), s(4.75), s(0.0)]);
    p.fly_camera([s(-4.0), s(-4.75), s(0.0)], s(0.0), s(0.0), &Math);
    assert_eq!(f(p.camera_position()[0]), 4.0, "not into the corner");
    let other = Lens { width: 9, ..lens() };
    p.update_camera_params(None, Some(other));
    assert_eq!(p.calibration().lenses[0].width, 64);
    assert_eq!(p.calibration().lenses[1].width, 9);
    p.set_seam_offset(s(0.3));
    assert_eq!(f(p.seam_offset()), 0.3);
    p.set_ground_tilt_x(wide(0.5));
    assert_eq!(p.calibration().topology.ground_tilt_x, wide(0.5));
    assert_eq!(p.source_info(), (64, 36));
    assert_eq!(p.input_format(), InputFormat::Nv12);
}

#[test]
fn a_change_of_colour_matching_measures_anew() {
    let mut p = pipeline();
    p.color_match.measurement_issued();
    p.set_color_match_grid_cols(3);
    assert_eq!(p.color_match_params().grid_cols, 3);
    assert_eq!(p.color_match.frames_since_measure, u32::MAX - 1);
    p.color_match.measurement_issued();
    p.set_blend_width(s(0.5));
    assert_eq!(p.color_match.frames_since_measure, 0, "not a measured setting");
    let t = Topology {
        seam_offset: s(0.4),
        ..topology()
    };
    p.update_topology(t, &Math);
    assert_eq!(f(p.scene.right_seam_pivot_x), (0.4 - 0.5) / 2.0);
    assert_eq!(p.color_match.frames_since_measure, u32::MAX - 1);
    assert_eq!(f(p.color_match_params().seam_offset), 0.4);
}

#[test]
fn gammas_are_the_set_ones_unless_they_are_fitted() {
    let mut p = pipeline();
    assert_eq!(f(p.color_match_params().gamma_left), 1.1);
    p.set_color_match_auto_gamma(true);
    assert!(p.color_match_auto_gamma());
    assert_eq!(f(p.color_match_params().gamma_left), 1.0);
    let c = p.identity_correction_with_static_gamma();
    assert_eq!(f(c.right_gamma), 0.9);
    assert_eq!(f(c.right_offset[2]), 0.0);
    p.color_match.left_offset = [s(0.02); 3];
    assert_eq!(f(p.device_correction().left_offset[0]), 0.02);
    assert_eq!(f(p.color_match_correction().left_offset[0]), 0.02);
    p.set_color_match_enabled(false);
    assert_eq!(f(p.device_correction().left_offset[0]), 0.0);
    assert_eq!(f(p.device_correction().left_gamma), 1.1);
    p.color_match.left_offset = [s(0.0); 3];
    let (dark, bright) = (vec![0u8; 64 * 36], vec![255u8; 64 * 36]);
    let uv = vec![128u8; 64 * 18];
    let left = Nv12Planes { y: &dark, uv: &uv };
    let right = Nv12Planes { y: &bright, uv: &uv };
    let off = p.color_correction_nv12(&left, &right, &Math);
    assert_eq!(f(off.left_offset[0]), 0.0);
    assert_eq!(f(off.left_gamma), 1.1);
    p.set_color_match_enabled(true);
    let on = p.color_correction_nv12(&left, &right, &Math);
    assert_eq!(f(on.left_offset[0]), 0.06);
    assert_eq!(f(on.right_offset[1]), -0.04);
    assert_eq!(f(on.left_gamma), 1.0);
    assert_eq!(p.color_match.frames_since_measure, 0);
}

#[test]
fn without_a_fit_the_set_gammas_are_in_force() {
    let mut p = pipeline();
    let grey = (vec![128u8; 64 * 36], vec![128u8; 64 * 18]);
    let planes = Nv12Planes {
        y: &grey.0,
        uv: &grey.1,
    };
    let gammas = |c: ColorCorrection| (f(c.left_gamma), f(c.right_gamma));
    assert_eq!(gammas(p.color_match_correction()), (1.1, 0.9));
    assert_eq!(gammas(p.device_correction()), (1.1, 0.9));
    let c = p.color_correction_nv12(&planes, &planes, &Math);
    assert_eq!(gammas(c), (1.1, 0.9));
    assert_eq!(f(p.color_match.left_gamma), 1.1);
    // A new gamma holds at once.
    p.set_color_gamma(s(2.0), s(0.9));
    assert_eq!(gammas(p.color_match_correction()), (2.0, 0.9));
    let c = p.color_correction_nv12(&planes, &planes, &Math);
    assert_eq!(gammas(c), (2.0, 0.9));
    // A fit goes on from what was in force.
    p.set_color_match_auto_gamma(true);
    assert_eq!(gammas(p.color_match_correction()), (2.0, 0.9));
    let c = p.color_correction_nv12(&planes, &planes, &Math);
    assert_eq!(gammas(c), (2.0, 0.9));
}

fn exponents(gamma_left: f32, gamma_right: f32, matched: bool) -> (f32, f32) {
    let mut p = pipeline();
    p.set_color_match_enabled(matched);
    p.set_color_gamma(s(gamma_left), s(gamma_right));
    let grey = (vec![128u8; 64 * 36], vec![128u8; 64 * 18]);
    let planes = Nv12Planes {
        y: &grey.0,
        uv: &grey.1,
    };
    let plan = match p.render_to_target_nv12(&planes, &planes, s(0.0), s(0.0), &Math) {
        Ok(plan) => plan,
        Err(e) => panic!("{}", e.message()),
    };
    match plan.stitch {
        RenderPlan::Plain(plan) => {
            for block in [&plan.left, &plan.right] {
                assert_eq!(block.color_scale[..3], [s(1.0); 3]);
            }
            (f(plan.left.color_scale[3]), f(plan.right.color_scale[3]))
        }
        RenderPlan::Multiband { .. } => panic!("one band"),
    }
}

#[test]
fn each_plane_is_raised_to_the_reciprocal_of_its_own_gamma() {
    for matched in [false, true] {
        assert_eq!(exponents(1.0, 1.0, matched), (1.0, 1.0));
        assert_eq!(exponents(2.0, 2.0, matched), (0.5, 0.5));
        assert_eq!(exponents(1.0, 2.0, matched), (1.0, 0.5));
        assert_eq!(exponents(4.0, 0.5, matched), (0.25, 2.0));
    }
}

#[test]
fn a_gamma_that_has_no_reciprocal_raises_to_one() {
    for broken in [0.0, -2.0, f32::NAN, f32::INFINITY, f32::NEG_INFINITY] {
        assert_eq!(f(inv_gamma(s(broken), &Math)), 1.0);
        let c = ColorCorrection {
            left_gamma: s(broken),
            right_gamma: s(2.0),
            ..color()
        };
        let inputs = pipeline().stitch_inputs(RenderTo::Target, (s(0.0), s(0.0)), c, &Math);
        assert_eq!(inputs.exponents, (s(1.0), s(0.5)));
    }
}

#[test]
fn limits_are_needed_only_where_a_frame_is_measured() {
    let mut p = pipeline();
    let grey = (vec![128u8; 64 * 36], vec![128u8; 64 * 18]);
    let planes = Nv12Planes {
        y: &grey.0,
        uv: &grey.1,
    };
    p.color_correction_nv12(&planes, &planes, &Math);
    assert_eq!(p.color_match.frames_since_measure, 0);
    p.calibration.topology.color_match_max_y_offset = s(-1.0);
    p.calibration.topology.color_match_grid_cols = u32::MAX;
    let c = p.color_correction_nv12(&planes, &planes, &Math);
    assert_eq!(f(c.left_offset[0]), 0.0);
    assert_eq!(p.color_match.frames_since_measure, 1);
}

#[test]
fn a_gather_is_started_when_due_and_idle() {
    let mut p = pipeline();
    let begin = p.gather_begin().unwrap();
    assert!(begin.create);
    assert_eq!(begin.action, TakeAction::Nothing);
    let (key, upload) = match p.gather_next() {
        GatherNext::Dispatch { key, upload } => (key, upload),
        GatherNext::Skip => panic!("the first frame measures"),
    };
    assert!(upload);
    p.set_color_match_grid_cols(2);
    p.set_color_match_grid_rows(1);
    p.set_flip_180(true, false);
    let uploaded = p.gather_upload(key, &Math);
    // The left picture is turned.
    assert_eq!(uploaded.left_coords, native(&[63 - 56, 35 - 27, 63 - 61, 35 - 27]));
    assert_eq!(uploaded.right_coords, native(&[8, 27, 13, 27]));
    assert_eq!(uploaded.left_params, native(&[0, 2, 0, 0]));
    p.set_flip_180(false, false);
    p.set_color_match_grid_cols(8);
    p.set_color_match_grid_rows(16);
    assert!(p.gather_dispatch().is_some());
    assert_eq!(p.color_match.frames_since_measure, 0);
    assert!(matches!(p.gather_next(), GatherNext::Skip));
    p.force_color_match_remeasure();
    assert!(
        matches!(p.gather_next(), GatherNext::Skip),
        "a readback is under way"
    );
    assert_eq!(p.gather_begin().unwrap().action, TakeAction::RequestMap);
    if let Some(g) = p.band_gather.as_mut() {
        g.state = Readback::Idle;
    }
    match p.gather_next() {
        GatherNext::Dispatch { upload, .. } => assert!(!upload, "the positions are there"),
        GatherNext::Skip => panic!("what was put off is still due"),
    }
    let sample = |y: f32| [s(y), s(0.5), s(0.5), s(0.0)];
    let one_sided = GatheredSamples {
        left: vec![sample(0.5)],
        right: vec![],
    };
    p.gather_apply(one_sided, &Math);
    assert_eq!(f(p.color_match.left_offset[0]), 0.0);
    let both = GatheredSamples {
        left: vec![sample(0.1), sample(0.3)],
        right: vec![sample(0.22)],
    };
    p.gather_apply(both, &Math);
    assert!((f(p.color_match.left_offset[0]) - 0.01).abs() < 1e-6);
    assert!((f(p.color_match.right_offset[0]) + 0.01).abs() < 1e-6);
    p.set_color_match_enabled(false);
    assert!(p.gather_begin().is_none());
}

#[test]
fn a_finished_gather_is_applied() {
    let mut p = pipeline();
    assert!(p.gather_begin().is_some());
    let key = match p.gather_next() {
        GatherNext::Dispatch { key, .. } => key,
        GatherNext::Skip => panic!("the first frame measures"),
    };
    p.set_color_match_grid_cols(1);
    p.set_color_match_grid_rows(1);
    p.gather_upload(key, &Math);
    assert!(p.gather_dispatch().is_some());
    if let Some(g) = p.band_gather.as_mut() {
        g.state = Readback::Mapping;
    }
    p.gather_finish(MapPoll::NotYet, &Math);
    assert_eq!(p.band_gather.as_ref().unwrap().state, Readback::Mapping);
    // Words are aligned in memory, as a mapped buffer is.
    let mut words = vec![0u32; SAMPLES_BYTES as usize / 4];
    words[0] = 0.5f32.to_bits();
    let right = words.len() / 2;
    words[right] = 0.52f32.to_bits();
    let data: &[u8] = bytemuck::cast_slice(&words);
    p.gather_finish(MapPoll::Ready(data), &Math);
    assert_eq!(p.band_gather.as_ref().unwrap().state, Readback::Idle);
    assert!((f(p.color_match.left_offset[0]) - 0.01).abs() < 1e-6);
    assert!((f(p.color_match.right_offset[0]) + 0.01).abs() < 1e-6);
}

#[test]
fn frames_are_planned_from_measurement_to_steps() {
    let mut p = pipeline();
    let resident = StereoFrame::GpuResident {
        left_slot: 0,
        right_slot: 1,
    };
    let said = match p.render_stereo_frame(&resident, s(0.5), s(0.25), &Math) {
        Ok(_) => panic!("must be refused"),
        Err(e) => e.message(),
    };
    assert_eq!(
        said,
        "unsupported frame variant: GpuResident frames must use render_gpu_frame()"
    );
    let nv12 = |y: u8, luma: usize| Nv12Data {
        y: vec![y; luma],
        uv: vec![128; 64 * 18],
    };
    let pair = |left: usize, right: usize| {
        StereoFrame::Nv12(Nv12FramePair {
            left: nv12(0, left),
            right: nv12(255, right),
        })
    };
    let full = 64 * 36;
    let said = match p.render_stereo_frame(&pair(full, 5), s(0.5), s(0.25), &Math) {
        Ok(_) => panic!("the right picture is short"),
        Err(e) => e.message(),
    };
    assert_eq!(
        said,
        "render error: frame data size mismatch: expected 2304 bytes, got 5"
    );
    p.force_color_match_remeasure();
    p.set_ground_tilt_z(wide(0.5));
    p.set_ground_tilt_x(wide(0.25));
    assert!(p.set_overlay_frame(&card(1)).is_ok());
    let frame = match p.render_stereo_frame(&pair(full, full), s(0.5), s(0.25), &Math) {
        Ok(frame) => frame,
        Err(e) => panic!("{}", e.message()),
    };
    match frame.writes {
        PlaneWrites::Nv12 { luma, chroma } => {
            assert_eq!((luma.width, luma.bytes_per_row), (64, 64));
            assert_eq!((chroma.width, chroma.bytes_per_row), (32, 64));
        }
        _ => panic!("interleaved chroma"),
    }
    assert_eq!(frame.steps, vec![CompositeStep::Overlay]);
    match frame.stitch {
        RenderPlan::Plain(plan) => {
            assert_eq!(f(plan.left.color_offset_blend[0]), 0.06);
            assert_eq!(f(plan.right.color_offset_blend[0]), -0.06);
            assert_eq!(f(plan.left.ground_tilt[0]), 0.5);
            assert_eq!(f(plan.right.ground_tilt[0]), 0.25);
            assert_eq!(f(plan.left.ground_tilt[1]), 0.64);
            assert_eq!(plan.left.mvp[3], [s(0.5), s(0.25), s(0.25), s(1.0)]);
            assert_eq!(f(plan.right.mvp[3][3]), 2.0);
            assert_eq!(f(plan.right.mvp[2][0]), 64.0 / 36.0);
            assert_eq!(f(plan.right.intrinsics[2]), 0.5);
        }
        RenderPlan::Multiband { .. } => panic!("one band"),
    }
    p.set_multiband_blend_enabled(true);
    p.resize(128, 72);
    match p.render_to_target_gpu(s(0.5), s(0.25), &Math).stitch {
        RenderPlan::Multiband { recreate, blur, .. } => {
            assert!(!recreate, "the target keeps its size");
            assert_eq!(f(blur.texel_size[0]), 1.0 / 64.0);
            assert_eq!(f(blur.sigma), 2.0, "not less than that");
        }
        RenderPlan::Plain(_) => panic!("many bands"),
    }
    match p.plan_render(RenderTo::View, (s(0.0), s(0.0)), color(), &Math) {
        RenderPlan::Multiband { recreate, blur, .. } => {
            assert!(recreate, "a view has the viewport's size");
            assert_eq!(f(blur.texel_size[1]), 1.0 / 72.0);
            // By the width of the colour matching's band.
            assert!((f(blur.sigma) - 0.15 * 128.0 * 0.12).abs() < 1e-6);
        }
        RenderPlan::Plain(_) => panic!("many bands"),
    }
}

#[test]
fn every_layout_has_its_own_way_to_the_target() {
    let mut p = match StitchPipeline::with_gpu(
        PipelineSetup {
            input_format: InputFormat::Bgra,
            ..setup()
        },
        &show,
        &Math,
    ) {
        Ok(p) => p,
        Err(e) => panic!("{}", e.message()),
    };
    let rgba = vec![0u8; 64 * 36 * 4];
    let plane = BgraPlanes { rgba: &rgba };
    let frame = match p.render_to_target_bgra(&plane, &plane, s(0.5), s(0.25), &Math) {
        Ok(frame) => frame,
        Err(e) => panic!("{}", e.message()),
    };
    assert!(matches!(frame.writes, PlaneWrites::Bgra { rgba } if rgba.bytes_per_row == 256));
    let short = BgraPlanes { rgba: &rgba[1..] };
    assert!(p
        .render_to_target_bgra(&short, &plane, s(0.5), s(0.25), &Math)
        .is_err());
    let mut p = match StitchPipeline::with_gpu(
        PipelineSetup {
            input_format: InputFormat::Yuv420p,
            ..setup()
        },
        &show,
        &Math,
    ) {
        Ok(p) => p,
        Err(e) => panic!("{}", e.message()),
    };
    let data = || YuvData {
        y: vec![9; 64 * 36],
        u: vec![128; 32 * 18],
        v: vec![128; 32 * 18],
    };
    let pair = StereoFrame::Yuv420p(YuvFramePair {
        left: data(),
        right: data(),
    });
    match p.render_stereo_frame(&pair, s(0.5), s(0.25), &Math) {
        Ok(frame) => assert!(matches!(frame.writes, PlaneWrites::Yuv420p { .. })),
        Err(e) => panic!("{}", e.message()),
    }
    assert_eq!(p.set_color_grade(s(0.1), s(1.0), s(1.0), false), PassChange::Create);
    assert!(p.set_overlay_frame(&card(1)).is_ok());
    let d = data();
    let planes = YuvPlanes {
        y: &d.y,
        u: &d.u,
        v: &d.v,
    };
    let over = |r: Result<reco_core::pipeline::FramePlan, PipelineError>| match r {
        Ok(frame) => frame.steps,
        Err(e) => panic!("{}", e.message()),
    };
    assert_eq!(
        over(p.render_to_view(&planes, &planes, s(0.5), s(0.25), &Math)),
        vec![CompositeStep::Overlay, CompositeStep::ColorGrade]
    );
    assert_eq!(
        over(p.render_to_target(&planes, &planes, s(0.5), s(0.25), &Math)),
        vec![CompositeStep::ColorGrade, CompositeStep::Overlay]
    );
    let mut p = pipeline();
    let uv = vec![128u8; 64 * 18];
    let planes = Nv12Planes { y: &d.y, uv: &uv };
    assert!(over(p.render_nv12_to_view(&planes, &planes, s(0.5), s(0.25), &Math)).is_empty());
    assert!(over(p.render_to_target_nv12(&planes, &planes, s(0.5), s(0.25), &Math)).is_empty());
}

fn projection(camera_count: u16) -> ProjectionInfo {
    ProjectionInfo {
        name: "l-shape".to_string(),
        camera_count,
    }
}

fn cpu_setup(w: u32, h: u32) -> CpuSetup {
    CpuSetup {
        projection: projection(2),
        calibration: calibration(),
        calibration_check: Ok(()),
        config: ViewportConfig {
            width: w,
            height: h,
            ..Default::default()
        },
        cam_w: w,
        cam_h: h,
        full_range: false,
    }
}

/// Says what it was handed.
struct Echo;

impl MemoryStitch for Echo {
    fn stitch_rgba(
        &self,
        projection: &ProjectionInfo,
        left: &Nv12Planes<'_>,
        _right: &Nv12Planes<'_>,
        cam: (u32, u32),
        calib: &Calibration,
        config: &ViewportConfig,
        pose: (Scalar, Scalar),
        full_range: bool,
    ) -> Result<Vec<u8>, StitchError> {
        Ok(vec![
            left.y[0],
            cam.0 as u8,
            calib.lenses.len() as u8,
            config.height as u8,
            f(pose.0) as u8,
            f(pose.1) as u8,
            full_range as u8,
            projection.camera_count as u8,
        ])
    }

    fn stitch_rgba_yuv420p(
        &self,
        projection: &ProjectionInfo,
        _left: &YuvPlanes<'_>,
        right: &YuvPlanes<'_>,
        cam: (u32, u32),
        _calib: &Calibration,
        _config: &ViewportConfig,
        pose: (Scalar, Scalar),
        _full_range: bool,
    ) -> Result<Vec<u8>, StitchError> {
        Ok(vec![
            right.v[0],
            cam.1 as u8,
            f(pose.1) as u8,
            projection.name.len() as u8,
        ])
    }
}

fn cpu(w: u32, h: u32) -> CpuExecutor {
    match CpuExecutor::new(cpu_setup(w, h), &show, &Math) {
        Ok(x) => x,
        Err(e) => panic!("{}", e.message()),
    }
}

#[test]
fn cpu_backend_reports_dims_and_name() {
    let (w, h) = (64u32, 36u32);
    let backend = cpu(w, h);
    assert_eq!(backend.output_dims(), (w, h));
    assert_eq!(backend.name(), "cpu");
}

#[test]
fn cpu_backend_rejects_undersized_planes() {
    let backend = cpu(64, 36);
    let short = vec![0u8; 10];
    let planes = Nv12Planes {
        y: &short,
        uv: &short,
    };
    let stitch = |left: &Nv12Planes<'_>, right: &Nv12Planes<'_>| {
        backend.stitch_nv12(left, right, s(0.0), s(0.0), &Echo)
    };
    let err = stitch(&planes, &planes).unwrap_err();
    assert!(matches!(err, StitchError::FrameSizeMismatch { .. }));
    assert_eq!(
        err.message(),
        "frame size mismatch: plane has 10 bytes, need at least 2304"
    );
    let y = vec![0u8; 64 * 36];
    let uv = vec![0u8; 64 * 18];
    let full = Nv12Planes { y: &y, uv: &uv };
    assert!(stitch(&full, &full).is_ok());
    let mixed = Nv12Planes { y: &y, uv: &short };
    match stitch(&full, &mixed) {
        Err(StitchError::FrameSizeMismatch { expected, actual }) => {
            assert_eq!((expected, actual), (1152, 10));
        }
        _ => panic!("the right chroma is short"),
    }
}

#[test]
fn a_stitch_in_memory_is_handed_its_settings() {
    let backend = cpu(64, 36);
    let (y, uv) = (vec![7u8; 64 * 36], vec![0u8; 64 * 18]);
    let full = Nv12Planes { y: &y, uv: &uv };
    let got = backend.stitch_nv12(&full, &full, s(3.0), s(5.0), &Echo);
    assert_eq!(got.unwrap(), vec![7, 64, 2, 36, 3, 5, 0, 2]);
    let planes = YuvPlanes {
        y: &y,
        u: &uv,
        v: &[11],
    };
    let got = backend.stitch_yuv(&planes, &planes, s(3.0), s(5.0), &Echo);
    assert_eq!(got.unwrap(), vec![11, 36, 5, 7]);
    assert_eq!(f(backend.scene.plane_aspect), 64.0 / 36.0);
}

#[test]
fn executors_refuse_what_does_not_fit() {
    let refuse = |setup: CpuSetup| match CpuExecutor::new(setup, &show, &Math) {
        Ok(_) => panic!("must be refused"),
        Err(e) => e.message(),
    };
    assert_eq!(
        refuse(CpuSetup {
            projection: projection(3),
            ..cpu_setup(64, 36)
        }),
        "invalid stitch config: projection 'l-shape' consumes 3 cameras but the calibration has 2 lenses"
    );
    assert_eq!(
        refuse(CpuSetup {
            cam_h: 1,
            ..cpu_setup(64, 36)
        }),
        "invalid stitch config: source dimensions must be >= 2, got 64x1"
    );
    assert_eq!(
        refuse(CpuSetup {
            calibration_check: Err(CalibrationError {
                reason: "bad".to_string()
            }),
            ..cpu_setup(64, 36)
        }),
        "invalid stitch config: bad"
    );
    let config = || GpuExecutorConfig::new(calibration(), 64, 36, InputFormat::Nv12);
    assert!(matches!(
        GpuExecutor::new(config(), facts(), projection(1), &show, &Math),
        Err(StitchError::InvalidConfig(_))
    ));
    assert!(matches!(
        GpuExecutor::new(
            GpuExecutorConfig {
                input_width: 0,
                ..config()
            },
            facts(),
            projection(2),
            &show,
            &Math
        ),
        Err(StitchError::Pipeline(_))
    ));
}

fn facts() -> SetupFacts {
    SetupFacts {
        calibration_check: Ok(()),
        max_dim: 16384,
        color_grade_identity: true,
        sharpen_identity: true,
    }
}

fn gpu(format: InputFormat) -> GpuExecutor {
    let config = GpuExecutorConfig::new(calibration(), 64, 36, format);
    assert_eq!((config.viewport.width, config.viewport.height), (1920, 1080));
    let config = GpuExecutorConfig {
        full_range: true,
        ..config
    };
    match GpuExecutor::new(config, facts(), projection(2), &show, &Math) {
        Ok(x) => x,
        Err(e) => panic!("{}", e.message()),
    }
}

#[test]
fn a_device_stitch_makes_its_ring_once_per_size() {
    let mut x = gpu(InputFormat::Nv12);
    assert!(x.pipeline.renderer.is_full_range);
    assert_eq!(x.begin_stitch().unwrap(), Some((1920, 1080)));
    x.ring_created((1920, 1080));
    assert_eq!(x.begin_stitch().unwrap(), None);
    x.pipeline.resize(64, 36);
    assert_eq!(x.begin_stitch().unwrap(), Some((64, 36)));
    assert_eq!(x.name(), "gpu");
    let (y, uv) = (vec![0u8; 64 * 36], vec![0u8; 64 * 18]);
    let full = Nv12Planes { y: &y, uv: &uv };
    assert!(x.stitch(&full, &full, s(0.5), s(0.25), &Math).is_ok());
    let short = Nv12Planes { y: &y, uv: &[] };
    let said = match x.stitch(&short, &full, s(0.5), s(0.25), &Math) {
        Ok(_) => panic!("must be refused"),
        Err(e) => e.message(),
    };
    assert_eq!(
        said,
        "gpu pipeline: render error: frame data size mismatch: expected 1152 bytes, got 0"
    );
    let other = gpu(InputFormat::Bgra);
    assert_eq!(
        other.begin_stitch().unwrap_err().message(),
        "invalid stitch config: stitch() consumes NV12 planes but the executor was built for Bgra input"
    );
}

#[test]
fn color_match_converges_not_diverges_under_repeated_ticks() {
    let (cam_w, cam_h) = (192u32, 108u32);
    // Brighter to the bottom, with some colour.
    let picture = |bias: u32| {
        let luma: Vec<u8> = (0..cam_w * cam_h)
            .map(|i| (40 + i / cam_w + bias) as u8)
            .collect();
        let chroma: Vec<u8> = (0..cam_w * cam_h / 2)
            .map(|i| (96 + i % cam_w / 4) as u8)
            .collect();
        (luma, chroma)
    };
    // A modest bias of the right camera that does not change.
    let ((ly, luv), (ry, ruv)) = (picture(0), picture(15));
    let left = Nv12Planes { y: &ly, uv: &luv };
    let right = Nv12Planes { y: &ry, uv: &ruv };
    let mut cal = calibration();
    cal.topology.color_match_enabled = true;
    cal.topology.color_match_interval_frames = 15;
    cal.topology.color_match_ema_alpha = s(0.15);
    cal.topology.color_match_max_y_offset = s(0.06);
    cal.topology.color_match_max_chroma_offset = s(0.04);
    let config = GpuExecutorConfig {
        viewport: ViewportConfig {
            width: 160,
            height: 90,
            ..Default::default()
        },
        ..GpuExecutorConfig::new(cal, cam_w, cam_h, InputFormat::Nv12)
    };
    let mut exec = match GpuExecutor::new(config, facts(), projection(2), &show, &Math) {
        Ok(x) => x,
        Err(e) => panic!("{}", e.message()),
    };

    let mut left_y_history = Vec::new();
    for i in 0..900 {
        let plan = match exec.stitch(&left, &right, s(0.0), s(0.0), &Math) {
            Ok(plan) => plan,
            Err(e) => panic!("{}", e.message()),
        };
        let shown = exec.pipeline.color_match_correction();
        match plan.stitch {
            RenderPlan::Plain(plan) => assert_eq!(
                plan.left.color_offset_blend[..3],
                shown.left_offset[..],
                "what is drawn is what is shown"
            ),
            RenderPlan::Multiband { .. } => panic!("one band"),
        }
        if i % 60 == 0 || i == 899 {
            left_y_history.push(f(shown.left_offset[0]));
        }
    }

    let last = *left_y_history.last().unwrap();
    let second_last = left_y_history[left_y_history.len() - 2];
    assert!(
        (last - second_last).abs() < 0.0005,
        "still moving: {second_last} -> {last}"
    );
    assert!(last.abs() <= 0.06 + 1e-4);
    // Half of the bias in the end, 0.15 of that at first.
    assert!((last - 7.5 / 255.0).abs() < 1e-4, "{last}");
    assert!((left_y_history[0] - 0.15 * 7.5 / 255.0).abs() < 1e-6);
}

#[test]
fn both_executors_take_the_same_settings() {
    for mut x in [
        Executor::Cpu(cpu(64, 36)),
        Executor::Gpu(gpu(InputFormat::Nv12)),
    ] {
        x.set_fov(s(300.0));
        assert_eq!(f(x.fov()), 179.0);
        assert_eq!(x.resize(0, 1), None);
        assert_eq!(x.resize(32, 16), Some((32, 16)));
        assert_eq!(x.output_dims(), (32, 16));
        x.set_blend_width(s(0.5));
        assert_eq!(f(x.calibration().topology.blend_width), 0.5);
        x.set_lens_correction_amount(s(-1.0));
        assert_eq!(f(x.calibration().lenses[1].correction), 0.0);
        assert_eq!(x.source_info(), (64, 36));
        assert_eq!(x.projection().camera_count, 2);
        x.update_camera_params(Some(Lens { width: 72, ..lens() }), None, &Math);
        assert_eq!(x.calibration().lenses[0].width, 72);
        assert_eq!(f(x.scene().plane_aspect), 2.0);
        assert_eq!(x.calibration().lenses[1].width, lens().width);
        x.update_camera_params(None, Some(Lens { height: 9, ..lens() }), &Math);
        assert_eq!(x.calibration().lenses[0].width, 72);
        assert_eq!(x.calibration().lenses[1].height, 9);
        assert_eq!(f(x.scene().plane_aspect), 2.0);
        x.update_camera_params(None, None, &Math);
        assert_eq!(f(x.scene().plane_aspect), 2.0);
        x.update_framing(framing(0.75), &Math);
        assert_eq!(f(x.scene().camera_position[0]), 0.75);
        assert_eq!(f(x.scene().plane_aspect), 2.0);
        x.update_topology(
            Topology {
                intersect: wide(0.0),
                ..topology()
            },
            &Math,
        );
        assert_eq!(f(x.scene().left_position[2]), 0.5);
        x.update_calibration(calibration(), &Math);
        assert_eq!(f(x.scene().left_position[2]), 0.25);
        let change = x.set_color_grade(s(0.2), s(1.0), s(1.0), false);
        x.set_show_seam_line(true);
        match x.gpu_mut() {
            Some(g) => {
                assert_eq!(change, PassChange::Create);
                assert!(g.pipeline.show_seam_line);
                g.pipeline.set_show_seam_line(false);
            }
            None => {
                assert_eq!(change, PassChange::Nothing);
                assert_eq!(f(x.calibration().topology.color_grade_brightness), 0.0);
            }
        }
        match x.gpu() {
            Some(g) => assert!(!g.pipeline.show_seam_line),
            None => assert_eq!(x.name(), "cpu"),
        }
    }
}
