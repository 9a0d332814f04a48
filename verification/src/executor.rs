//! The two ways of running a stitch, behind one set of settings.

use crate::calibration::{Calibration, CalibrationError, Framing, Lens, Topology};
use crate::color_match::{BandMath, ColorCorrection};
use crate::pipeline::{
    correct_lenses, corrected, held_fov, input_fault, pass_change, replace_lenses, replaced,
    viewport_message, viewport_reason, FramePlan, PassChange, PipelineError,
    PipelineSetup, RenderTo, StitchPipeline,
};
use crate::planes::{Nv12Planes, YuvPlanes};
use crate::renderer::{nv12_mismatch, Renderer, StitchMath};
use crate::resources::{InputFormat, TextureFormat};
use crate::scalar::{Scalar, ONE, ZERO};
use crate::scene::{scene_of, SceneGeometry, SceneMath};
use crate::text::{append_decimal, append_dims, decimal, dims_text};
use crate::viewport::{ViewportConfig, FOV_LIMIT};
use vstd::prelude::*;
use vstd::string::StringExecFns;

verus! {

/// What the device said when a picture could not be read back.
#[derive(Clone, Debug)]
pub struct RgbaReadbackError {
    pub reason: String,
}

#[derive(Clone, Debug)]
pub enum StitchError {
    Pipeline(PipelineError),
    Readback(RgbaReadbackError),
    InvalidConfig(String),
    FrameSizeMismatch { expected: usize, actual: usize },
}

impl StitchError {
    pub open spec fn text(self) -> Seq<char> {
        match self {
            StitchError::Pipeline(e) => "gpu pipeline: "@ + e.text(),
            StitchError::Readback(e) => "gpu readback: "@ + e.reason@,
            StitchError::InvalidConfig(m) => "invalid stitch config: "@ + m@,
            StitchError::FrameSizeMismatch { expected, actual } =>
                "frame size mismatch: plane has "@ + decimal(actual as nat)
                + " bytes, need at least "@ + decimal(expected as nat),
        }
    }

    pub fn message(&self) -> (m: String)
        ensures
            m@ == self.text(),
    {
        match self {
            StitchError::Pipeline(e) => {
                let mut m: String = "gpu pipeline: ".to_owned();
                let inner: String = e.message();
                m.append(inner.as_str());
                m
            },
            StitchError::Readback(e) => {
                let mut m: String = "gpu readback: ".to_owned();
                m.append(e.reason.as_str());
                m
            },
            StitchError::InvalidConfig(inner) => {
                let mut m: String = "invalid stitch config: ".to_owned();
                m.append(inner.as_str());
                m
            },
            StitchError::FrameSizeMismatch { expected, actual } => {
                let mut m: String = "frame size mismatch: plane has ".to_owned();
                append_decimal(&mut m, *actual as u64);
                m.append(" bytes, need at least ");
                append_decimal(&mut m, *expected as u64);
                m
            },
        }
    }
}

/// The projection that a stitch goes by, as far as settings depend on it.
pub struct ProjectionInfo {
    pub name: String,
    pub camera_count: u16,
}

pub open spec fn count_mismatch(p: ProjectionInfo, lenses: nat) -> Seq<char> {
    "projection '"@ + p.name@ + "' consumes "@ + decimal(p.camera_count as nat)
        + " cameras but the calibration has "@ + decimal(lenses) + " lenses"@
}

fn count_message(p: &ProjectionInfo, lenses: usize) -> (m: String)
    ensures
        m@ == count_mismatch(*p, lenses as nat),
{
    let mut m: String = "projection '".to_owned();
    m.append(p.name.as_str());
    m.append("' consumes ");
    append_decimal(&mut m, p.camera_count as u64);
    m.append(" cameras but the calibration has ");
    append_decimal(&mut m, lenses as u64);
    m.append(" lenses");
    m
}

/// A stitch that is computed in memory.
pub struct CpuExecutor {
    pub projection: ProjectionInfo,
    pub calib: Calibration,
    pub config: ViewportConfig,
    pub cam: (u32, u32),
    pub full_range: bool,
    pub scene: SceneGeometry,
}

/// What a `CpuExecutor` is made from.
pub struct CpuSetup {
    pub projection: ProjectionInfo,
    pub calibration: Calibration,
    /// What the calibration's own checks said.
    pub calibration_check: Result<(), CalibrationError>,
    pub config: ViewportConfig,
    pub cam_w: u32,
    pub cam_h: u32,
    pub full_range: bool,
}

/// The stitch of one pair of pictures in memory, which is done on numbers. Given
/// are the projection to stitch through, the pictures and their size, the
/// calibration, the viewport, the yaw and the pitch of the camera, and whether the
/// pictures use the full range.
pub trait MemoryStitch {
    fn stitch_rgba(
        &self,
        projection: &ProjectionInfo,
        left: &Nv12Planes<'_>,
        right: &Nv12Planes<'_>,
        cam: (u32, u32),
        calib: &Calibration,
        config: &ViewportConfig,
        pose: (Scalar, Scalar),
        full_range: bool,
    ) -> Result<Vec<u8>, StitchError>;

    fn stitch_rgba_yuv420p(
        &self,
        projection: &ProjectionInfo,
        left: &YuvPlanes<'_>,
        right: &YuvPlanes<'_>,
        cam: (u32, u32),
        calib: &Calibration,
        config: &ViewportConfig,
        pose: (Scalar, Scalar),
        full_range: bool,
    ) -> Result<Vec<u8>, StitchError>;
}

/// The first plane of a picture that is too short, as what it needs and has.
pub open spec fn short_plane(
    left: Nv12Planes<'_>,
    right: Nv12Planes<'_>,
    luma: int,
    chroma: int,
) -> Option<(int, int)> {
    if left.y@.len() < luma {
        Some((luma, left.y@.len() as int))
    } else if left.uv@.len() < chroma {
        Some((chroma, left.uv@.len() as int))
    } else if right.y@.len() < luma {
        Some((luma, right.y@.len() as int))
    } else if right.uv@.len() < chroma {
        Some((chroma, right.uv@.len() as int))
    } else {
        None
    }
}

fn check_plane(plane: &[u8], expected: usize) -> (r: Result<(), StitchError>)
    ensures
        r is Ok <==> plane@.len() >= expected,
        r matches Err(e) ==> e == (StitchError::FrameSizeMismatch {
            expected,
            actual: plane@.len() as usize,
        }),
{
    if plane.len() < expected {
        return Err(StitchError::FrameSizeMismatch { expected, actual: plane.len() });
    }
    Ok(())
}

impl CpuExecutor {
    /// An executor for a valid calibration and viewport, a projection of as many
    /// cameras as there are lenses, and pictures of at least two by two.
    pub fn new<F: Fn(Scalar) -> String, M: SceneMath>(
        setup: CpuSetup,
        show: &F,
        math: &M,
    ) -> (r: Result<CpuExecutor, StitchError>)
        requires
            forall|x: Scalar| #[trigger] call_requires(*show, (x,)),
            setup.calibration_check is Ok ==> setup.calibration.lenses@.len() > 0,
        ensures
            match setup.calibration_check {
                Err(e) => r == Err::<CpuExecutor, StitchError>(
                    StitchError::InvalidConfig(e.reason),
                ),
                Ok(_) => match setup.config.fault() {
                    Some(fault) => r matches Err(StitchError::InvalidConfig(m))
                        && viewport_reason(*show, fault, m@),
                    None => if setup.projection.camera_count != setup.calibration.lenses@.len() {
                        r matches Err(StitchError::InvalidConfig(m)) && m@ == count_mismatch(
                            setup.projection,
                            setup.calibration.lenses@.len(),
                        )
                    } else if setup.cam_w < 2 || setup.cam_h < 2 {
                        r matches Err(StitchError::InvalidConfig(m)) && m@
                            == "source dimensions must be >= 2, got "@ + dims_text(
                            setup.cam_w as nat,
                            setup.cam_h as nat,
                        )
                    } else {
                        r is Ok
                    },
                },
            },
            r matches Ok(x) ==> {
                &&& scene_of(*math, setup.calibration, x.scene)
                &&& x == (CpuExecutor {
                    projection: setup.projection,
                    calib: setup.calibration,
                    config: setup.config,
                    cam: (setup.cam_w, setup.cam_h),
                    full_range: setup.full_range,
                    scene: x.scene,
                })
            },
    {
        match setup.calibration_check {
            Ok(()) => {},
            Err(e) => {
                return Err(StitchError::InvalidConfig(e.reason));
            },
        }
        match setup.config.validate() {
            Ok(()) => {},
            Err(fault) => {
                return Err(StitchError::InvalidConfig(viewport_message(fault, show)));
            },
        }
        if setup.projection.camera_count as usize != setup.calibration.lenses.len() {
            return Err(
                StitchError::InvalidConfig(
                    count_message(&setup.projection, setup.calibration.lenses.len()),
                ),
            );
        }
        if setup.cam_w < 2 || setup.cam_h < 2 {
            let mut m: String = "source dimensions must be >= 2, got ".to_owned();
            append_dims(&mut m, setup.cam_w as u64, setup.cam_h as u64);
            return Err(StitchError::InvalidConfig(m));
        }
        let scene: SceneGeometry = SceneGeometry::of(&setup.calibration, math);
        Ok(
            CpuExecutor {
                projection: setup.projection,
                calib: setup.calibration,
                config: setup.config,
                cam: (setup.cam_w, setup.cam_h),
                full_range: setup.full_range,
                scene,
            },
        )
    }

    /// What the first plane that is too short needs and has, if there is one.
    pub open spec fn shortage(self, left: Nv12Planes<'_>, right: Nv12Planes<'_>) -> Option<
        (int, int),
    > {
        short_plane(
            left,
            right,
            self.cam.0 * self.cam.1,
            (self.cam.0 / 2) * (self.cam.1 / 2) * 2,
        )
    }

    /// Refuses pictures of which a plane is too short.
    fn check_nv12(&self, left: &Nv12Planes<'_>, right: &Nv12Planes<'_>) -> (r: Result<
        (),
        StitchError,
    >)
        requires
            self.cam.0 * self.cam.1 <= u32::MAX,
        ensures
            match self.shortage(*left, *right) {
                None => r is Ok,
                Some((e, a)) => r matches Err(StitchError::FrameSizeMismatch { expected, actual })
                    && expected == e && actual == a,
            },
    {
        let (w, h): (u32, u32) = self.cam;
        let half_w: u32 = w / 2;
        let half_h: u32 = h / 2;
        assert(half_w * half_h * 2 <= w * h) by (nonlinear_arith)
            requires
                0 <= 2 * half_w <= w,
                0 <= half_h <= h,
        ;
        let luma: usize = (w * h) as usize;
        let chroma: usize = (half_w * half_h * 2) as usize;
        match check_plane(left.y, luma) {
            Ok(()) => {},
            Err(e) => {
                return Err(e);
            },
        }
        match check_plane(left.uv, chroma) {
            Ok(()) => {},
            Err(e) => {
                return Err(e);
            },
        }
        match check_plane(right.y, luma) {
            Ok(()) => {},
            Err(e) => {
                return Err(e);
            },
        }
        check_plane(right.uv, chroma)
    }

    /// Stitches one pair of pictures with interleaved chroma, unless a plane is
    /// too short.
    pub fn stitch_nv12<K: MemoryStitch>(
        &self,
        left: &Nv12Planes<'_>,
        right: &Nv12Planes<'_>,
        yaw: Scalar,
        pitch: Scalar,
        kernel: &K,
    ) -> (r: Result<Vec<u8>, StitchError>)
        requires
            self.cam.0 * self.cam.1 <= u32::MAX,
        ensures
            match self.shortage(*left, *right) {
                None => call_ensures(
                    K::stitch_rgba,
                    (
                        kernel,
                        &self.projection,
                        left,
                        right,
                        self.cam,
                        &self.calib,
                        &self.config,
                        (yaw, pitch),
                        self.full_range,
                    ),
                    r,
                ),
                Some((e, a)) => r matches Err(StitchError::FrameSizeMismatch { expected, actual })
                    && expected == e && actual == a,
            },
    {
        match self.check_nv12(left, right) {
            Ok(()) => {},
            Err(e) => {
                return Err(e);
            },
        }
        kernel.stitch_rgba(
            &self.projection,
            left,
            right,
            self.cam,
            &self.calib,
            &self.config,
            (yaw, pitch),
            self.full_range,
        )
    }

    /// Stitches one pair of planar pictures.
    pub fn stitch_yuv<K: MemoryStitch>(
        &self,
        left: &YuvPlanes<'_>,
        right: &YuvPlanes<'_>,
        yaw: Scalar,
        pitch: Scalar,
        kernel: &K,
    ) -> (r: Result<Vec<u8>, StitchError>)
        ensures
            call_ensures(
                K::stitch_rgba_yuv420p,
                (
                    kernel,
                    &self.projection,
                    left,
                    right,
                    self.cam,
                    &self.calib,
                    &self.config,
                    (yaw, pitch),
                    self.full_range,
                ),
                r,
            ),
    {
        kernel.stitch_rgba_yuv420p(
            &self.projection,
            left,
            right,
            self.cam,
            &self.calib,
            &self.config,
            (yaw, pitch),
            self.full_range,
        )
    }

    pub fn output_dims(&self) -> (d: (u32, u32))
        ensures
            d == (self.config.width, self.config.height),
    {
        (self.config.width, self.config.height)
    }

    pub fn name(&self) -> (n: &'static str)
        ensures
            n@ == "cpu"@,
    {
        "cpu"
    }
}

/// What a `GpuExecutor` is made from, but for the device.
pub struct GpuExecutorConfig {
    pub calibration: Calibration,
    pub viewport: ViewportConfig,
    pub input_width: u32,
    pub input_height: u32,
    pub input_format: InputFormat,
    pub output_format: TextureFormat,
    pub full_range: bool,
}

impl GpuExecutorConfig {
    /// A full HD output of limited-range pictures.
    pub fn new(
        calibration: Calibration,
        input_width: u32,
        input_height: u32,
        input_format: InputFormat,
    ) -> (c: GpuExecutorConfig)
        ensures
            c.calibration == calibration,
            c.viewport == crate::viewport::default_viewport(),
            c.input_width == input_width,
            c.input_height == input_height,
            c.input_format == input_format,
            c.output_format == TextureFormat::Rgba8Unorm,
            !c.full_range,
    {
        GpuExecutorConfig {
            calibration,
            viewport: ViewportConfig::default(),
            input_width,
            input_height,
            input_format,
            output_format: TextureFormat::Rgba8Unorm,
            full_range: false,
        }
    }
}

/// What is known of a setup before a pipeline is made of it.
pub struct SetupFacts {
    /// What the calibration's own checks said.
    pub calibration_check: Result<(), CalibrationError>,
    /// The largest side that a picture may have.
    pub max_dim: u32,
    /// The calibration's colour grade changes nothing.
    pub color_grade_identity: bool,
    /// The calibration's sharpening changes nothing.
    pub sharpen_identity: bool,
}

pub open spec fn pipeline_setup(config: GpuExecutorConfig, facts: SetupFacts) -> PipelineSetup {
    PipelineSetup {
        calibration: config.calibration,
        calibration_check: facts.calibration_check,
        viewport: config.viewport,
        input_width: config.input_width,
        input_height: config.input_height,
        max_dim: facts.max_dim,
        output_format: config.output_format,
        input_format: config.input_format,
        color_grade_identity: facts.color_grade_identity,
        sharpen_identity: facts.sharpen_identity,
    }
}

/// A stitch that is rendered on the device, and the size of the ring that its
/// pictures are read back through.
pub struct GpuExecutor {
    pub pipeline: StitchPipeline,
    pub projection: ProjectionInfo,
    pub sync_readback: Option<(u32, u32)>,
}

pub open spec fn format_name(format: InputFormat) -> Seq<char> {
    match format {
        InputFormat::Yuv420p => "Yuv420p"@,
        InputFormat::Nv12 => "Nv12"@,
        InputFormat::Bgra => "Bgra"@,
    }
}

impl GpuExecutor {
    /// An executor for a projection of as many cameras as there are lenses, and
    /// a configuration that makes a pipeline.
    pub fn new<F: Fn(Scalar) -> String, M: SceneMath>(
        config: GpuExecutorConfig,
        facts: SetupFacts,
        projection: ProjectionInfo,
        show: &F,
        math: &M,
    ) -> (r: Result<GpuExecutor, StitchError>)
        requires
            forall|x: Scalar| #[trigger] call_requires(*show, (x,)),
            facts.calibration_check is Ok ==> config.calibration.lenses@.len() > 0,
        ensures
            if projection.camera_count != config.calibration.lenses@.len() {
                r matches Err(StitchError::InvalidConfig(m)) && m@ == count_mismatch(
                    projection,
                    config.calibration.lenses@.len(),
                )
            } else {
                match facts.calibration_check {
                    Err(e) => r == Err::<GpuExecutor, StitchError>(
                        StitchError::Pipeline(PipelineError::Calibration(e)),
                    ),
                    Ok(_) => match config.viewport.fault() {
                        Some(fault) => r matches Err(
                            StitchError::Pipeline(PipelineError::InvalidConfig { reason }),
                        ) && viewport_reason(*show, fault, reason@),
                        None => match input_fault(
                            config.input_width,
                            config.input_height,
                            facts.max_dim,
                        ) {
                            Some(text) => r matches Err(
                                StitchError::Pipeline(PipelineError::InvalidConfig { reason }),
                            ) && reason@ == text,
                            None => r is Ok,
                        },
                    },
                }
            },
            r matches Ok(x) ==> {
                &&& x.pipeline.wf()
                &&& exists|p: StitchPipeline|
                    {
                        &&& #[trigger] p.fresh(pipeline_setup(config, facts), *math)
                        &&& x == (GpuExecutor {
                            pipeline: StitchPipeline {
                                renderer: Renderer {
                                    is_full_range: config.full_range,
                                    ..p.renderer
                                },
                                ..p
                            },
                            projection,
                            sync_readback: None,
                        })
                    }
            },
    {
        if projection.camera_count as usize != config.calibration.lenses.len() {
            return Err(
                StitchError::InvalidConfig(
                    count_message(&projection, config.calibration.lenses.len()),
                ),
            );
        }
        let setup = PipelineSetup {
            calibration: config.calibration,
            calibration_check: facts.calibration_check,
            viewport: config.viewport,
            input_width: config.input_width,
            input_height: config.input_height,
            max_dim: facts.max_dim,
            output_format: config.output_format,
            input_format: config.input_format,
            color_grade_identity: facts.color_grade_identity,
            sharpen_identity: facts.sharpen_identity,
        };
        match StitchPipeline::with_gpu(setup, show, math) {
            Ok(p) => {
                let mut pipeline: StitchPipeline = p;
                pipeline.set_full_range(config.full_range);
                Ok(GpuExecutor { pipeline, projection, sync_readback: None })
            },
            Err(e) => Err(StitchError::Pipeline(e)),
        }
    }

    /// Before a stitch of NV12 planes: refuses an executor of another format,
    /// and says for which size a readback ring has to be made first, if any.
    pub fn begin_stitch(&self) -> (r: Result<Option<(u32, u32)>, StitchError>)
        ensures
            r is Ok <==> self.pipeline.renderer.input_format == InputFormat::Nv12,
            r matches Err(e) ==> (e matches StitchError::InvalidConfig(m) && m@
                == "stitch() consumes NV12 planes but the executor was built for "@ + format_name(
                self.pipeline.renderer.input_format,
            ) + " input"@),
            r matches Ok(ring) ==> {
                let dims = (self.pipeline.viewport.width, self.pipeline.viewport.height);
                ring == if self.sync_readback == Some(dims) {
                    None
                } else {
                    Some(dims)
                }
            },
    {
        let name: &'static str = match self.pipeline.input_format() {
            InputFormat::Nv12 => {
                let dims: (u32, u32) = self.output_dims();
                let current: bool = match self.sync_readback {
                    Some(d) => d.0 == dims.0 && d.1 == dims.1,
                    None => false,
                };
                return if current {
                    Ok(None)
                } else {
                    Ok(Some(dims))
                };
            },
            InputFormat::Yuv420p => "Yuv420p",
            InputFormat::Bgra => "Bgra",
        };
        let mut m: String =
            "stitch() consumes NV12 planes but the executor was built for ".to_owned();
        m.append(name);
        m.append(" input");
        Err(StitchError::InvalidConfig(m))
    }

    /// Notes the size of the ring that was made.
    pub fn ring_created(&mut self, dims: (u32, u32))
        ensures
            *final(self) == (GpuExecutor { sync_readback: Some(dims), ..*old(self) }),
    {
        self.sync_readback = Some(dims);
    }

    /// One frame, to be drawn to the target and read back through the ring.
    pub fn stitch<M: BandMath + StitchMath>(
        &mut self,
        left: &Nv12Planes<'_>,
        right: &Nv12Planes<'_>,
        yaw: Scalar,
        pitch: Scalar,
        math: &M,
    ) -> (r: Result<FramePlan, StitchError>)
        requires
            old(self).pipeline.can_render(),
            old(self).pipeline.renderer.input_format == InputFormat::Nv12,
        ensures
            final(self).projection == old(self).projection,
            final(self).sync_readback == old(self).sync_readback,
            exists|
                color: ColorCorrection,
                measured: StitchPipeline,
                planned: Result<FramePlan, PipelineError>,
            |
                {
                    &&& #[trigger] old(self).pipeline.nv12_corrected(
                        *left,
                        *right,
                        *math,
                        color,
                        measured,
                    )
                    &&& #[trigger] measured.framed(
                        RenderTo::Target,
                        (
                            nv12_mismatch(old(self).pipeline.input_size(), *left),
                            nv12_mismatch(old(self).pipeline.input_size(), *right),
                        ),
                        old(self).pipeline.nv12_writes(),
                        (yaw, pitch),
                        color,
                        *math,
                        planned,
                        final(self).pipeline,
                    )
                    &&& r == match planned {
                        Ok(f) => Ok::<FramePlan, StitchError>(f),
                        Err(e) => Err::<FramePlan, StitchError>(StitchError::Pipeline(e)),
                    }
                },
    {
        match self.pipeline.render_to_target_nv12(left, right, yaw, pitch, math) {
            Ok(f) => Ok(f),
            Err(e) => Err(StitchError::Pipeline(e)),
        }
    }

    pub fn output_dims(&self) -> (d: (u32, u32))
        ensures
            d == (self.pipeline.viewport.width, self.pipeline.viewport.height),
    {
        let v: &ViewportConfig = self.pipeline.viewport();
        (v.width, v.height)
    }

    pub fn name(&self) -> (n: &'static str)
        ensures
            n@ == "gpu"@,
    {
        "gpu"
    }
}

/// Either executor. What has a meaning only on the device does nothing in
/// memory.
pub enum Executor {
    Cpu(CpuExecutor),
    Gpu(GpuExecutor),
}

impl Executor {
    pub open spec fn spec_calibration(self) -> Calibration {
        match self {
            Executor::Cpu(c) => c.calib,
            Executor::Gpu(g) => g.pipeline.calibration,
        }
    }

    pub open spec fn spec_viewport(self) -> ViewportConfig {
        match self {
            Executor::Cpu(c) => c.config,
            Executor::Gpu(g) => g.pipeline.viewport,
        }
    }

    pub open spec fn spec_scene(self) -> SceneGeometry {
        match self {
            Executor::Cpu(c) => c.scene,
            Executor::Gpu(g) => g.pipeline.scene,
        }
    }

    pub fn gpu(&self) -> (g: Option<&GpuExecutor>)
        ensures
            g is Some <==> self is Gpu,
            g matches Some(x) ==> *self == Executor::Gpu(*x),
    {
        match self {
            Executor::Gpu(g) => Some(g),
            Executor::Cpu(_) => None,
        }
    }

    pub fn gpu_mut(&mut self) -> (g: Option<&mut GpuExecutor>)
        ensures
            g is Some <==> *old(self) is Gpu,
            g is None ==> *final(self) == *old(self),
            g matches Some(x) ==> *old(self) == Executor::Gpu(*x) && *final(self) == Executor::Gpu(
                *final(x),
            ),
    {
        match self {
            Executor::Gpu(g) => Some(g),
            Executor::Cpu(_) => None,
        }
    }

    pub fn calibration(&self) -> (c: &Calibration)
        ensures
            *c == self.spec_calibration(),
    {
        match self {
            Executor::Cpu(c) => &c.calib,
            Executor::Gpu(g) => g.pipeline.calibration(),
        }
    }

    pub fn viewport(&self) -> (v: &ViewportConfig)
        ensures
            *v == self.spec_viewport(),
    {
        match self {
            Executor::Cpu(c) => &c.config,
            Executor::Gpu(g) => g.pipeline.viewport(),
        }
    }

    pub fn scene(&self) -> (s: &SceneGeometry)
        ensures
            *s == self.spec_scene(),
    {
        match self {
            Executor::Cpu(c) => &c.scene,
            Executor::Gpu(g) => &g.pipeline.scene,
        }
    }

    pub fn projection(&self) -> (p: &ProjectionInfo)
        ensures
            *p == match *self {
                Executor::Cpu(c) => c.projection,
                Executor::Gpu(g) => g.projection,
            },
    {
        match self {
            Executor::Cpu(c) => &c.projection,
            Executor::Gpu(g) => &g.projection,
        }
    }

    pub fn source_info(&self) -> (size: (u32, u32))
        ensures
            size == match *self {
                Executor::Cpu(c) => c.cam,
                Executor::Gpu(g) => (
                    g.pipeline.renderer.input_width,
                    g.pipeline.renderer.input_height,
                ),
            },
    {
        match self {
            Executor::Cpu(c) => c.cam,
            Executor::Gpu(g) => g.pipeline.source_info(),
        }
    }

    pub fn fov(&self) -> (f: Scalar)
        ensures
            f == self.spec_viewport().fov_degrees,
    {
        match self {
            Executor::Cpu(c) => c.config.fov_degrees,
            Executor::Gpu(g) => g.pipeline.fov(),
        }
    }

    /// Sets the field of view, held to what can be drawn.
    pub fn set_fov(&mut self, fov_degrees: Scalar)
        ensures
            *final(self) == match *old(self) {
                Executor::Cpu(c) => Executor::Cpu(
                    CpuExecutor {
                        config: ViewportConfig { fov_degrees: held_fov(fov_degrees), ..c.config },
                        ..c
                    },
                ),
                Executor::Gpu(g) => Executor::Gpu(
                    GpuExecutor {
                        pipeline: StitchPipeline {
                            viewport: ViewportConfig {
                                fov_degrees: held_fov(fov_degrees),
                                ..g.pipeline.viewport
                            },
                            ..g.pipeline
                        },
                        ..g
                    },
                ),
            },
    {
        match self {
            Executor::Cpu(c) => {
                c.config.fov_degrees = fov_degrees.clamp(
                    Scalar { bits: ONE },
                    Scalar { bits: FOV_LIMIT },
                );
            },
            Executor::Gpu(g) => {
                g.pipeline.set_fov(fov_degrees);
            },
        }
    }

    /// Takes another size of output; a size without extent is ignored.
    pub fn resize(&mut self, width: u32, height: u32) -> (r: Option<(u32, u32)>)
        ensures
            width == 0 || height == 0 ==> r is None && *final(self) == *old(self),
            width != 0 && height != 0 ==> r == Some((width, height)) && *final(self) == match *old(
                self,
            ) {
                Executor::Cpu(c) => Executor::Cpu(
                    CpuExecutor { config: ViewportConfig { width, height, ..c.config }, ..c },
                ),
                Executor::Gpu(g) => Executor::Gpu(
                    GpuExecutor { pipeline: g.pipeline.with_size(width, height), ..g },
                ),
            },
    {
        match self {
            Executor::Cpu(c) => {
                if width == 0 || height == 0 {
                    return None;
                }
                c.config.width = width;
                c.config.height = height;
                Some((width, height))
            },
            Executor::Gpu(g) => g.pipeline.resize(width, height),
        }
    }

    /// Sets the width over which the planes fade into each other.
    pub fn set_blend_width(&mut self, width: Scalar)
        ensures
            *final(self) == match *old(self) {
                Executor::Cpu(c) => Executor::Cpu(
                    CpuExecutor {
                        calib: Calibration {
                            topology: Topology { blend_width: width, ..c.calib.topology },
                            ..c.calib
                        },
                        ..c
                    },
                ),
                Executor::Gpu(g) => Executor::Gpu(
                    GpuExecutor {
                        pipeline: g.pipeline.with_topology(
                            Topology { blend_width: width, ..g.pipeline.calibration.topology },
                        ),
                        ..g
                    },
                ),
            },
    {
        match self {
            Executor::Cpu(c) => {
                c.calib.topology.blend_width = width;
            },
            Executor::Gpu(g) => {
                g.pipeline.set_blend_width(width);
            },
        }
    }

    pub fn set_show_seam_line(&mut self, show: bool)
        ensures
            *final(self) == match *old(self) {
                Executor::Cpu(_) => *old(self),
                Executor::Gpu(g) => Executor::Gpu(
                    GpuExecutor {
                        pipeline: StitchPipeline { show_seam_line: show, ..g.pipeline },
                        ..g
                    },
                ),
            },
    {
        match self {
            Executor::Cpu(_) => {},
            Executor::Gpu(g) => {
                g.pipeline.set_show_seam_line(show);
            },
        }
    }

    /// Sets the colour grade on the device. `identity` says that it changes
    /// nothing.
    pub fn set_color_grade(
        &mut self,
        brightness: Scalar,
        saturation: Scalar,
        gamma: Scalar,
        identity: bool,
    ) -> (change: PassChange)
        ensures
            match *old(self) {
                Executor::Cpu(_) => *final(self) == *old(self) && change == PassChange::Nothing,
                Executor::Gpu(g) => {
                    &&& *final(self) == Executor::Gpu(
                        GpuExecutor {
                            pipeline: g.pipeline.graded(brightness, saturation, gamma, identity),
                            ..g
                        },
                    )
                    &&& change == pass_change(g.pipeline.color_grade_pass, identity)
                },
            },
    {
        match self {
            Executor::Cpu(_) => PassChange::Nothing,
            Executor::Gpu(g) => g.pipeline.set_color_grade(
                brightness,
                saturation,
                gamma,
                identity,
            ),
        }
    }

    /// Sets the sharpening on the device. `identity` says that it changes
    /// nothing.
    pub fn set_sharpen_params(
        &mut self,
        amount: Scalar,
        radius: Scalar,
        identity: bool,
    ) -> (change: PassChange)
        ensures
            match *old(self) {
                Executor::Cpu(_) => *final(self) == *old(self) && change == PassChange::Nothing,
                Executor::Gpu(g) => {
                    &&& *final(self) == Executor::Gpu(
                        GpuExecutor {
                            pipeline: g.pipeline.sharpened(amount, radius, identity),
                            ..g
                        },
                    )
                    &&& change == pass_change(g.pipeline.sharpen_pass, identity)
                },
            },
    {
        match self {
            Executor::Cpu(_) => PassChange::Nothing,
            Executor::Gpu(g) => g.pipeline.set_sharpen_params(amount, radius, identity),
        }
    }

    /// The same executor with other lenses and another scene.
    pub open spec fn with_lenses(self, lenses: Vec<Lens>, scene: SceneGeometry) -> Executor {
        match self {
            Executor::Cpu(c) => Executor::Cpu(
                CpuExecutor { calib: Calibration { lenses, ..c.calib }, scene, ..c },
            ),
            Executor::Gpu(g) => Executor::Gpu(
                GpuExecutor {
                    pipeline: StitchPipeline {
                        calibration: Calibration { lenses, ..g.pipeline.calibration },
                        scene,
                        ..g.pipeline
                    },
                    ..g
                },
            ),
        }
    }

    /// Sets how much of the lens correction is applied, of every lens.
    pub fn set_lens_correction_amount(&mut self, amount: Scalar)
        ensures
            final(self).spec_calibration().lenses@ == corrected(
                old(self).spec_calibration().lenses@,
                amount.spec_clamp(Scalar { bits: ZERO }, Scalar { bits: ONE }),
            ),
            *final(self) == old(self).with_lenses(
                final(self).spec_calibration().lenses,
                old(self).spec_scene(),
            ),
    {
        match self {
            Executor::Cpu(c) => {
                correct_lenses(&mut c.calib.lenses, amount);
            },
            Executor::Gpu(g) => {
                g.pipeline.set_lens_correction_amount(amount);
            },
        }
    }

    /// `self` is the executor `before` with another calibration and the scene
    /// that follows from it.
    pub open spec fn recalibrated<M: SceneMath>(
        self,
        before: Executor,
        calibration: Calibration,
        math: M,
    ) -> bool {
        match (before, self) {
            (Executor::Cpu(c), Executor::Cpu(x)) => {
                &&& scene_of(math, calibration, x.scene)
                &&& x == (CpuExecutor { calib: calibration, scene: x.scene, ..c })
            },
            (Executor::Gpu(g), Executor::Gpu(x)) => {
                &&& x.pipeline.recalibrated(g.pipeline, calibration, math)
                &&& x == (GpuExecutor { pipeline: x.pipeline, ..g })
            },
            _ => false,
        }
    }

    /// Takes another calibration and lays out the scene that follows from it.
    pub fn update_calibration<M: SceneMath>(&mut self, calibration: Calibration, math: &M)
        requires
            calibration.lenses@.len() > 0,
        ensures
            final(self).recalibrated(*old(self), calibration, *math),
    {
        match self {
            Executor::Cpu(c) => {
                c.scene = SceneGeometry::of(&calibration, math);
                c.calib = calibration;
            },
            Executor::Gpu(g) => {
                g.pipeline.update_calibration(calibration, math);
            },
        }
    }

    pub fn update_topology<M: SceneMath>(&mut self, topology: Topology, math: &M)
        requires
            old(self).spec_calibration().lenses@.len() > 0,
        ensures
            final(self).recalibrated(
                *old(self),
                Calibration { topology, ..old(self).spec_calibration() },
                *math,
            ),
    {
        match self {
            Executor::Cpu(c) => {
                c.calib.topology = topology;
                c.scene = SceneGeometry::of(&c.calib, math);
            },
            Executor::Gpu(g) => {
                g.pipeline.update_topology(topology, math);
            },
        }
    }

    pub fn update_framing<M: SceneMath>(&mut self, framing: Framing, math: &M)
        requires
            old(self).spec_calibration().lenses@.len() > 0,
        ensures
            final(self).recalibrated(
                *old(self),
                Calibration { framing, ..old(self).spec_calibration() },
                *math,
            ),
    {
        match self {
            Executor::Cpu(c) => {
                c.calib.framing = framing;
                c.scene = SceneGeometry::of(&c.calib, math);
            },
            Executor::Gpu(g) => {
                g.pipeline.update_framing(framing, math);
            },
        }
    }

    /// Takes other lenses, and lays out the scene that follows from them. On the
    /// device nothing happens where none is given.
    pub fn update_camera_params<M: SceneMath>(
        &mut self,
        left: Option<Lens>,
        right: Option<Lens>,
        math: &M,
    )
        requires
            *old(self) is Cpu || left is Some ==> old(self).spec_calibration().lenses@.len() > 0,
            right is Some ==> old(self).spec_calibration().lenses@.len() > 1,
        ensures
            final(self).spec_calibration().lenses@ == replaced(
                old(self).spec_calibration().lenses@,
                left,
                right,
            ),
            *final(self) == old(self).with_lenses(
                final(self).spec_calibration().lenses,
                final(self).spec_scene(),
            ),
            *final(self) is Cpu || left is Some || right is Some ==> scene_of(
                *math,
                final(self).spec_calibration(),
                final(self).spec_scene(),
            ),
            *final(self) is Gpu && left is None && right is None ==> final(self).spec_scene()
                == old(self).spec_scene(),
    {
        match self {
            Executor::Cpu(c) => {
                replace_lenses(&mut c.calib.lenses, left, right);
                c.scene = SceneGeometry::of(&c.calib, math);
            },
            Executor::Gpu(g) => {
                g.pipeline.update_camera_params(left, right);
                if left.is_some() || right.is_some() {
                    g.pipeline.scene = SceneGeometry::of(&g.pipeline.calibration, math);
                }
            },
        }
    }

    pub fn output_dims(&self) -> (d: (u32, u32))
        ensures
            d == (self.spec_viewport().width, self.spec_viewport().height),
    {
        match self {
            Executor::Cpu(c) => c.output_dims(),
            Executor::Gpu(g) => g.output_dims(),
        }
    }

    pub fn name(&self) -> (n: &'static str)
        ensures
            n@ == if *self is Cpu {
                "cpu"@
            } else {
                "gpu"@
            },
    {
        match self {
            Executor::Cpu(c) => c.name(),
            Executor::Gpu(g) => g.name(),
        }
    }
}

} // verus!
