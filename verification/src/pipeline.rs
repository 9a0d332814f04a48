//! The stitching pipeline's state: what is rendered, how, and what is drawn
//! over it.

use crate::async_detect::CameraId;
use crate::band_gather::{
    gathered_from, kept, mirrored, mirrored_180, position_words, BandGather, GatherDispatch,
    GatheredSamples, MapPoll, PositionKey, PositionUpload, Readback, TakeAction,
    MAX_SAMPLES_PER_CAMERA,
};
use crate::bytes::encodes;
use crate::calibration::{Calibration, CalibrationError, Framing, Lens, Topology};
use crate::color_match::{
    applied, band_sample_positions, frame_matched, grid_projected, interleaved, kept_pixels,
    mean_of_normalized_samples, no_offset, normalized_averaged, pixels_of, planar, BandMath,
    ColorCorrection, ColorMatchParams, ColorMatchState, SourcePoint,
};
use crate::frame_buffer::StereoFrame;
use crate::overlay::{
    centred, OverlayError, OverlayFrame, OverlayPlacement, RgbaOverlayCompositor, UploadPlan,
};
use crate::planes::{BgraPlanes, Nv12Planes, YuvPlanes};
use crate::renderer::{
    bgra_mismatch, blur_sigma, blur_width_driver, driven_width, inv_gamma, multiband_passes,
    normalized_lens, nv12_mismatch, plan_multiband, plan_stitch, raised_to, spread, spread_by,
    texel, texel_of, upload_bgra, upload_nv12, upload_yuv, yuv_mismatch, GroundTilt, LensUniforms,
    MultibandPlan, PlaneInputs, PlaneWrite, RenderError, Renderer, StitchInputs, StitchMath,
    StitchPlan, TopTilt, SIGMA_MAX, SIGMA_MIN,
};
use crate::resources::{InputFormat, TextureFormat};
use crate::scalar::{Scalar, Wide, ONE, ZERO};
use crate::scene::{narrowed, scene_of, SceneGeometry, SceneMath, SceneView};
use crate::text::{append_decimal, append_dims, decimal, dims_text};
use crate::viewport::{ViewportConfig, ViewportError, FOV_LIMIT};
use vstd::prelude::*;
use vstd::string::StringExecFns;

verus! {

/// The bits of 1e-2: a camera nearer to the corner than this cannot be aimed.
pub const CAMERA_MIN_DISTANCE: u32 = 0x3c23_d70a;

/// What the device said when it failed.
#[derive(Clone, Debug)]
pub struct GpuError {
    pub reason: String,
}

#[derive(Clone, Debug)]
pub enum PipelineError {
    Gpu(GpuError),
    Calibration(CalibrationError),
    Render(RenderError),
    UnsupportedFrameVariant { reason: &'static str },
    InvalidConfig { reason: String },
}

impl PipelineError {
    pub open spec fn text(self) -> Seq<char> {
        match self {
            PipelineError::Gpu(e) => "GPU error: "@ + e.reason@,
            PipelineError::Calibration(e) => "invalid calibration: "@ + e.reason@,
            PipelineError::Render(e) => "render error: "@ + e.text(),
            PipelineError::UnsupportedFrameVariant { reason } => "unsupported frame variant: "@
                + reason@,
            PipelineError::InvalidConfig { reason } => "invalid config: "@ + reason@,
        }
    }

    pub fn message(&self) -> (m: String)
        ensures
            m@ == self.text(),
    {
        match self {
            PipelineError::Gpu(e) => {
                let mut m: String = "GPU error: ".to_owned();
                m.append(e.reason.as_str());
                m
            },
            PipelineError::Calibration(e) => {
                let mut m: String = "invalid calibration: ".to_owned();
                m.append(e.reason.as_str());
                m
            },
            PipelineError::Render(e) => {
                let mut m: String = "render error: ".to_owned();
                let inner: String = e.message();
                m.append(inner.as_str());
                m
            },
            PipelineError::UnsupportedFrameVariant { reason } => {
                let mut m: String = "unsupported frame variant: ".to_owned();
                m.append(reason);
                m
            },
            PipelineError::InvalidConfig { reason } => {
                let mut m: String = "invalid config: ".to_owned();
                m.append(reason.as_str());
                m
            },
        }
    }
}

/// What has to be done on the device when a pass's parameters change.
#[derive(Clone, Copy, Debug, PartialEq, Eq, Structural)]
pub enum PassChange {
    Nothing,
    Create,
    Update,
}

/// A pass over the finished picture. It is made when it is first needed, and
/// left out while its parameters change nothing.
#[derive(Clone, Copy, Debug)]
pub struct PostPass {
    pub created: bool,
    pub identity: bool,
    /// The size of the texture that it computes into.
    pub scratch: Option<(u32, u32)>,
}

impl PostPass {
    pub open spec fn spec_active(self) -> bool {
        self.created && !self.identity
    }

    pub fn new(identity: bool) -> (p: PostPass)
        ensures
            p == (PostPass { created: !identity, identity, scratch: None }),
    {
        PostPass { created: !identity, identity, scratch: None }
    }

    /// The pass changes the picture.
    pub fn active(&self) -> (r: bool)
        ensures
            r == self.spec_active(),
    {
        self.created && !self.identity
    }

    /// Takes new parameters, of which it is known whether they change nothing.
    pub fn set_params(&mut self, identity: bool) -> (change: PassChange)
        ensures
            *final(self) == reparametrized(*old(self), identity),
            change == pass_change(*old(self), identity),
    {
        let was: bool = self.created;
        self.identity = identity;
        self.created = was || !identity;
        if was {
            PassChange::Update
        } else if !identity {
            PassChange::Create
        } else {
            PassChange::Nothing
        }
    }

    /// Takes the size of the picture, and says whether the texture that the pass
    /// computes into has to be made anew for it.
    pub fn scratch_for(&mut self, width: u32, height: u32) -> (recreate: bool)
        ensures
            recreate == (old(self).scratch != Some((width, height))),
            *final(self) == (PostPass { scratch: Some((width, height)), ..*old(self) }),
    {
        let recreate: bool = match self.scratch {
            Some(s) => s.0 != width || s.1 != height,
            None => true,
        };
        self.scratch = Some((width, height));
        recreate
    }
}

/// What happened to an overlay's compositor.
#[derive(Clone, Copy, Debug, PartialEq, Eq, Structural)]
pub enum OverlayChange {
    /// It was made; its parameters are written after the upload.
    Created(UploadPlan),
    /// It was there already.
    Uploaded(UploadPlan),
}

/// A step that is drawn over the stitch.
#[derive(Clone, Copy, Debug, PartialEq, Eq, Structural)]
pub enum CompositeStep {
    ColorGrade,
    Transition,
    Overlay,
    Sharpen,
}

/// Where a stitch is drawn to: the pipeline's own target, or a view of the
/// size of the viewport.
#[derive(Clone, Copy, Debug, PartialEq, Eq, Structural)]
pub enum RenderTo {
    Target,
    View,
}

/// The blur of the multiband stitch.
#[derive(Clone, Copy, Debug)]
pub struct Blur {
    pub texel_size: [Scalar; 2],
    pub sigma: Scalar,
}

/// One stitch, ready to be encoded.
pub enum RenderPlan {
    Plain(StitchPlan),
    /// Its textures may have to be made anew first.
    Multiband { plan: MultibandPlan, blur: Blur, recreate: bool },
}

/// The planes that each camera's picture is written to, luma first.
#[derive(Clone, Copy, Debug, PartialEq, Eq, Structural)]
pub enum PlaneWrites {
    /// The pictures are on the device already.
    Nothing,
    Yuv420p { luma: PlaneWrite, chroma: PlaneWrite },
    Nv12 { luma: PlaneWrite, chroma: PlaneWrite },
    Bgra { rgba: PlaneWrite },
}

/// One frame, ready to be put on the device: what is written, what is stitched,
/// and what is drawn over it, in order.
pub struct FramePlan {
    pub writes: PlaneWrites,
    pub stitch: RenderPlan,
    pub steps: Vec<CompositeStep>,
}

/// How a gather begins: whether its resources have to be made, and the next
/// step of the readback that is under way.
#[derive(Clone, Copy, Debug, PartialEq, Eq, Structural)]
pub struct GatherBegin {
    pub create: bool,
    pub action: TakeAction,
}

/// What a gather does after the readback.
#[derive(Clone, Copy, Debug)]
pub enum GatherNext {
    Skip,
    /// Start one, for the positions of this key, which may have to be uploaded.
    Dispatch { key: PositionKey, upload: bool },
}

/// What a pipeline is made from.
pub struct PipelineSetup {
    pub calibration: Calibration,
    /// What the calibration's own checks said.
    pub calibration_check: Result<(), CalibrationError>,
    pub viewport: ViewportConfig,
    pub input_width: u32,
    pub input_height: u32,
    /// The largest picture that can come in, either way.
    pub max_dim: u32,
    pub output_format: TextureFormat,
    pub input_format: InputFormat,
    /// The calibration's colour grade and sharpening change nothing.
    pub color_grade_identity: bool,
    pub sharpen_identity: bool,
}

pub struct StitchPipeline {
    pub scene: SceneGeometry,
    pub calibration: Calibration,
    pub viewport: ViewportConfig,
    pub show_seam_line: bool,
    pub renderer: Renderer,
    pub color_match: ColorMatchState,
    pub band_gather: Option<BandGather>,
    pub output_format: TextureFormat,
    pub overlay: Option<RgbaOverlayCompositor>,
    pub overlay_placement: OverlayPlacement,
    pub transition: Option<RgbaOverlayCompositor>,
    pub color_grade_pass: PostPass,
    pub sharpen_pass: PostPass,
}

/// The message of a viewport that is refused, with its number as `show` writes
/// it.
pub open spec fn viewport_reason<F: Fn(Scalar) -> String>(
    show: F,
    fault: ViewportError,
    reason: Seq<char>,
) -> bool {
    match fault {
        ViewportError::Dimensions { .. } => reason == fault.text(Seq::empty()),
        ViewportError::Fov(x) => exists|shown: String|
            #[trigger] call_ensures(show, (x,), shown) && reason == fault.text(shown@),
        ViewportError::BlendWidth(x) => exists|shown: String|
            #[trigger] call_ensures(show, (x,), shown) && reason == fault.text(shown@),
    }
}

pub fn viewport_message<F: Fn(Scalar) -> String>(fault: ViewportError, show: &F) -> (m: String)
    requires
        forall|x: Scalar| #[trigger] call_requires(*show, (x,)),
    ensures
        viewport_reason(*show, fault, m@),
{
    match fault {
        ViewportError::Dimensions { .. } => {
            let none: String = String::new();
            fault.message(none.as_str())
        },
        ViewportError::Fov(x) => {
            let shown: String = show(x);
            fault.message(shown.as_str())
        },
        ViewportError::BlendWidth(x) => {
            let shown: String = show(x);
            fault.message(shown.as_str())
        },
    }
}

/// What is wrong with the size of the pictures that come in, if anything.
pub open spec fn input_fault(width: u32, height: u32, max_dim: u32) -> Option<Seq<char>> {
    if width == 0 || height == 0 {
        Some("input dimensions must be > 0, got "@ + dims_text(width as nat, height as nat))
    } else if width > max_dim || height > max_dim {
        Some(
            "input dimensions "@ + dims_text(width as nat, height as nat) + " exceed MAX_DIM ("@
                + decimal(max_dim as nat) + ")"@,
        )
    } else {
        None
    }
}

fn check_input(width: u32, height: u32, max_dim: u32) -> (r: Result<(), String>)
    ensures
        r is Ok <==> input_fault(width, height, max_dim) is None,
        r matches Err(m) ==> input_fault(width, height, max_dim) == Some(m@),
{
    if width == 0 || height == 0 {
        let mut m: String = "input dimensions must be > 0, got ".to_owned();
        append_dims(&mut m, width as u64, height as u64);
        return Err(m);
    }
    if width > max_dim || height > max_dim {
        let mut m: String = "input dimensions ".to_owned();
        append_dims(&mut m, width as u64, height as u64);
        m.append(" exceed MAX_DIM (");
        append_decimal(&mut m, max_dim as u64);
        m.append(")");
        return Err(m);
    }
    Ok(())
}

/// A field of view that can be drawn.
pub open spec fn held_fov(fov_degrees: Scalar) -> Scalar {
    fov_degrees.spec_clamp(Scalar { bits: ONE }, Scalar { bits: FOV_LIMIT })
}

/// What new parameters ask of a pass.
pub open spec fn pass_change(pass: PostPass, identity: bool) -> PassChange {
    if pass.created {
        PassChange::Update
    } else if !identity {
        PassChange::Create
    } else {
        PassChange::Nothing
    }
}

/// A pass with new parameters.
pub open spec fn reparametrized(pass: PostPass, identity: bool) -> PostPass {
    PostPass { created: pass.created || !identity, identity, ..pass }
}

/// An overlay's compositor after a frame, and what its change says: refused
/// frames leave it as it was.
pub open spec fn frame_shown(
    before: Option<RgbaOverlayCompositor>,
    frame: OverlayFrame,
    output_size: (u32, u32),
    placement: OverlayPlacement,
    r: Result<OverlayChange, PipelineError>,
    after: Option<RgbaOverlayCompositor>,
) -> bool {
    match frame.fault() {
        Some(fault) => {
            &&& after == before
            &&& r matches Err(PipelineError::InvalidConfig { reason })
            &&& reason@ == "invalid overlay frame: "@ + fault
        },
        None => {
            let plan = UploadPlan {
                recreate_texture: before matches Some(c) && c.texture_size != (
                    frame.width,
                    frame.height,
                ),
                write_params: before matches Some(c) && c.reference_size != frame.design_size,
                width: frame.width,
                height: frame.height,
                bytes_per_row: (frame.width * 4) as u32,
            };
            match before {
                Some(c) => after == Some(c.showing(frame)) && r == Ok::<
                    OverlayChange,
                    PipelineError,
                >(OverlayChange::Uploaded(plan)),
                None => after == Some(
                    RgbaOverlayCompositor {
                        reference_size: frame.design_size,
                        texture_size: (frame.width, frame.height),
                        output_size,
                        placement,
                        opacity: Scalar { bits: ONE },
                    },
                ) && r == Ok::<OverlayChange, PipelineError>(OverlayChange::Created(plan)),
            }
        },
    }
}

fn refused(e: OverlayError) -> (p: PipelineError)
    ensures
        p matches PipelineError::InvalidConfig { reason } && reason@ == e.text(),
{
    PipelineError::InvalidConfig { reason: e.message() }
}

fn show_frame(
    slot: &mut Option<RgbaOverlayCompositor>,
    frame: &OverlayFrame,
    output_size: (u32, u32),
    placement: OverlayPlacement,
) -> (r: Result<OverlayChange, PipelineError>)
    ensures
        frame_shown(*old(slot), *frame, output_size, placement, r, *final(slot)),
{
    match slot {
        Some(c) => {
            match c.upload(frame) {
                Ok(plan) => Ok(OverlayChange::Uploaded(plan)),
                Err(e) => Err(refused(e)),
            }
        },
        None => {
            match RgbaOverlayCompositor::new(output_size, frame) {
                Ok((compositor, plan)) => {
                    let mut placed: RgbaOverlayCompositor = compositor;
                    placed.set_placement(placement);
                    *slot = Some(placed);
                    Ok(OverlayChange::Created(plan))
                },
                Err(e) => Err(refused(e)),
            }
        },
    }
}

/// A compositor for another size of output.
pub open spec fn resized(
    slot: Option<RgbaOverlayCompositor>,
    output_size: (u32, u32),
) -> Option<RgbaOverlayCompositor> {
    match slot {
        Some(c) => Some(RgbaOverlayCompositor { output_size, ..c }),
        None => None,
    }
}

fn resize_slot(slot: &mut Option<RgbaOverlayCompositor>, output_size: (u32, u32))
    ensures
        *final(slot) == resized(*old(slot), output_size),
{
    match slot {
        Some(c) => {
            c.resize(output_size);
        },
        None => {},
    }
}

pub open spec fn optional(step: CompositeStep, on: bool) -> Seq<CompositeStep> {
    if on {
        seq![step]
    } else {
        Seq::empty()
    }
}

fn push_if(steps: &mut Vec<CompositeStep>, step: CompositeStep, on: bool)
    ensures
        final(steps)@ == old(steps)@ + optional(step, on),
{
    if on {
        steps.push(step);
    }
}

/// Lenses whose correction is `amount`, otherwise as they were.
pub open spec fn corrected(lenses: Seq<Lens>, amount: Scalar) -> Seq<Lens> {
    lenses.map_values(|l: Lens| Lens { correction: amount, ..l })
}

pub fn correct_lenses(lenses: &mut Vec<Lens>, amount: Scalar)
    ensures
        final(lenses)@ == corrected(
            old(lenses)@,
            amount.spec_clamp(Scalar { bits: ZERO }, Scalar { bits: ONE }),
        ),
{
    let held: Scalar = amount.clamp(Scalar { bits: ZERO }, Scalar { bits: ONE });
    let mut i: usize = 0;
    while i < lenses.len()
        invariant
            i <= lenses@.len(),
            lenses@.len() == old(lenses)@.len(),
            forall|k: int|
                0 <= k < i ==> #[trigger] lenses@[k] == (Lens {
                    correction: held,
                    ..old(lenses)@[k]
                }),
            forall|k: int| i <= k < lenses@.len() ==> #[trigger] lenses@[k] == old(lenses)@[k],
        decreases lenses@.len() - i,
    {
        let mut lens: Lens = lenses[i];
        lens.correction = held;
        lenses[i] = lens;
        i += 1;
    }
}

/// The lenses with those that are given in place of the first and the second.
pub open spec fn replaced(lenses: Seq<Lens>, left: Option<Lens>, right: Option<Lens>) -> Seq<Lens> {
    let first = match left {
        Some(l) => lenses.update(0, l),
        None => lenses,
    };
    match right {
        Some(r) => first.update(1, r),
        None => first,
    }
}

pub fn replace_lenses(lenses: &mut Vec<Lens>, left: Option<Lens>, right: Option<Lens>)
    requires
        left is Some ==> old(lenses)@.len() > 0,
        right is Some ==> old(lenses)@.len() > 1,
    ensures
        final(lenses)@ == replaced(old(lenses)@, left, right),
{
    match left {
        Some(l) => {
            lenses[0] = l;
        },
        None => {},
    }
    match right {
        Some(r) => {
            lenses[1] = r;
        },
        None => {},
    }
}

/// Pixels in a picture of this size that is turned by 180 degrees.
pub open spec fn turned_pixels(pixels: Seq<Seq<u32>>, size: (u32, u32)) -> Seq<Seq<u32>> {
    pixels.map_values(|p: Seq<u32>| seq![mirrored(p[0], size.0), mirrored(p[1], size.1)])
}

impl StitchPipeline {
    pub open spec fn with_topology(self, topology: Topology) -> StitchPipeline {
        StitchPipeline { calibration: Calibration { topology, ..self.calibration }, ..self }
    }

    /// The same pipeline, about to measure the seam anew.
    pub open spec fn remeasuring(self) -> StitchPipeline {
        StitchPipeline {
            color_match: ColorMatchState {
                frames_since_measure: (u32::MAX - 1) as u32,
                ..self.color_match
            },
            ..self
        }
    }

    /// The pictures have extent, and the gather's counts are within its buffers.
    pub open spec fn wf(self) -> bool {
        &&& self.renderer.input_width >= 1
        &&& self.renderer.input_height >= 1
        &&& self.band_gather matches Some(g) ==> g.wf()
    }

    /// A pipeline that was just made from a valid setup.
    pub open spec fn fresh<M: SceneMath>(self, setup: PipelineSetup, math: M) -> bool {
        &&& scene_of(math, setup.calibration, self.scene)
        &&& self.color_match.is_fresh()
        &&& self == (StitchPipeline {
            scene: self.scene,
            calibration: setup.calibration,
            viewport: setup.viewport,
            show_seam_line: false,
            renderer: Renderer {
                output_width: setup.viewport.width,
                output_height: setup.viewport.height,
                input_width: setup.input_width,
                input_height: setup.input_height,
                input_format: setup.input_format,
                is_full_range: false,
                flip_180: (false, false),
                multiband_size: (setup.viewport.width, setup.viewport.height),
            },
            color_match: self.color_match,
            band_gather: None,
            output_format: setup.output_format,
            overlay: None,
            overlay_placement: centred(),
            transition: None,
            color_grade_pass: PostPass {
                created: !setup.color_grade_identity,
                identity: setup.color_grade_identity,
                scratch: None,
            },
            sharpen_pass: PostPass {
                created: !setup.sharpen_identity,
                identity: setup.sharpen_identity,
                scratch: None,
            },
        })
    }

    /// A pipeline for a valid calibration, viewport and size of pictures; the
    /// first that is not decides the error. `show` writes a number in a message.
    pub fn with_gpu<F: Fn(Scalar) -> String, M: SceneMath>(
        setup: PipelineSetup,
        show: &F,
        math: &M,
    ) -> (r: Result<StitchPipeline, PipelineError>)
        requires
            forall|x: Scalar| #[trigger] call_requires(*show, (x,)),
            setup.calibration_check is Ok ==> setup.calibration.lenses@.len() > 0,
        ensures
            match setup.calibration_check {
                Err(e) => r == Err::<StitchPipeline, PipelineError>(PipelineError::Calibration(e)),
                Ok(_) => match setup.viewport.fault() {
                    Some(fault) => r matches Err(PipelineError::InvalidConfig { reason })
                        && viewport_reason(*show, fault, reason@),
                    None => match input_fault(
                        setup.input_width,
                        setup.input_height,
                        setup.max_dim,
                    ) {
                        Some(text) => r matches Err(PipelineError::InvalidConfig { reason })
                            && reason@ == text,
                        None => r is Ok,
                    },
                },
            },
            r matches Ok(p) ==> p.wf() && p.fresh(setup, *math),
    {
        match setup.calibration_check {
            Ok(()) => {},
            Err(e) => {
                return Err(PipelineError::Calibration(e));
            },
        }
        match setup.viewport.validate() {
            Ok(()) => {},
            Err(fault) => {
                return Err(
                    PipelineError::InvalidConfig { reason: viewport_message(fault, show) },
                );
            },
        }
        match check_input(setup.input_width, setup.input_height, setup.max_dim) {
            Ok(()) => {},
            Err(reason) => {
                return Err(PipelineError::InvalidConfig { reason });
            },
        }
        Ok(
            StitchPipeline {
                scene: SceneGeometry::of(&setup.calibration, math),
                calibration: setup.calibration,
                viewport: setup.viewport,
                show_seam_line: false,
                renderer: Renderer::new(
                    setup.viewport.width,
                    setup.viewport.height,
                    setup.input_width,
                    setup.input_height,
                    setup.input_format,
                ),
                color_match: ColorMatchState::default(),
                band_gather: None,
                output_format: setup.output_format,
                overlay: None,
                overlay_placement: OverlayPlacement::default(),
                transition: None,
                color_grade_pass: PostPass::new(setup.color_grade_identity),
                sharpen_pass: PostPass::new(setup.sharpen_identity),
            },
        )
    }

    pub fn calibration(&self) -> (c: &Calibration)
        ensures
            *c == self.calibration,
    {
        &self.calibration
    }

    pub fn viewport(&self) -> (v: &ViewportConfig)
        ensures
            *v == self.viewport,
    {
        &self.viewport
    }

    /// The size of the pictures that come in.
    pub fn source_info(&self) -> (size: (u32, u32))
        ensures
            size == (self.renderer.input_width, self.renderer.input_height),
    {
        (self.renderer.input_width, self.renderer.input_height)
    }

    pub fn input_format(&self) -> (f: InputFormat)
        ensures
            f == self.renderer.input_format,
    {
        self.renderer.input_format
    }

    /// The same pipeline for another size of output.
    pub open spec fn with_size(self, width: u32, height: u32) -> StitchPipeline {
        StitchPipeline {
            viewport: ViewportConfig { width, height, ..self.viewport },
            overlay: resized(self.overlay, (width, height)),
            transition: resized(self.transition, (width, height)),
            color_grade_pass: PostPass { scratch: None, ..self.color_grade_pass },
            sharpen_pass: PostPass { scratch: None, ..self.sharpen_pass },
            ..self
        }
    }

    /// Takes another size of output; a size without extent is ignored. The post
    /// passes' textures are dropped, to be made anew for it.
    pub fn resize(&mut self, width: u32, height: u32) -> (r: Option<(u32, u32)>)
        ensures
            width == 0 || height == 0 ==> r is None && *final(self) == *old(self),
            width != 0 && height != 0 ==> r == Some((width, height)) && *final(self) == old(
                self,
            ).with_size(width, height),
    {
        if width == 0 || height == 0 {
            return None;
        }
        self.viewport.width = width;
        self.viewport.height = height;
        resize_slot(&mut self.overlay, (width, height));
        resize_slot(&mut self.transition, (width, height));
        self.color_grade_pass.scratch = None;
        self.sharpen_pass.scratch = None;
        Some((width, height))
    }

    /// Shows a frame as the overlay, where the overlay was last placed.
    pub fn set_overlay_frame(&mut self, frame: &OverlayFrame) -> (r: Result<
        OverlayChange,
        PipelineError,
    >)
        ensures
            frame_shown(
                old(self).overlay,
                *frame,
                (old(self).viewport.width, old(self).viewport.height),
                old(self).overlay_placement,
                r,
                final(self).overlay,
            ),
            *final(self) == (StitchPipeline { overlay: final(self).overlay, ..*old(self) }),
    {
        let size: (u32, u32) = (self.viewport.width, self.viewport.height);
        let placement: OverlayPlacement = self.overlay_placement;
        show_frame(&mut self.overlay, frame, size, placement)
    }

    pub fn clear_overlay(&mut self)
        ensures
            *final(self) == (StitchPipeline { overlay: None, ..*old(self) }),
    {
        self.overlay = None;
    }

    /// Shows a frame as the transition's card, which is always centred.
    pub fn set_transition_frame(&mut self, frame: &OverlayFrame) -> (r: Result<
        OverlayChange,
        PipelineError,
    >)
        ensures
            frame_shown(
                old(self).transition,
                *frame,
                (old(self).viewport.width, old(self).viewport.height),
                centred(),
                r,
                final(self).transition,
            ),
            *final(self) == (StitchPipeline { transition: final(self).transition, ..*old(self) }),
    {
        let size: (u32, u32) = (self.viewport.width, self.viewport.height);
        show_frame(&mut self.transition, frame, size, OverlayPlacement::default())
    }

    /// Sets the opacity of the transition's card, if there is one, and says
    /// whether its parameters are to be written.
    pub fn set_transition_opacity(&mut self, opacity: Scalar) -> (write_params: bool)
        ensures
            ({
                let held = opacity.spec_clamp(Scalar { bits: ZERO }, Scalar { bits: ONE });
                match old(self).transition {
                    Some(c) => {
                        &&& write_params == !c.opacity.equals(held)
                        &&& *final(self) == if write_params {
                            StitchPipeline {
                                transition: Some(RgbaOverlayCompositor { opacity: held, ..c }),
                                ..*old(self)
                            }
                        } else {
                            *old(self)
                        }
                    },
                    None => !write_params && *final(self) == *old(self),
                }
            }),
    {
        match &mut self.transition {
            Some(c) => c.set_opacity(opacity),
            None => false,
        }
    }

    pub fn clear_transition(&mut self)
        ensures
            *final(self) == (StitchPipeline { transition: None, ..*old(self) }),
    {
        self.transition = None;
    }

    pub fn has_transition(&self) -> (r: bool)
        ensures
            r == self.transition is Some,
    {
        self.transition.is_some()
    }

    pub fn has_overlay(&self) -> (r: bool)
        ensures
            r == self.overlay is Some,
    {
        self.overlay.is_some()
    }

    /// Places the overlay, and those that come after it.
    pub fn set_overlay_placement(&mut self, placement: OverlayPlacement)
        ensures
            *final(self) == (StitchPipeline {
                overlay_placement: placement,
                overlay: match old(self).overlay {
                    Some(c) => Some(RgbaOverlayCompositor { placement, ..c }),
                    None => None,
                },
                ..*old(self)
            }),
    {
        self.overlay_placement = placement;
        match &mut self.overlay {
            Some(c) => {
                c.set_placement(placement);
            },
            None => {},
        }
    }

    /// What is drawn over the stitch, in order: the colours are graded under the
    /// overlays, and everything is sharpened.
    pub open spec fn steps_over_target(self) -> Seq<CompositeStep> {
        optional(CompositeStep::ColorGrade, self.color_grade_pass.spec_active()) + optional(
            CompositeStep::Transition,
            self.transition is Some,
        ) + optional(CompositeStep::Overlay, self.overlay is Some) + optional(
            CompositeStep::Sharpen,
            self.sharpen_pass.spec_active(),
        )
    }

    /// What is drawn over a stitch that went straight to a view: there the
    /// overlays come first.
    pub open spec fn steps_over_view(self) -> Seq<CompositeStep> {
        optional(CompositeStep::Transition, self.transition is Some) + optional(
            CompositeStep::Overlay,
            self.overlay is Some,
        ) + optional(CompositeStep::ColorGrade, self.color_grade_pass.spec_active()) + optional(
            CompositeStep::Sharpen,
            self.sharpen_pass.spec_active(),
        )
    }

    pub fn target_steps(&self) -> (steps: Vec<CompositeStep>)
        ensures
            steps@ == self.steps_over_target(),
    {
        let mut steps: Vec<CompositeStep> = Vec::new();
        push_if(&mut steps, CompositeStep::ColorGrade, self.color_grade_pass.active());
        push_if(&mut steps, CompositeStep::Transition, self.transition.is_some());
        push_if(&mut steps, CompositeStep::Overlay, self.overlay.is_some());
        push_if(&mut steps, CompositeStep::Sharpen, self.sharpen_pass.active());
        steps
    }

    pub fn view_steps(&self) -> (steps: Vec<CompositeStep>)
        ensures
            steps@ == self.steps_over_view(),
    {
        let mut steps: Vec<CompositeStep> = Vec::new();
        push_if(&mut steps, CompositeStep::Transition, self.transition.is_some());
        push_if(&mut steps, CompositeStep::Overlay, self.overlay.is_some());
        push_if(&mut steps, CompositeStep::ColorGrade, self.color_grade_pass.active());
        push_if(&mut steps, CompositeStep::Sharpen, self.sharpen_pass.active());
        steps
    }

    /// Sets the field of view, held to what can be drawn.
    pub fn set_fov(&mut self, fov_degrees: Scalar)
        ensures
            *final(self) == (StitchPipeline {
                viewport: ViewportConfig {
                    fov_degrees: held_fov(fov_degrees),
                    ..old(self).viewport
                },
                ..*old(self)
            }),
    {
        self.viewport.fov_degrees = fov_degrees.clamp(
            Scalar { bits: ONE },
            Scalar { bits: FOV_LIMIT },
        );
    }

    pub fn fov(&self) -> (f: Scalar)
        ensures
            f == self.viewport.fov_degrees,
    {
        self.viewport.fov_degrees
    }

    pub open spec fn graded(
        self,
        brightness: Scalar,
        saturation: Scalar,
        gamma: Scalar,
        identity: bool,
    ) -> StitchPipeline {
        StitchPipeline {
            color_grade_pass: reparametrized(self.color_grade_pass, identity),
            ..self.with_topology(
                Topology {
                    color_grade_brightness: brightness,
                    color_grade_saturation: saturation,
                    color_grade_gamma: gamma,
                    ..self.calibration.topology
                },
            )
        }
    }

    /// Sets the colour grade. `identity` says that it changes nothing.
    pub fn set_color_grade(
        &mut self,
        brightness: Scalar,
        saturation: Scalar,
        gamma: Scalar,
        identity: bool,
    ) -> (change: PassChange)
        ensures
            *final(self) == old(self).graded(brightness, saturation, gamma, identity),
            change == pass_change(old(self).color_grade_pass, identity),
    {
        self.calibration.topology.color_grade_brightness = brightness;
        self.calibration.topology.color_grade_saturation = saturation;
        self.calibration.topology.color_grade_gamma = gamma;
        self.color_grade_pass.set_params(identity)
    }

    pub fn color_grade(&self) -> (g: (Scalar, Scalar, Scalar))
        ensures
            g.0 == self.calibration.topology.color_grade_brightness,
            g.1 == self.calibration.topology.color_grade_saturation,
            g.2 == self.calibration.topology.color_grade_gamma,
    {
        (
            self.calibration.topology.color_grade_brightness,
            self.calibration.topology.color_grade_saturation,
            self.calibration.topology.color_grade_gamma,
        )
    }

    pub open spec fn sharpened(
        self,
        amount: Scalar,
        radius: Scalar,
        identity: bool,
    ) -> StitchPipeline {
        StitchPipeline {
            sharpen_pass: reparametrized(self.sharpen_pass, identity),
            ..self.with_topology(
                Topology {
                    sharpen_amount: amount,
                    sharpen_radius: radius,
                    ..self.calibration.topology
                },
            )
        }
    }

    /// Sets the sharpening. `identity` says that it changes nothing.
    pub fn set_sharpen_params(
        &mut self,
        amount: Scalar,
        radius: Scalar,
        identity: bool,
    ) -> (change: PassChange)
        ensures
            *final(self) == old(self).sharpened(amount, radius, identity),
            change == pass_change(old(self).sharpen_pass, identity),
    {
        self.calibration.topology.sharpen_amount = amount;
        self.calibration.topology.sharpen_radius = radius;
        self.sharpen_pass.set_params(identity)
    }

    pub fn sharpen_params(&self) -> (s: (Scalar, Scalar))
        ensures
            s.0 == self.calibration.topology.sharpen_amount,
            s.1 == self.calibration.topology.sharpen_radius,
    {
        (self.calibration.topology.sharpen_amount, self.calibration.topology.sharpen_radius)
    }

    /// Sets how much of the lens correction is applied, of every lens.
    pub fn set_lens_correction_amount(&mut self, amount: Scalar)
        ensures
            final(self).calibration.lenses@ == corrected(
                old(self).calibration.lenses@,
                amount.spec_clamp(Scalar { bits: ZERO }, Scalar { bits: ONE }),
            ),
            *final(self) == (StitchPipeline {
                calibration: Calibration {
                    lenses: final(self).calibration.lenses,
                    ..old(self).calibration
                },
                ..*old(self)
            }),
    {
        correct_lenses(&mut self.calibration.lenses, amount);
    }

    /// Sets the width over which the planes fade into each other.
    pub fn set_blend_width(&mut self, width: Scalar)
        ensures
            *final(self) == old(self).with_topology(
                Topology { blend_width: width, ..old(self).calibration.topology },
            ),
    {
        self.calibration.topology.blend_width = width;
    }

    /// Makes the left plane the fading one, or the right.
    pub fn set_blend_flip_direction(&mut self, flip: bool)
        ensures
            *final(self) == old(self).with_topology(
                Topology { blend_flip_direction: flip, ..old(self).calibration.topology },
            ),
    {
        self.calibration.topology.blend_flip_direction = flip;
    }

    /// Moves the seam.
    pub fn set_seam_offset(&mut self, offset: Scalar)
        ensures
            *final(self) == old(self).with_topology(
                Topology { seam_offset: offset, ..old(self).calibration.topology },
            ),
    {
        self.calibration.topology.seam_offset = offset;
    }

    pub fn seam_offset(&self) -> (o: Scalar)
        ensures
            o == self.calibration.topology.seam_offset,
    {
        self.calibration.topology.seam_offset
    }

    /// Chooses between the multiband and the plain stitch.
    pub fn set_multiband_blend_enabled(&mut self, enabled: bool)
        ensures
            *final(self) == old(self).with_topology(
                Topology { multiband_blend_enabled: enabled, ..old(self).calibration.topology },
            ),
    {
        self.calibration.topology.multiband_blend_enabled = enabled;
    }

    pub fn set_show_seam_line(&mut self, show: bool)
        ensures
            *final(self) == (StitchPipeline { show_seam_line: show, ..*old(self) }),
    {
        self.show_seam_line = show;
    }

    /// Tilts the ground of the right plane.
    pub fn set_ground_tilt_x(&mut self, tilt: Wide)
        ensures
            *final(self) == old(self).with_topology(
                Topology { ground_tilt_x: tilt, ..old(self).calibration.topology },
            ),
    {
        self.calibration.topology.ground_tilt_x = tilt;
    }

    /// Tilts the ground of the left plane.
    pub fn set_ground_tilt_z(&mut self, tilt: Wide)
        ensures
            *final(self) == old(self).with_topology(
                Topology { ground_tilt_z: tilt, ..old(self).calibration.topology },
            ),
    {
        self.calibration.topology.ground_tilt_z = tilt;
    }

    /// Tilts the right plane above the horizon.
    pub fn set_top_tilt_x(&mut self, tilt: Wide)
        ensures
            *final(self) == old(self).with_topology(
                Topology { top_tilt_x: tilt, ..old(self).calibration.topology },
            ),
    {
        self.calibration.topology.top_tilt_x = tilt;
    }

    /// Tilts the left plane above the horizon.
    pub fn set_top_tilt_z(&mut self, tilt: Wide)
        ensures
            *final(self) == old(self).with_topology(
                Topology { top_tilt_z: tilt, ..old(self).calibration.topology },
            ),
    {
        self.calibration.topology.top_tilt_z = tilt;
    }

    /// Sets the width of the band over which the ground tilt sets in.
    pub fn set_ground_tilt_band_width(&mut self, width: Wide)
        ensures
            *final(self) == old(self).with_topology(
                Topology { ground_tilt_band_width: width, ..old(self).calibration.topology },
            ),
    {
        self.calibration.topology.ground_tilt_band_width = width;
    }

    /// Sets the width of the band over which the upper tilt sets in.
    pub fn set_top_tilt_band_width(&mut self, width: Wide)
        ensures
            *final(self) == old(self).with_topology(
                Topology { top_tilt_band_width: width, ..old(self).calibration.topology },
            ),
    {
        self.calibration.topology.top_tilt_band_width = width;
    }

    /// Turns colour matching on or off, and has the seam measured anew.
    pub fn set_color_match_enabled(&mut self, enabled: bool)
        ensures
            *final(self) == old(self).with_topology(
                Topology { color_match_enabled: enabled, ..old(self).calibration.topology },
            ).remeasuring(),
    {
        self.calibration.topology.color_match_enabled = enabled;
        self.force_color_match_remeasure();
    }

    /// Sets the width of the measured band, and has it measured anew.
    pub fn set_color_match_band_width(&mut self, width: Scalar)
        ensures
            *final(self) == old(self).with_topology(
                Topology { color_match_band_width: width, ..old(self).calibration.topology },
            ).remeasuring(),
    {
        self.calibration.topology.color_match_band_width = width;
        self.force_color_match_remeasure();
    }

    /// Sets the columns of the measured grid, and has it measured anew.
    pub fn set_color_match_grid_cols(&mut self, cols: u32)
        ensures
            *final(self) == old(self).with_topology(
                Topology { color_match_grid_cols: cols, ..old(self).calibration.topology },
            ).remeasuring(),
    {
        self.calibration.topology.color_match_grid_cols = cols;
        self.force_color_match_remeasure();
    }

    /// Sets the rows of the measured grid, and has it measured anew.
    pub fn set_color_match_grid_rows(&mut self, rows: u32)
        ensures
            *final(self) == old(self).with_topology(
                Topology { color_match_grid_rows: rows, ..old(self).calibration.topology },
            ).remeasuring(),
    {
        self.calibration.topology.color_match_grid_rows = rows;
        self.force_color_match_remeasure();
    }

    /// Sets the frames between measurements, and has the seam measured anew.
    pub fn set_color_match_interval_frames(&mut self, frames: u32)
        ensures
            *final(self) == old(self).with_topology(
                Topology { color_match_interval_frames: frames, ..old(self).calibration.topology },
            ).remeasuring(),
    {
        self.calibration.topology.color_match_interval_frames = frames;
        self.force_color_match_remeasure();
    }

    /// Sets how fast the correction follows, and has the seam measured anew.
    pub fn set_color_match_ema_alpha(&mut self, alpha: Scalar)
        ensures
            *final(self) == old(self).with_topology(
                Topology { color_match_ema_alpha: alpha, ..old(self).calibration.topology },
            ).remeasuring(),
    {
        self.calibration.topology.color_match_ema_alpha = alpha;
        self.force_color_match_remeasure();
    }

    /// Chooses between the set gammas and those that the matching keeps, and has
    /// the seam measured anew.
    pub fn set_color_match_auto_gamma(&mut self, enabled: bool)
        ensures
            *final(self) == old(self).with_topology(
                Topology { color_match_auto_gamma: enabled, ..old(self).calibration.topology },
            ).remeasuring(),
    {
        self.calibration.topology.color_match_auto_gamma = enabled;
        self.force_color_match_remeasure();
    }

    /// Limits the luma correction, and has the seam measured anew.
    pub fn set_color_match_max_y_offset(&mut self, offset: Scalar)
        ensures
            *final(self) == old(self).with_topology(
                Topology { color_match_max_y_offset: offset, ..old(self).calibration.topology },
            ).remeasuring(),
    {
        self.calibration.topology.color_match_max_y_offset = offset;
        self.force_color_match_remeasure();
    }

    /// Limits the chroma correction, and has the seam measured anew.
    pub fn set_color_match_max_chroma_offset(&mut self, offset: Scalar)
        ensures
            *final(self) == old(self).with_topology(
                Topology {
                    color_match_max_chroma_offset: offset,
                    ..old(self).calibration.topology
                },
            ).remeasuring(),
    {
        self.calibration.topology.color_match_max_chroma_offset = offset;
        self.force_color_match_remeasure();
    }

    /// Sets both cameras' gammas, and has the seam measured anew.
    pub fn set_color_gamma(&mut self, left: Scalar, right: Scalar)
        ensures
            *final(self) == old(self).with_topology(
                Topology {
                    color_gamma_left: left,
                    color_gamma_right: right,
                    ..old(self).calibration.topology
                },
            ).remeasuring(),
    {
        self.calibration.topology.color_gamma_left = left;
        self.calibration.topology.color_gamma_right = right;
        self.force_color_match_remeasure();
    }

    pub fn color_gamma(&self) -> (g: (Scalar, Scalar))
        ensures
            g.0 == self.calibration.topology.color_gamma_left,
            g.1 == self.calibration.topology.color_gamma_right,
    {
        (self.calibration.topology.color_gamma_left, self.calibration.topology.color_gamma_right)
    }

    pub fn color_match_auto_gamma(&self) -> (r: bool)
        ensures
            r == self.calibration.topology.color_match_auto_gamma,
    {
        self.calibration.topology.color_match_auto_gamma
    }

    pub fn camera_position(&self) -> (p: [Scalar; 3])
        ensures
            p == self.scene.camera_position,
    {
        self.scene.camera_position
    }

    /// `after` is the pipeline once its camera is asked to stand at `pos`, where
    /// it may not be too near to the corner.
    pub open spec fn camera_moved<M: SceneMath>(
        self,
        pos: [Scalar; 3],
        math: M,
        after: StitchPipeline,
    ) -> bool {
        exists|norm: Scalar|
            {
                &&& #[trigger] call_ensures(M::distance, (&math, pos), norm)
                &&& after == if (Scalar { bits: CAMERA_MIN_DISTANCE }).below(norm) {
                    StitchPipeline {
                        scene: SceneGeometry { camera_position: pos, ..self.scene },
                        ..self
                    }
                } else {
                    self
                }
            }
    }

    /// Moves the camera, unless it would stand too near to the corner.
    pub fn set_camera_position<M: SceneMath>(&mut self, pos: [Scalar; 3], math: &M)
        ensures
            old(self).camera_moved(pos, *math, *final(self)),
    {
        let norm: Scalar = math.distance(pos);
        if (Scalar { bits: CAMERA_MIN_DISTANCE }).lt(norm) {
            self.scene.camera_position = pos;
        }
    }

    /// Moves the camera relative to where it stands and looks.
    pub fn fly_camera<M: SceneMath>(
        &mut self,
        local: [Scalar; 3],
        yaw: Scalar,
        pitch: Scalar,
        math: &M,
    )
        ensures
            exists|next: [Scalar; 3]|
                {
                    &&& call_ensures(
                        M::flown,
                        (math, old(self).scene.camera_position, local, yaw, pitch),
                        next,
                    )
                    &&& #[trigger] old(self).camera_moved(next, *math, *final(self))
                },
    {
        let next: [Scalar; 3] = math.flown(self.scene.camera_position, local, yaw, pitch);
        self.set_camera_position(next, math);
    }

    /// `self` is the pipeline `before` with another calibration and the scene
    /// that follows from it, about to measure the seam anew.
    pub open spec fn recalibrated<M: SceneMath>(
        self,
        before: StitchPipeline,
        calibration: Calibration,
        math: M,
    ) -> bool {
        &&& scene_of(math, calibration, self.scene)
        &&& self == (StitchPipeline {
            calibration,
            scene: self.scene,
            ..before
        }).remeasuring()
    }

    /// Takes another calibration, lays out the scene that follows from it, and
    /// has the seam measured anew.
    pub fn update_calibration<M: SceneMath>(&mut self, calibration: Calibration, math: &M)
        requires
            calibration.lenses@.len() > 0,
        ensures
            final(self).recalibrated(*old(self), calibration, *math),
    {
        self.scene = SceneGeometry::of(&calibration, math);
        self.calibration = calibration;
        self.force_color_match_remeasure();
    }

    /// Takes another topology, keeping the lenses and the framing.
    pub fn update_topology<M: SceneMath>(&mut self, topology: Topology, math: &M)
        requires
            old(self).calibration.lenses@.len() > 0,
        ensures
            final(self).recalibrated(
                *old(self),
                Calibration { topology, ..old(self).calibration },
                *math,
            ),
    {
        self.calibration.topology = topology;
        self.scene = SceneGeometry::of(&self.calibration, math);
        self.force_color_match_remeasure();
    }

    /// Takes another framing, keeping the lenses and the topology.
    pub fn update_framing<M: SceneMath>(&mut self, framing: Framing, math: &M)
        requires
            old(self).calibration.lenses@.len() > 0,
        ensures
            final(self).recalibrated(
                *old(self),
                Calibration { framing, ..old(self).calibration },
                *math,
            ),
    {
        self.calibration.framing = framing;
        self.scene = SceneGeometry::of(&self.calibration, math);
        self.force_color_match_remeasure();
    }

    /// Takes other lenses; the scene stays as it is.
    pub fn update_camera_params(&mut self, left: Option<Lens>, right: Option<Lens>)
        requires
            left is Some ==> old(self).calibration.lenses@.len() > 0,
            right is Some ==> old(self).calibration.lenses@.len() > 1,
        ensures
            final(self).calibration.lenses@ == replaced(
                old(self).calibration.lenses@,
                left,
                right,
            ),
            *final(self) == (StitchPipeline {
                calibration: Calibration {
                    lenses: final(self).calibration.lenses,
                    ..old(self).calibration
                },
                ..*old(self)
            }),
    {
        replace_lenses(&mut self.calibration.lenses, left, right);
    }

    /// The parameters of colour matching, with the gammas in force: those that
    /// the matching keeps where they are chosen, else the set ones.
    pub open spec fn match_params(self) -> ColorMatchParams {
        let t = self.calibration.topology;
        ColorMatchParams {
            band_width: t.color_match_band_width,
            grid_cols: t.color_match_grid_cols,
            grid_rows: t.color_match_grid_rows,
            measure_interval_frames: t.color_match_interval_frames,
            ema_alpha: t.color_match_ema_alpha,
            max_y_offset: t.color_match_max_y_offset,
            max_chroma_offset: t.color_match_max_chroma_offset,
            seam_offset: t.seam_offset,
            gamma_left: if t.color_match_auto_gamma {
                self.color_match.left_gamma
            } else {
                t.color_gamma_left
            },
            gamma_right: if t.color_match_auto_gamma {
                self.color_match.right_gamma
            } else {
                t.color_gamma_right
            },
            blend_flip_direction: t.blend_flip_direction,
            auto_gamma: t.color_match_auto_gamma,
        }
    }

    pub fn color_match_params(&self) -> (p: ColorMatchParams)
        ensures
            p == self.match_params(),
    {
        let t: &Topology = &self.calibration.topology;
        let (gamma_left, gamma_right): (Scalar, Scalar) = if t.color_match_auto_gamma {
            (self.color_match.left_gamma, self.color_match.right_gamma)
        } else {
            (t.color_gamma_left, t.color_gamma_right)
        };
        ColorMatchParams {
            band_width: t.color_match_band_width,
            grid_cols: t.color_match_grid_cols,
            grid_rows: t.color_match_grid_rows,
            measure_interval_frames: t.color_match_interval_frames,
            ema_alpha: t.color_match_ema_alpha,
            max_y_offset: t.color_match_max_y_offset,
            max_chroma_offset: t.color_match_max_chroma_offset,
            seam_offset: t.seam_offset,
            gamma_left,
            gamma_right,
            blend_flip_direction: t.blend_flip_direction,
            auto_gamma: t.color_match_auto_gamma,
        }
    }

    /// `c` corrects nothing but the set gammas.
    pub open spec fn static_correction(self, c: ColorCorrection) -> bool {
        &&& c.left_offset@ == no_offset()@
        &&& c.right_offset@ == no_offset()@
        &&& c.left_gamma == self.calibration.topology.color_gamma_left
        &&& c.right_gamma == self.calibration.topology.color_gamma_right
    }

    pub fn identity_correction_with_static_gamma(&self) -> (c: ColorCorrection)
        ensures
            self.static_correction(c),
    {
        ColorCorrection::identity(
            self.calibration.topology.color_gamma_left,
            self.calibration.topology.color_gamma_right,
        )
    }

    pub fn force_color_match_remeasure(&mut self)
        ensures
            *final(self) == old(self).remeasuring(),
    {
        self.color_match.force_remeasure();
    }

    /// The offsets that the matching has come to, with the gammas in force.
    pub open spec fn spec_match_correction(self) -> ColorCorrection {
        ColorCorrection {
            left_gamma: self.match_params().gamma_left,
            right_gamma: self.match_params().gamma_right,
            ..self.color_match.spec_current()
        }
    }

    /// The correction in effect, without counting a frame or measuring.
    pub fn color_match_correction(&self) -> (c: ColorCorrection)
        ensures
            c == self.spec_match_correction(),
    {
        let params: ColorMatchParams = self.color_match_params();
        ColorCorrection {
            left_gamma: params.gamma_left,
            right_gamma: params.gamma_right,
            ..self.color_match.current()
        }
    }

    /// `c` is the correction of a picture that is only on the device.
    pub open spec fn device_corrected(self, c: ColorCorrection) -> bool {
        if self.calibration.topology.color_match_enabled {
            c == self.spec_match_correction()
        } else {
            self.static_correction(c)
        }
    }

    pub fn device_correction(&self) -> (c: ColorCorrection)
        ensures
            self.device_corrected(c),
    {
        if self.calibration.topology.color_match_enabled {
            self.color_match_correction()
        } else {
            self.identity_correction_with_static_gamma()
        }
    }

    /// The size of the pictures that come in.
    pub open spec fn input_size(self) -> (u32, u32) {
        (self.renderer.input_width, self.renderer.input_height)
    }

    /// Where colours are matched, both lenses are there, and where the next frame
    /// is to be measured, the matching's limits are in order and its grid can be
    /// counted.
    pub open spec fn can_match(self) -> bool {
        &&& self.wf()
        &&& self.calibration.topology.color_match_enabled ==> {
            &&& self.calibration.lenses@.len() >= 2
            &&& self.color_match.can_measure(self.match_params())
        }
    }

    /// `c` is the correction of two planar pictures, and `after` the pipeline
    /// once they were measured where a measurement was due. With colour matching
    /// off nothing is measured.
    pub open spec fn yuv_corrected<M: BandMath>(
        self,
        left: YuvPlanes<'_>,
        right: YuvPlanes<'_>,
        math: M,
        c: ColorCorrection,
        after: StitchPipeline,
    ) -> bool {
        if self.calibration.topology.color_match_enabled {
            &&& after == (StitchPipeline { color_match: after.color_match, ..self })
            &&& c == after.color_match.spec_current()
            &&& frame_matched(
                math,
                self.color_match,
                planar(left, self.renderer.input_width),
                planar(right, self.renderer.input_width),
                (self.calibration.lenses@[0], self.calibration.lenses@[1]),
                self.input_size(),
                self.renderer.is_full_range,
                self.match_params(),
                after.color_match,
            )
        } else {
            after == self && self.static_correction(c)
        }
    }

    /// The same of pictures with interleaved chroma.
    pub open spec fn nv12_corrected<M: BandMath>(
        self,
        left: Nv12Planes<'_>,
        right: Nv12Planes<'_>,
        math: M,
        c: ColorCorrection,
        after: StitchPipeline,
    ) -> bool {
        if self.calibration.topology.color_match_enabled {
            &&& after == (StitchPipeline { color_match: after.color_match, ..self })
            &&& c == after.color_match.spec_current()
            &&& frame_matched(
                math,
                self.color_match,
                interleaved(left, self.renderer.input_width),
                interleaved(right, self.renderer.input_width),
                (self.calibration.lenses@[0], self.calibration.lenses@[1]),
                self.input_size(),
                self.renderer.is_full_range,
                self.match_params(),
                after.color_match,
            )
        } else {
            after == self && self.static_correction(c)
        }
    }

    /// The correction of two planar pictures, which are measured on the way
    /// where a measurement is due.
    pub fn color_correction_yuv420p<M: BandMath>(
        &mut self,
        left: &YuvPlanes<'_>,
        right: &YuvPlanes<'_>,
        math: &M,
    ) -> (c: ColorCorrection)
        requires
            old(self).can_match(),
        ensures
            old(self).yuv_corrected(*left, *right, *math, c, *final(self)),
    {
        if !self.calibration.topology.color_match_enabled {
            return self.identity_correction_with_static_gamma();
        }
        let params: ColorMatchParams = self.color_match_params();
        let lenses: (Lens, Lens) = (self.calibration.lenses[0], self.calibration.lenses[1]);
        self.color_match.update_yuv420p(
            left,
            right,
            self.renderer.input_width,
            self.renderer.input_height,
            lenses,
            self.renderer.is_full_range,
            &params,
            math,
        )
    }

    /// The same of pictures with interleaved chroma.
    pub fn color_correction_nv12<M: BandMath>(
        &mut self,
        left: &Nv12Planes<'_>,
        right: &Nv12Planes<'_>,
        math: &M,
    ) -> (c: ColorCorrection)
        requires
            old(self).can_match(),
        ensures
            old(self).nv12_corrected(*left, *right, *math, c, *final(self)),
    {
        if !self.calibration.topology.color_match_enabled {
            return self.identity_correction_with_static_gamma();
        }
        let params: ColorMatchParams = self.color_match_params();
        let lenses: (Lens, Lens) = (self.calibration.lenses[0], self.calibration.lenses[1]);
        self.color_match.update_nv12(
            left,
            right,
            self.renderer.input_width,
            self.renderer.input_height,
            lenses,
            self.renderer.is_full_range,
            &params,
            math,
        )
    }

    /// The first step of measuring on the device: none where colour matching is
    /// off.
    pub fn gather_begin(&mut self) -> (begin: Option<GatherBegin>)
        requires
            old(self).band_gather matches Some(g) ==> g.wf(),
        ensures
            begin is Some <==> old(self).calibration.topology.color_match_enabled,
            begin is None ==> *final(self) == *old(self),
            *final(self) == (StitchPipeline {
                band_gather: final(self).band_gather,
                ..*old(self)
            }),
            begin matches Some(b) ==> {
                &&& b.create == old(self).band_gather is None
                &&& final(self).band_gather matches Some(g)
                &&& g.wf()
                &&& match old(self).band_gather {
                    None => b.action == TakeAction::Nothing && g.state == Readback::Idle
                        && g.left_count == 0 && g.right_count == 0 && g.uploaded_for is None,
                    Some(before) => b.action == match before.state {
                        Readback::Idle => TakeAction::Nothing,
                        Readback::Submitted => TakeAction::RequestMap,
                        Readback::Mapping => TakeAction::PollMap,
                    } && g == (BandGather {
                        state: if before.state == Readback::Submitted {
                            Readback::Mapping
                        } else {
                            before.state
                        },
                        ..before
                    }),
                }
            },
    {
        if !self.calibration.topology.color_match_enabled {
            return None;
        }
        let create: bool = self.band_gather.is_none();
        if create {
            self.band_gather = Some(BandGather::new());
        }
        let action: TakeAction = match &mut self.band_gather {
            Some(g) => g.begin_take(),
            None => TakeAction::Nothing,
        };
        Some(GatherBegin { create, action })
    }

    /// The colour matching's state goes to `after` by the samples of a gather; a
    /// camera without samples leaves it as it is.
    pub open spec fn samples_applied<M: BandMath>(
        self,
        samples: GatheredSamples,
        math: M,
        after: ColorMatchState,
    ) -> bool {
        let params = self.match_params();
        let full_range = self.renderer.is_full_range;
        exists|l: Option<[Scalar; 3]>, r: Option<[Scalar; 3]>|
            {
                &&& #[trigger] normalized_averaged(
                    math,
                    samples.left,
                    full_range,
                    params.gamma_left,
                    l,
                )
                &&& #[trigger] normalized_averaged(
                    math,
                    samples.right,
                    full_range,
                    params.gamma_right,
                    r,
                )
                &&& applied(math, self.color_match, l, r, params, after)
            }
    }

    /// Applies the samples of a gather.
    pub fn gather_apply<M: BandMath>(&mut self, samples: GatheredSamples, math: &M)
        requires
            samples.left@.len() > 0 && samples.right@.len() > 0
                ==> old(self).match_params().bounded(),
        ensures
            *final(self) == (StitchPipeline {
                color_match: final(self).color_match,
                ..*old(self)
            }),
            old(self).samples_applied(samples, *math, final(self).color_match),
    {
        let params: ColorMatchParams = self.color_match_params();
        let full_range: bool = self.renderer.is_full_range;
        let GatheredSamples { left, right } = samples;
        let l: Option<[Scalar; 3]> = mean_of_normalized_samples(
            &left,
            full_range,
            params.gamma_left,
            math,
        );
        let r: Option<[Scalar; 3]> = mean_of_normalized_samples(
            &right,
            full_range,
            params.gamma_right,
            math,
        );
        match (l, r) {
            (Some(left_mean), Some(right_mean)) => {
                self.color_match.apply_measurement(left_mean, right_mean, &params, math);
            },
            _ => {},
        }
    }

    /// Takes what came of polling the readback that is under way, and applies
    /// the samples where there are any.
    pub fn gather_finish<M: BandMath>(&mut self, poll: MapPoll<'_>, math: &M)
        requires
            old(self).wf(),
            poll is Ready ==> old(self).match_params().bounded(),
            old(self).band_gather matches Some(g) && g.state == Readback::Mapping,
            poll matches MapPoll::Ready(data) ==> data@.len() == crate::band_gather::SAMPLES_BYTES,
        ensures
            final(self).wf(),
            *final(self) == (StitchPipeline {
                band_gather: Some(
                    BandGather {
                        state: if poll is NotYet {
                            Readback::Mapping
                        } else {
                            Readback::Idle
                        },
                        ..old(self).band_gather->0
                    },
                ),
                color_match: final(self).color_match,
                ..*old(self)
            }),
            !(poll is Ready) ==> final(self).color_match == old(self).color_match,
            poll matches MapPoll::Ready(data) ==> exists|s: GatheredSamples|
                {
                    &&& #[trigger] gathered_from(old(self).band_gather->0, data@, s)
                    &&& old(self).samples_applied(s, *math, final(self).color_match)
                },
    {
        let samples: Option<GatheredSamples> = match &mut self.band_gather {
            Some(g) => g.finish_take(poll),
            None => None,
        };
        match samples {
            Some(s) => {
                self.gather_apply(s, math);
            },
            None => {},
        }
    }

    /// The key of the positions that are to be measured now.
    pub open spec fn spec_position_key(self) -> PositionKey {
        let p = self.match_params();
        PositionKey {
            band_width: p.band_width,
            grid_cols: p.grid_cols,
            grid_rows: p.grid_rows,
            seam_offset: p.seam_offset,
            blend_flip_direction: p.blend_flip_direction,
            input_width: self.renderer.input_width,
            input_height: self.renderer.input_height,
            flip_180: self.renderer.flip_180,
        }
    }

    /// The colour matching's state at the next frame of a gather.
    pub open spec fn gather_counted(self) -> ColorMatchState {
        (ColorMatchState {
            interval: self.match_params().measure_interval_frames,
            ..self.color_match
        }).ticked()
    }

    /// Counts a frame, and says whether to start a gather: a measurement is due
    /// and no readback is under way. One that is due stays due meanwhile.
    pub fn gather_next(&mut self) -> (next: GatherNext)
        requires
            old(self).band_gather is Some,
        ensures
            *final(self) == (StitchPipeline {
                color_match: old(self).gather_counted(),
                ..*old(self)
            }),
            old(self).band_gather matches Some(g) ==> ({
                let due = (ColorMatchState {
                    interval: old(self).match_params().measure_interval_frames,
                    ..old(self).color_match
                }).due_next();
                match next {
                    GatherNext::Skip => !due || g.state != Readback::Idle,
                    GatherNext::Dispatch { key, upload } => {
                        &&& due
                        &&& g.state == Readback::Idle
                        &&& key == old(self).spec_position_key()
                        &&& upload == !(g.uploaded_for matches Some(k) && k.matches_key(key))
                    },
                }
            }),
    {
        let params: ColorMatchParams = self.color_match_params();
        self.color_match.set_interval(params.measure_interval_frames);
        let due: bool = self.color_match.measurement_due();
        match &self.band_gather {
            Some(g) => {
                if !due || !g.is_idle() {
                    return GatherNext::Skip;
                }
                let key = PositionKey {
                    band_width: params.band_width,
                    grid_cols: params.grid_cols,
                    grid_rows: params.grid_rows,
                    seam_offset: params.seam_offset,
                    blend_flip_direction: params.blend_flip_direction,
                    input_width: self.renderer.input_width,
                    input_height: self.renderer.input_height,
                    flip_180: self.renderer.flip_180,
                };
                GatherNext::Dispatch { key, upload: !g.positions_current(&key) }
            },
            None => GatherNext::Skip,
        }
    }

    /// One camera's picture is turned by 180 degrees.
    pub open spec fn turned(self, is_right: bool) -> bool {
        if is_right {
            self.renderer.flip_180.1
        } else {
            self.renderer.flip_180.0
        }
    }

    pub open spec fn gathered_lens(self, is_right: bool) -> Lens {
        if is_right {
            self.calibration.lenses@[1]
        } else {
            self.calibration.lenses@[0]
        }
    }

    /// `positions` are those of one camera that the device is to read: turned
    /// where its picture is turned.
    pub open spec fn to_gather<M: BandMath>(
        self,
        is_right: bool,
        math: M,
        positions: Seq<[u32; 2]>,
    ) -> bool {
        let size = self.input_size();
        exists|points: Seq<SourcePoint>|
            {
                &&& #[trigger] grid_projected(
                    math,
                    self.gathered_lens(is_right),
                    size,
                    is_right,
                    self.match_params(),
                    points,
                )
                &&& pixels_of(positions) == if self.turned(is_right) {
                    turned_pixels(kept_pixels(points, size.0, size.1), size)
                } else {
                    kept_pixels(points, size.0, size.1)
                }
            }
    }

    fn gather_positions<M: BandMath>(&self, is_right: bool, math: &M) -> (positions: Vec<[u32; 2]>)
        requires
            self.wf(),
            self.calibration.lenses@.len() >= 2,
            self.match_params().grid_fits(),
        ensures
            self.to_gather(is_right, *math, positions@),
    {
        let params: ColorMatchParams = self.color_match_params();
        let lens: Lens = if is_right {
            self.calibration.lenses[1]
        } else {
            self.calibration.lenses[0]
        };
        let (w, h): (u32, u32) = (self.renderer.input_width, self.renderer.input_height);
        let positions: Vec<[u32; 2]> = band_sample_positions(w, h, lens, is_right, &params, math);
        let ghost points = choose|points: Seq<SourcePoint>|
            {
                &&& #[trigger] grid_projected(*math, lens, (w, h), is_right, params, points)
                &&& pixels_of(positions@) == kept_pixels(points, w, h)
            };
        assert(grid_projected(
            *math,
            self.gathered_lens(is_right),
            self.input_size(),
            is_right,
            self.match_params(),
            points,
        ));
        let turned: bool = if is_right {
            self.renderer.flip_180.1
        } else {
            self.renderer.flip_180.0
        };
        if !turned {
            return positions;
        }
        let out: Vec<[u32; 2]> = mirrored_180(positions.as_slice(), w, h);
        assert(pixels_of(out@) =~= turned_pixels(pixels_of(positions@), (w, h))) by {
            assert forall|i: int| 0 <= i < out@.len() implies #[trigger] pixels_of(out@)[i]
                == turned_pixels(pixels_of(positions@), (w, h))[i] by {
            }
        }
        out
    }

    /// Finds the positions that are to be measured now, notes the key that they
    /// belong to, and says what to write to the device.
    pub fn gather_upload<M: BandMath>(&mut self, key: PositionKey, math: &M) -> (upload:
        PositionUpload)
        requires
            old(self).wf(),
            old(self).band_gather is Some,
            old(self).calibration.lenses@.len() >= 2,
            old(self).match_params().grid_fits(),
        ensures
            final(self).wf(),
            *final(self) == (StitchPipeline {
                band_gather: final(self).band_gather,
                ..*old(self)
            }),
            exists|left: Seq<[u32; 2]>, right: Seq<[u32; 2]>|
                {
                    &&& #[trigger] old(self).to_gather(false, *math, left)
                    &&& #[trigger] old(self).to_gather(true, *math, right)
                    &&& final(self).band_gather == Some(
                        BandGather {
                            left_count: kept(left).len() as u32,
                            right_count: kept(right).len() as u32,
                            uploaded_for: Some(key),
                            ..old(self).band_gather->0
                        },
                    )
                    &&& encodes(position_words(kept(left)), upload.left_coords@)
                    &&& encodes(position_words(kept(right)), upload.right_coords@)
                    &&& encodes(
                        seq![0u32, kept(left).len() as u32, 0u32, 0u32],
                        upload.left_params@,
                    )
                    &&& encodes(
                        seq![MAX_SAMPLES_PER_CAMERA, kept(right).len() as u32, 0u32, 0u32],
                        upload.right_params@,
                    )
                },
    {
        let left: Vec<[u32; 2]> = self.gather_positions(false, math);
        let right: Vec<[u32; 2]> = self.gather_positions(true, math);
        match &mut self.band_gather {
            Some(g) => g.set_positions(left.as_slice(), right.as_slice(), key),
            None => {
                let mut unused: BandGather = BandGather::new();
                unused.set_positions(left.as_slice(), right.as_slice(), key)
            },
        }
    }

    /// Starts a gather and counts the measurement as issued. A camera without
    /// positions has nothing to gather.
    pub fn gather_dispatch(&mut self) -> (plan: Option<GatherDispatch>)
        requires
            old(self).band_gather matches Some(g) && g.wf(),
        ensures
            *final(self) == (StitchPipeline {
                band_gather: final(self).band_gather,
                color_match: ColorMatchState {
                    frames_since_measure: 0,
                    ..old(self).color_match
                },
                ..*old(self)
            }),
            old(self).band_gather matches Some(g) ==> {
                &&& plan is None <==> g.left_count == 0 || g.right_count == 0
                &&& final(self).band_gather == Some(
                    BandGather {
                        state: if plan is None {
                            g.state
                        } else {
                            Readback::Submitted
                        },
                        ..g
                    },
                )
                &&& plan matches Some(p) ==> p.left_groups == (g.left_count + 63) / 64
                    && p.right_groups == (g.right_count + 63) / 64
            },
    {
        let plan: Option<GatherDispatch> = match &mut self.band_gather {
            Some(g) => g.dispatch(),
            None => None,
        };
        self.color_match.measurement_issued();
        plan
    }

    pub fn set_flip_180(&mut self, left: bool, right: bool)
        ensures
            *final(self) == (StitchPipeline {
                renderer: Renderer { flip_180: (left, right), ..old(self).renderer },
                ..*old(self)
            }),
    {
        self.renderer.set_flip_180(left, right);
    }

    pub fn set_full_range(&mut self, full_range: bool)
        ensures
            *final(self) == (StitchPipeline {
                renderer: Renderer { is_full_range: full_range, ..old(self).renderer },
                ..*old(self)
            }),
    {
        self.renderer.set_full_range(full_range);
    }

    /// `p` is one plane as it goes into a stitch that looks at the scene as `view`
    /// does. The left plane is tilted by the z terms of the topology, the right
    /// one by the x terms.
    pub open spec fn plane_from<M: StitchMath>(
        self,
        plane: CameraId,
        view: SceneView,
        math: M,
        p: PlaneInputs,
    ) -> bool {
        let t = self.calibration.topology;
        let (lens, ground, top) = match plane {
            CameraId::Left => (self.calibration.lenses@[0], t.ground_tilt_z, t.top_tilt_z),
            CameraId::Right => (self.calibration.lenses@[1], t.ground_tilt_x, t.top_tilt_x),
        };
        &&& call_ensures(M::transform, (&math, &self.scene, plane, view), p.mvp)
        &&& normalized_lens(math, lens, p.lens)
        &&& narrowed(math, ground, p.ground.tilt)
        &&& call_ensures(M::tilt_constant, (&math, &lens), p.ground.k)
        &&& narrowed(math, t.ground_tilt_band_width, p.ground.band_full)
        &&& narrowed(math, top, p.top.tilt)
        &&& p.top.k == p.ground.k
        &&& narrowed(math, t.top_tilt_band_width, p.top.band_full)
        &&& p.correction == lens.correction
    }

    fn plane<M: StitchMath>(&self, plane: CameraId, view: SceneView, math: &M) -> (p: PlaneInputs)
        requires
            self.calibration.lenses@.len() >= 2,
        ensures
            self.plane_from(plane, view, *math, p),
    {
        let t: &Topology = &self.calibration.topology;
        let (lens, ground, top): (Lens, Wide, Wide) = match plane {
            CameraId::Left => (self.calibration.lenses[0], t.ground_tilt_z, t.top_tilt_z),
            CameraId::Right => (self.calibration.lenses[1], t.ground_tilt_x, t.top_tilt_x),
        };
        let k: Scalar = math.tilt_constant(&lens);
        PlaneInputs {
            mvp: math.transform(&self.scene, plane, view),
            lens: LensUniforms::of(&lens, math),
            ground: GroundTilt {
                tilt: math.narrow(ground),
                k,
                band_full: math.narrow(t.ground_tilt_band_width),
            },
            top: TopTilt {
                tilt: math.narrow(top),
                k,
                band_full: math.narrow(t.top_tilt_band_width),
            },
            correction: lens.correction,
        }
    }

    /// `view` is how a stitch looks at the scene.
    pub open spec fn looks<M: SceneMath>(
        self,
        to: RenderTo,
        pose: (Scalar, Scalar),
        math: M,
        view: SceneView,
    ) -> bool {
        let size = self.spec_drawn_size(to);
        &&& view.yaw == pose.0
        &&& view.pitch == pose.1
        &&& narrowed(math, self.calibration.framing.tilt, view.tilt)
        &&& narrowed(math, self.calibration.framing.roll, view.roll)
        &&& view.fov_degrees == self.viewport.fov_degrees
        &&& call_ensures(M::ratio, (&math, size.0, size.1), view.aspect)
    }

    /// `i` are one stitch's inputs: its planes as they are seen from a yaw and a
    /// pitch, how its colours are corrected, and what the settings say.
    pub open spec fn stitched_from<M: StitchMath>(
        self,
        to: RenderTo,
        pose: (Scalar, Scalar),
        color: ColorCorrection,
        math: M,
        i: StitchInputs,
    ) -> bool {
        let t = self.calibration.topology;
        exists|view: SceneView|
            {
                &&& #[trigger] self.looks(to, pose, math, view)
                &&& self.plane_from(CameraId::Left, view, math, i.left)
                &&& self.plane_from(CameraId::Right, view, math, i.right)
                &&& raised_to(math, color.left_gamma, i.exponents.0)
                &&& raised_to(math, color.right_gamma, i.exponents.1)
                &&& i == (StitchInputs {
                    left: i.left,
                    right: i.right,
                    blend_width: t.blend_width,
                    color,
                    exponents: i.exponents,
                    show_seam_line: self.show_seam_line,
                    flip: t.blend_flip_direction,
                    seam_offset: t.seam_offset,
                    format: self.renderer.input_format,
                    flip_180: self.renderer.flip_180,
                    full_range: self.renderer.is_full_range,
                })
            }
    }

    pub fn stitch_inputs<M: StitchMath>(
        &self,
        to: RenderTo,
        pose: (Scalar, Scalar),
        color: ColorCorrection,
        math: &M,
    ) -> (i: StitchInputs)
        requires
            self.calibration.lenses@.len() >= 2,
        ensures
            self.stitched_from(to, pose, color, *math, i),
    {
        let t: &Topology = &self.calibration.topology;
        let size: (u32, u32) = self.drawn_size(to);
        let view = SceneView {
            yaw: pose.0,
            pitch: pose.1,
            tilt: math.narrow(self.calibration.framing.tilt),
            roll: math.narrow(self.calibration.framing.roll),
            fov_degrees: self.viewport.fov_degrees,
            aspect: math.ratio(size.0, size.1),
        };
        assert(self.looks(to, pose, *math, view));
        StitchInputs {
            left: self.plane(CameraId::Left, view, math),
            right: self.plane(CameraId::Right, view, math),
            blend_width: t.blend_width,
            color,
            exponents: (inv_gamma(color.left_gamma, math), inv_gamma(color.right_gamma, math)),
            show_seam_line: self.show_seam_line,
            flip: t.blend_flip_direction,
            seam_offset: t.seam_offset,
            format: self.renderer.input_format,
            flip_180: self.renderer.flip_180,
            full_range: self.renderer.is_full_range,
        }
    }

    /// The size of what a stitch is drawn to. The target keeps the size that it
    /// was made with.
    pub open spec fn spec_drawn_size(self, to: RenderTo) -> (u32, u32) {
        match to {
            RenderTo::Target => (self.renderer.output_width, self.renderer.output_height),
            RenderTo::View => (self.viewport.width, self.viewport.height),
        }
    }

    pub fn drawn_size(&self, to: RenderTo) -> (size: (u32, u32))
        ensures
            size == self.spec_drawn_size(to),
    {
        match to {
            RenderTo::Target => (self.renderer.output_width, self.renderer.output_height),
            RenderTo::View => (self.viewport.width, self.viewport.height),
        }
    }

    /// `blur` is the blur of a multiband stitch of this size: as wide as the
    /// blend, or as the band of the colour matching, held between its limits.
    pub open spec fn blurred_by<M: StitchMath>(
        self,
        size: (u32, u32),
        math: M,
        blur: Blur,
    ) -> bool {
        let t = self.calibration.topology;
        let driver = driven_width(
            t.color_match_enabled,
            t.blend_width,
            t.color_match_band_width,
        );
        &&& texel_of(math, size.0, blur.texel_size[0])
        &&& texel_of(math, size.1, blur.texel_size[1])
        &&& exists|wanted: Scalar|
            {
                &&& #[trigger] spread_by(math, driver, size.0, wanted)
                &&& blur.sigma == wanted.spec_clamp(
                    Scalar { bits: SIGMA_MIN },
                    Scalar { bits: SIGMA_MAX },
                )
            }
    }

    fn blur<M: StitchMath>(&self, size: (u32, u32), math: &M) -> (blur: Blur)
        ensures
            self.blurred_by(size, *math, blur),
    {
        let t: &Topology = &self.calibration.topology;
        let driver: Scalar = blur_width_driver(
            t.color_match_enabled,
            t.blend_width,
            t.color_match_band_width,
        );
        let wanted: Scalar = spread(driver, size.0, math);
        Blur {
            texel_size: [texel(size.0, math), texel(size.1, math)],
            sigma: blur_sigma(wanted),
        }
    }

    /// `plan` is the stitch that the calibration asks for, and `after` the
    /// pipeline once it is planned: the multiband textures follow the size of
    /// what is drawn to.
    pub open spec fn planned<M: StitchMath>(
        self,
        to: RenderTo,
        pose: (Scalar, Scalar),
        color: ColorCorrection,
        math: M,
        plan: RenderPlan,
        after: StitchPipeline,
    ) -> bool {
        let size = self.spec_drawn_size(to);
        exists|i: StitchInputs|
            {
                &&& #[trigger] self.stitched_from(to, pose, color, math, i)
                &&& match plan {
                    RenderPlan::Plain(p) => {
                        &&& !self.calibration.topology.multiband_blend_enabled
                        &&& is_plain_plan(i, p)
                        &&& after == self
                    },
                    RenderPlan::Multiband { plan: p, blur, recreate } => {
                        &&& self.calibration.topology.multiband_blend_enabled
                        &&& is_multiband_plan(i, p)
                        &&& self.blurred_by(size, math, blur)
                        &&& recreate == (self.renderer.multiband_size != size)
                        &&& after == (StitchPipeline {
                            renderer: Renderer { multiband_size: size, ..self.renderer },
                            ..self
                        })
                    },
                }
            }
    }

    /// The stitch that the calibration asks for.
    pub fn plan_render<M: StitchMath>(
        &mut self,
        to: RenderTo,
        pose: (Scalar, Scalar),
        color: ColorCorrection,
        math: &M,
    ) -> (plan: RenderPlan)
        requires
            old(self).calibration.lenses@.len() >= 2,
        ensures
            old(self).planned(to, pose, color, *math, plan, *final(self)),
    {
        let inputs: StitchInputs = self.stitch_inputs(to, pose, color, math);
        if self.calibration.topology.multiband_blend_enabled {
            let size: (u32, u32) = self.drawn_size(to);
            let recreate: bool = self.renderer.ensure_size(size.0, size.1);
            let blur: Blur = self.blur(size, math);
            RenderPlan::Multiband { plan: plan_multiband(&inputs), blur, recreate }
        } else {
            RenderPlan::Plain(plan_stitch(&inputs))
        }
    }

    pub open spec fn steps_over(self, to: RenderTo) -> Seq<CompositeStep> {
        match to {
            RenderTo::Target => self.steps_over_target(),
            RenderTo::View => self.steps_over_view(),
        }
    }

    /// `r` is the frame of two pictures whose sizes are right, or the error of
    /// the first whose size is not: `faults` are what is wrong with the left and
    /// with the right one. `after` is the pipeline once the frame is planned.
    pub open spec fn framed<M: StitchMath>(
        self,
        to: RenderTo,
        faults: (Option<RenderError>, Option<RenderError>),
        writes: PlaneWrites,
        pose: (Scalar, Scalar),
        color: ColorCorrection,
        math: M,
        r: Result<FramePlan, PipelineError>,
        after: StitchPipeline,
    ) -> bool {
        match faults {
            (Some(e), _) => r == Err::<FramePlan, PipelineError>(PipelineError::Render(e))
                && after == self,
            (None, Some(e)) => r == Err::<FramePlan, PipelineError>(PipelineError::Render(e))
                && after == self,
            (None, None) => {
                &&& r matches Ok(f)
                &&& f.writes == writes
                &&& self.planned(to, pose, color, math, f.stitch, after)
                &&& f.steps@ == self.steps_over(to)
            },
        }
    }

    fn frame<M: StitchMath>(
        &mut self,
        to: RenderTo,
        writes: PlaneWrites,
        pose: (Scalar, Scalar),
        color: ColorCorrection,
        math: &M,
    ) -> (f: FramePlan)
        requires
            old(self).calibration.lenses@.len() >= 2,
        ensures
            f.writes == writes,
            old(self).planned(to, pose, color, *math, f.stitch, *final(self)),
            f.steps@ == old(self).steps_over(to),
    {
        let steps: Vec<CompositeStep> = match to {
            RenderTo::Target => self.target_steps(),
            RenderTo::View => self.view_steps(),
        };
        let stitch: RenderPlan = self.plan_render(to, pose, color, math);
        FramePlan { writes, stitch, steps }
    }

    /// The pictures' pixels can be counted.
    pub open spec fn can_render(self) -> bool {
        &&& self.can_match()
        &&& self.calibration.lenses@.len() >= 2
        &&& self.renderer.input_width * self.renderer.input_height <= u32::MAX
    }

    /// What writing planar pictures of the right size comes to.
    pub open spec fn yuv_writes(self) -> PlaneWrites {
        let (w, h) = self.input_size();
        PlaneWrites::Yuv420p {
            luma: PlaneWrite { width: w, height: h, bytes_per_row: w },
            chroma: PlaneWrite { width: w / 2, height: h / 2, bytes_per_row: w / 2 },
        }
    }

    pub open spec fn nv12_writes(self) -> PlaneWrites {
        let (w, h) = self.input_size();
        PlaneWrites::Nv12 {
            luma: PlaneWrite { width: w, height: h, bytes_per_row: w },
            chroma: PlaneWrite {
                width: w / 2,
                height: h / 2,
                bytes_per_row: (w / 2 * 2) as u32,
            },
        }
    }

    fn frame_yuv<M: BandMath + StitchMath>(
        &mut self,
        to: RenderTo,
        left: &YuvPlanes<'_>,
        right: &YuvPlanes<'_>,
        pose: (Scalar, Scalar),
        math: &M,
    ) -> (r: Result<FramePlan, PipelineError>)
        requires
            old(self).can_render(),
        ensures
            exists|color: ColorCorrection, corrected: StitchPipeline|
                {
                    &&& #[trigger] old(self).yuv_corrected(*left, *right, *math, color, corrected)
                    &&& corrected.framed(
                        to,
                        (
                            yuv_mismatch(old(self).input_size(), *left),
                            yuv_mismatch(old(self).input_size(), *right),
                        ),
                        old(self).yuv_writes(),
                        pose,
                        color,
                        *math,
                        r,
                        *final(self),
                    )
                },
    {
        let color: ColorCorrection = self.color_correction_yuv420p(left, right, math);
        let (w, h): (u32, u32) = (self.renderer.input_width, self.renderer.input_height);
        match upload_yuv(w, h, left) {
            Ok(_) => {},
            Err(e) => {
                return Err(PipelineError::Render(e));
            },
        }
        let (luma, chroma): (PlaneWrite, PlaneWrite) = match upload_yuv(w, h, right) {
            Ok(writes) => writes,
            Err(e) => {
                return Err(PipelineError::Render(e));
            },
        };
        Ok(self.frame(to, PlaneWrites::Yuv420p { luma, chroma }, pose, color, math))
    }

    fn frame_nv12<M: BandMath + StitchMath>(
        &mut self,
        to: RenderTo,
        left: &Nv12Planes<'_>,
        right: &Nv12Planes<'_>,
        pose: (Scalar, Scalar),
        math: &M,
    ) -> (r: Result<FramePlan, PipelineError>)
        requires
            old(self).can_render(),
            old(self).renderer.input_format == InputFormat::Nv12,
        ensures
            exists|color: ColorCorrection, corrected: StitchPipeline|
                {
                    &&& #[trigger] old(self).nv12_corrected(*left, *right, *math, color, corrected)
                    &&& corrected.framed(
                        to,
                        (
                            nv12_mismatch(old(self).input_size(), *left),
                            nv12_mismatch(old(self).input_size(), *right),
                        ),
                        old(self).nv12_writes(),
                        pose,
                        color,
                        *math,
                        r,
                        *final(self),
                    )
                },
    {
        let color: ColorCorrection = self.color_correction_nv12(left, right, math);
        let (w, h): (u32, u32) = (self.renderer.input_width, self.renderer.input_height);
        match upload_nv12(w, h, left) {
            Ok(_) => {},
            Err(e) => {
                return Err(PipelineError::Render(e));
            },
        }
        let (luma, chroma): (PlaneWrite, PlaneWrite) = match upload_nv12(w, h, right) {
            Ok(writes) => writes,
            Err(e) => {
                return Err(PipelineError::Render(e));
            },
        };
        Ok(self.frame(to, PlaneWrites::Nv12 { luma, chroma }, pose, color, math))
    }

    /// One frame of planar pictures, drawn to the target. The pictures are
    /// measured before their sizes are looked at.
    pub fn render_to_target<M: BandMath + StitchMath>(
        &mut self,
        left: &YuvPlanes<'_>,
        right: &YuvPlanes<'_>,
        yaw: Scalar,
        pitch: Scalar,
        math: &M,
    ) -> (r: Result<FramePlan, PipelineError>)
        requires
            old(self).can_render(),
        ensures
            exists|color: ColorCorrection, corrected: StitchPipeline|
                {
                    &&& #[trigger] old(self).yuv_corrected(*left, *right, *math, color, corrected)
                    &&& corrected.framed(
                        RenderTo::Target,
                        (
                            yuv_mismatch(old(self).input_size(), *left),
                            yuv_mismatch(old(self).input_size(), *right),
                        ),
                        old(self).yuv_writes(),
                        (yaw, pitch),
                        color,
                        *math,
                        r,
                        *final(self),
                    )
                },
    {
        self.frame_yuv(RenderTo::Target, left, right, (yaw, pitch), math)
    }

    /// One frame of planar pictures, drawn to a view.
    pub fn render_to_view<M: BandMath + StitchMath>(
        &mut self,
        left: &YuvPlanes<'_>,
        right: &YuvPlanes<'_>,
        yaw: Scalar,
        pitch: Scalar,
        math: &M,
    ) -> (r: Result<FramePlan, PipelineError>)
        requires
            old(self).can_render(),
        ensures
            exists|color: ColorCorrection, corrected: StitchPipeline|
                {
                    &&& #[trigger] old(self).yuv_corrected(*left, *right, *math, color, corrected)
                    &&& corrected.framed(
                        RenderTo::View,
                        (
                            yuv_mismatch(old(self).input_size(), *left),
                            yuv_mismatch(old(self).input_size(), *right),
                        ),
                        old(self).yuv_writes(),
                        (yaw, pitch),
                        color,
                        *math,
                        r,
                        *final(self),
                    )
                },
    {
        self.frame_yuv(RenderTo::View, left, right, (yaw, pitch), math)
    }

    /// One frame of pictures with interleaved chroma, drawn to the target.
    pub fn render_to_target_nv12<M: BandMath + StitchMath>(
        &mut self,
        left: &Nv12Planes<'_>,
        right: &Nv12Planes<'_>,
        yaw: Scalar,
        pitch: Scalar,
        math: &M,
    ) -> (r: Result<FramePlan, PipelineError>)
        requires
            old(self).can_render(),
            old(self).renderer.input_format == InputFormat::Nv12,
        ensures
            exists|color: ColorCorrection, corrected: StitchPipeline|
                {
                    &&& #[trigger] old(self).nv12_corrected(*left, *right, *math, color, corrected)
                    &&& corrected.framed(
                        RenderTo::Target,
                        (
                            nv12_mismatch(old(self).input_size(), *left),
                            nv12_mismatch(old(self).input_size(), *right),
                        ),
                        old(self).nv12_writes(),
                        (yaw, pitch),
                        color,
                        *math,
                        r,
                        *final(self),
                    )
                },
    {
        self.frame_nv12(RenderTo::Target, left, right, (yaw, pitch), math)
    }

    /// One frame of pictures with interleaved chroma, drawn to a view.
    pub fn render_nv12_to_view<M: BandMath + StitchMath>(
        &mut self,
        left: &Nv12Planes<'_>,
        right: &Nv12Planes<'_>,
        yaw: Scalar,
        pitch: Scalar,
        math: &M,
    ) -> (r: Result<FramePlan, PipelineError>)
        requires
            old(self).can_render(),
            old(self).renderer.input_format == InputFormat::Nv12,
        ensures
            exists|color: ColorCorrection, corrected: StitchPipeline|
                {
                    &&& #[trigger] old(self).nv12_corrected(*left, *right, *math, color, corrected)
                    &&& corrected.framed(
                        RenderTo::View,
                        (
                            nv12_mismatch(old(self).input_size(), *left),
                            nv12_mismatch(old(self).input_size(), *right),
                        ),
                        old(self).nv12_writes(),
                        (yaw, pitch),
                        color,
                        *math,
                        r,
                        *final(self),
                    )
                },
    {
        self.frame_nv12(RenderTo::View, left, right, (yaw, pitch), math)
    }

    /// One frame of pictures of four bytes to the pixel, drawn to the target.
    /// Their colours are not matched.
    pub fn render_to_target_bgra<M: StitchMath>(
        &mut self,
        left: &BgraPlanes<'_>,
        right: &BgraPlanes<'_>,
        yaw: Scalar,
        pitch: Scalar,
        math: &M,
    ) -> (r: Result<FramePlan, PipelineError>)
        requires
            old(self).calibration.lenses@.len() >= 2,
            old(self).renderer.input_format == InputFormat::Bgra,
            old(self).renderer.input_width * old(self).renderer.input_height * 4 <= u32::MAX,
            old(self).renderer.input_width * 4 <= u32::MAX,
        ensures
            exists|color: ColorCorrection|
                {
                    &&& #[trigger] old(self).static_correction(color)
                    &&& old(self).framed(
                        RenderTo::Target,
                        (
                            bgra_mismatch(old(self).input_size(), *left),
                            bgra_mismatch(old(self).input_size(), *right),
                        ),
                        PlaneWrites::Bgra {
                            rgba: PlaneWrite {
                                width: old(self).renderer.input_width,
                                height: old(self).renderer.input_height,
                                bytes_per_row: (old(self).renderer.input_width * 4) as u32,
                            },
                        },
                        (yaw, pitch),
                        color,
                        *math,
                        r,
                        *final(self),
                    )
                },
    {
        let color: ColorCorrection = self.identity_correction_with_static_gamma();
        let (w, h): (u32, u32) = (self.renderer.input_width, self.renderer.input_height);
        match upload_bgra(w, h, left) {
            Ok(_) => {},
            Err(e) => {
                return Err(PipelineError::Render(e));
            },
        }
        let rgba: PlaneWrite = match upload_bgra(w, h, right) {
            Ok(write) => write,
            Err(e) => {
                return Err(PipelineError::Render(e));
            },
        };
        Ok(self.frame(RenderTo::Target, PlaneWrites::Bgra { rgba }, (yaw, pitch), color, math))
    }

    /// One frame of pictures that are on the device already, drawn to the
    /// target with the correction that is in force.
    pub fn render_to_target_gpu<M: StitchMath>(
        &mut self,
        yaw: Scalar,
        pitch: Scalar,
        math: &M,
    ) -> (f: FramePlan)
        requires
            old(self).calibration.lenses@.len() >= 2,
        ensures
            f.writes == PlaneWrites::Nothing,
            f.steps@ == old(self).steps_over_target(),
            exists|color: ColorCorrection|
                {
                    &&& #[trigger] old(self).device_corrected(color)
                    &&& old(self).planned(
                        RenderTo::Target,
                        (yaw, pitch),
                        color,
                        *math,
                        f.stitch,
                        *final(self),
                    )
                },
    {
        let color: ColorCorrection = self.device_correction();
        self.frame(RenderTo::Target, PlaneWrites::Nothing, (yaw, pitch), color, math)
    }

    /// One frame as it was decoded, drawn to the target. A frame that never left
    /// the device is refused here.
    pub fn render_stereo_frame<M: BandMath + StitchMath>(
        &mut self,
        frame: &StereoFrame,
        yaw: Scalar,
        pitch: Scalar,
        math: &M,
    ) -> (r: Result<FramePlan, PipelineError>)
        requires
            old(self).can_render(),
            frame is Nv12 ==> old(self).renderer.input_format == InputFormat::Nv12,
        ensures
            frame is GpuResident ==> {
                &&& *final(self) == *old(self)
                &&& r matches Err(PipelineError::UnsupportedFrameVariant { reason })
                &&& reason@ == "GpuResident frames must use render_gpu_frame()"@
            },
            frame matches StereoFrame::Yuv420p(pair) ==> exists|
                left: YuvPlanes<'_>,
                right: YuvPlanes<'_>,
                color: ColorCorrection,
                corrected: StitchPipeline,
            |
                {
                    &&& left.y@ == pair.left.y@ && left.u@ == pair.left.u@ && left.v@
                        == pair.left.v@
                    &&& right.y@ == pair.right.y@ && right.u@ == pair.right.u@ && right.v@
                        == pair.right.v@
                    &&& #[trigger] old(self).yuv_corrected(left, right, *math, color, corrected)
                    &&& corrected.framed(
                        RenderTo::Target,
                        (
                            yuv_mismatch(old(self).input_size(), left),
                            yuv_mismatch(old(self).input_size(), right),
                        ),
                        old(self).yuv_writes(),
                        (yaw, pitch),
                        color,
                        *math,
                        r,
                        *final(self),
                    )
                },
            frame matches StereoFrame::Nv12(pair) ==> exists|
                left: Nv12Planes<'_>,
                right: Nv12Planes<'_>,
                color: ColorCorrection,
                corrected: StitchPipeline,
            |
                {
                    &&& left.y@ == pair.left.y@ && left.uv@ == pair.left.uv@
                    &&& right.y@ == pair.right.y@ && right.uv@ == pair.right.uv@
                    &&& #[trigger] old(self).nv12_corrected(left, right, *math, color, corrected)
                    &&& corrected.framed(
                        RenderTo::Target,
                        (
                            nv12_mismatch(old(self).input_size(), left),
                            nv12_mismatch(old(self).input_size(), right),
                        ),
                        old(self).nv12_writes(),
                        (yaw, pitch),
                        color,
                        *math,
                        r,
                        *final(self),
                    )
                },
    {
        match frame {
            StereoFrame::Yuv420p(pair) => {
                let left = YuvPlanes {
                    y: pair.left.y.as_slice(),
                    u: pair.left.u.as_slice(),
                    v: pair.left.v.as_slice(),
                };
                let right = YuvPlanes {
                    y: pair.right.y.as_slice(),
                    u: pair.right.u.as_slice(),
                    v: pair.right.v.as_slice(),
                };
                self.render_to_target(&left, &right, yaw, pitch, math)
            },
            StereoFrame::Nv12(pair) => {
                let left = Nv12Planes {
                    y: pair.left.y.as_slice(),
                    uv: pair.left.uv.as_slice(),
                };
                let right = Nv12Planes {
                    y: pair.right.y.as_slice(),
                    uv: pair.right.uv.as_slice(),
                };
                self.render_to_target_nv12(&left, &right, yaw, pitch, math)
            },
            StereoFrame::GpuResident { .. } => Err(
                PipelineError::UnsupportedFrameVariant {
                    reason: "GpuResident frames must use render_gpu_frame()",
                },
            ),
        }
    }
}

/// What the plain stitch of some inputs is.
pub open spec fn is_plain_plan(i: StitchInputs, p: StitchPlan) -> bool {
    &&& i.block(p.left, CameraId::Left, i.stitch_role(CameraId::Left))
    &&& i.block(p.right, CameraId::Right, i.stitch_role(CameraId::Right))
    &&& p.second == i.spec_fading()
    &&& p.first != p.second
}

/// What the multiband stitch of some inputs is.
pub open spec fn is_multiband_plan(i: StitchInputs, p: MultibandPlan) -> bool {
    &&& i.block(p.left, CameraId::Left, i.multiband_role(CameraId::Left))
    &&& i.block(p.right, CameraId::Right, i.multiband_role(CameraId::Right))
    &&& i.block(p.mask, i.spec_fading(), i.mask_role())
    &&& p.passes@ == multiband_passes(i.spec_fading())
}

/// The overlay is never drawn under the transition, and nothing is drawn after
/// the sharpening.
pub proof fn overlay_is_drawn_last_but_for_sharpening(p: StitchPipeline, i: int, j: int)
    requires
        0 <= i < j < p.steps_over_target().len(),
    ensures
        p.steps_over_target()[i] != CompositeStep::Sharpen,
        p.steps_over_target()[i] == CompositeStep::Overlay ==> p.steps_over_target()[j]
            == CompositeStep::Sharpen,
        p.steps_over_target()[j] != CompositeStep::ColorGrade,
{
}

/// With nothing to draw over it, the stitch is the picture.
pub proof fn bare_stitch_has_no_steps(p: StitchPipeline)
    requires
        p.overlay is None,
        p.transition is None,
        !p.color_grade_pass.spec_active(),
        !p.sharpen_pass.spec_active(),
    ensures
        p.steps_over_target().len() == 0,
        p.steps_over_view().len() == 0,
{
}

/// A measurement that was put off because a readback was under way is due at
/// every frame until it is started.
pub proof fn put_off_measurement_stays_due(p: StitchPipeline)
    requires
        (ColorMatchState {
            interval: p.match_params().measure_interval_frames,
            ..p.color_match
        }).due_next(),
    ensures
        p.gather_counted().due_next(),
{
}

} // verus!
