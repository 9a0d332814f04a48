//! The stitch: what each pass draws, in which order, with which uniforms.

use crate::async_detect::CameraId;
use crate::bytes::{encodes, words_to_bytes};
use crate::calibration::Lens;
use crate::color_match::{invertible, is_invertible, ColorCorrection};
use crate::planes::{BgraPlanes, Nv12Planes, YuvPlanes};
use crate::resources::InputFormat;
use crate::scalar::{Scalar, Wide, ONE, ZERO};
use crate::scene::{narrowed, SceneGeometry, SceneMath, SceneView};
use crate::text::{append_decimal, decimal};
use vstd::prelude::*;
use vstd::string::StringExecFns;

verus! {

/// The bytes of a block of plane uniforms.
pub const UNIFORM_BYTES: u64 = 192;

/// The bits of 1e-4: across this width the mask goes from nothing to all.
pub const MASK_HARD_BLEND_WIDTH: u32 = 0x38d1_b717;

/// The bits of 0.04, the last parameter of the multiband composite.
pub const COMPOSITE_SOFTNESS: u32 = 0x3d23_d70a;

/// The bits of 2.0 and 10.0, between which the blur of the multiband stitch is
/// held, in pixels.
pub const SIGMA_MIN: u32 = 0x4000_0000;

pub const SIGMA_MAX: u32 = 0x4120_0000;

#[derive(Clone, Copy, Debug, PartialEq, Eq, Structural)]
pub enum RenderError {
    FrameSizeMismatch { expected: usize, actual: usize },
}

impl RenderError {
    pub open spec fn text(self) -> Seq<char> {
        match self {
            RenderError::FrameSizeMismatch { expected, actual } =>
                "frame data size mismatch: expected "@ + decimal(expected as nat)
                + " bytes, got "@ + decimal(actual as nat),
        }
    }

    pub fn message(&self) -> (m: String)
        ensures
            m@ == self.text(),
    {
        match self {
            RenderError::FrameSizeMismatch { expected, actual } => {
                let mut m: String = "frame data size mismatch: expected ".to_owned();
                append_decimal(&mut m, *expected as u64);
                m.append(" bytes, got ");
                append_decimal(&mut m, *actual as u64);
                m
            },
        }
    }
}

/// The tilt of the ground plane: its amount, the lens's constant, and the width
/// of the band over which it sets in.
#[derive(Clone, Copy, Debug, PartialEq, Eq, Structural)]
pub struct GroundTilt {
    pub tilt: Scalar,
    pub k: Scalar,
    pub band_full: Scalar,
}

/// The same for the part above the horizon.
#[derive(Clone, Copy, Debug, PartialEq, Eq, Structural)]
pub struct TopTilt {
    pub tilt: Scalar,
    pub k: Scalar,
    pub band_full: Scalar,
}

/// A lens as the shader wants it: focal lengths and centre as fractions of the
/// picture, distortion, and the picture's aspect.
#[derive(Clone, Copy, Debug)]
pub struct LensUniforms {
    pub intrinsics: [Scalar; 4],
    pub dist: [Scalar; 4],
    pub aspect: Scalar,
}

/// The arithmetic of a stitch, which is done on numbers.
pub trait StitchMath: SceneMath {
    /// The constant by which a lens tilts.
    fn tilt_constant(&self, lens: &Lens) -> Scalar;

    /// The columns of the transform from a plane to the screen.
    fn transform(
        &self,
        scene: &SceneGeometry,
        plane: CameraId,
        view: SceneView,
    ) -> [[Scalar; 4]; 4];
}

/// How far a blend of width one on a picture of one pixel is blurred: the bits of 0.12.
pub const SPREAD: u32 = 0x3df5_c28f;

/// `part` is what `x` is of so many pixels.
pub open spec fn fraction_of<M: SceneMath>(math: M, x: Wide, of: u32, part: Scalar) -> bool {
    exists|n: Scalar, pixels: Scalar|
        {
            &&& #[trigger] narrowed(math, x, n)
            &&& #[trigger] call_ensures(M::whole, (&math, of), pixels)
            &&& call_ensures(M::divided, (&math, n, pixels), part)
        }
}

fn fraction<M: SceneMath>(x: Wide, of: u32, math: &M) -> (part: Scalar)
    ensures
        fraction_of(*math, x, of, part),
{
    let n: Scalar = math.narrow(x);
    let pixels: Scalar = math.whole(of);
    assert(narrowed(*math, x, n));
    math.divided(n, pixels)
}

/// `part` is what one of so many pixels takes up of the picture.
pub open spec fn texel_of<M: SceneMath>(math: M, pixels: u32, part: Scalar) -> bool {
    exists|n: Scalar|
        {
            &&& #[trigger] call_ensures(M::whole, (&math, pixels), n)
            &&& call_ensures(M::divided, (&math, Scalar { bits: ONE }, n), part)
        }
}

pub fn texel<M: SceneMath>(pixels: u32, math: &M) -> (part: Scalar)
    ensures
        texel_of(*math, pixels, part),
{
    let n: Scalar = math.whole(pixels);
    math.divided(Scalar { bits: ONE }, n)
}

/// `sigma` is the blur for a blend of the given width, on a picture so many pixels wide,
/// before it is held within its limits.
pub open spec fn spread_by<M: SceneMath>(
    math: M,
    width: Scalar,
    pixels: u32,
    sigma: Scalar,
) -> bool {
    exists|n: Scalar, blended: Scalar|
        {
            &&& #[trigger] call_ensures(M::whole, (&math, pixels), n)
            &&& #[trigger] call_ensures(M::product, (&math, width, n), blended)
            &&& call_ensures(M::product, (&math, blended, Scalar { bits: SPREAD }), sigma)
        }
}

pub fn spread<M: SceneMath>(width: Scalar, pixels: u32, math: &M) -> (sigma: Scalar)
    ensures
        spread_by(*math, width, pixels, sigma),
{
    let n: Scalar = math.whole(pixels);
    let blended: Scalar = math.product(width, n);
    math.product(blended, Scalar { bits: SPREAD })
}

/// `exponent` is the power to which the shader raises a camera's colours so that
/// the gamma brightens them: one where the gamma cannot be inverted.
pub open spec fn raised_to<M: StitchMath>(math: M, gamma: Scalar, exponent: Scalar) -> bool {
    if invertible(gamma) {
        call_ensures(M::divided, (&math, Scalar { bits: ONE }, gamma), exponent)
    } else {
        exponent == (Scalar { bits: ONE })
    }
}

/// The power by which a gamma brightens.
pub fn inv_gamma<M: StitchMath>(gamma: Scalar, math: &M) -> (exponent: Scalar)
    ensures
        raised_to(*math, gamma, exponent),
{
    if is_invertible(gamma) {
        math.divided(Scalar { bits: ONE }, gamma)
    } else {
        Scalar { bits: ONE }
    }
}

/// `u` is a lens as the shader wants it.
pub open spec fn normalized_lens<M: StitchMath>(math: M, lens: Lens, u: LensUniforms) -> bool {
    &&& fraction_of(math, lens.fx, lens.width, u.intrinsics[0])
    &&& fraction_of(math, lens.fy, lens.height, u.intrinsics[1])
    &&& fraction_of(math, lens.cx, lens.width, u.intrinsics[2])
    &&& fraction_of(math, lens.cy, lens.height, u.intrinsics[3])
    &&& narrowed(math, lens.distortion[0], u.dist[0])
    &&& narrowed(math, lens.distortion[1], u.dist[1])
    &&& narrowed(math, lens.distortion[2], u.dist[2])
    &&& narrowed(math, lens.distortion[3], u.dist[3])
    &&& call_ensures(M::ratio, (&math, lens.width, lens.height), u.aspect)
}

impl LensUniforms {
    pub fn of<M: StitchMath>(lens: &Lens, math: &M) -> (u: LensUniforms)
        ensures
            normalized_lens(*math, *lens, u),
    {
        LensUniforms {
            intrinsics: [
                fraction(lens.fx, lens.width, math),
                fraction(lens.fy, lens.height, math),
                fraction(lens.cx, lens.width, math),
                fraction(lens.cy, lens.height, math),
            ],
            dist: [
                math.narrow(lens.distortion[0]),
                math.narrow(lens.distortion[1]),
                math.narrow(lens.distortion[2]),
                math.narrow(lens.distortion[3]),
            ],
            aspect: math.ratio(lens.width, lens.height),
        }
    }
}

/// One block of plane uniforms, in the order in which the shader reads it.
#[derive(Clone, Copy, Debug)]
pub struct GpuUniforms {
    /// The transform's columns.
    pub mvp: [[Scalar; 4]; 4],
    pub intrinsics: [Scalar; 4],
    pub dist: [Scalar; 4],
    pub color_scale: [Scalar; 4],
    pub color_offset_blend: [Scalar; 4],
    pub flags: [u32; 4],
    pub lens_preview: [Scalar; 4],
    pub ground_tilt: [Scalar; 4],
    pub top_tilt: [Scalar; 4],
}

pub open spec fn bits_of(s: Seq<Scalar>) -> Seq<u32> {
    s.map_values(|x: Scalar| x.bits)
}

impl GpuUniforms {
    /// The words of the block.
    pub open spec fn words(self) -> Seq<u32> {
        bits_of(self.mvp[0]@) + bits_of(self.mvp[1]@) + bits_of(self.mvp[2]@) + bits_of(
            self.mvp[3]@,
        ) + bits_of(self.intrinsics@) + bits_of(self.dist@) + bits_of(self.color_scale@) + bits_of(
            self.color_offset_blend@,
        ) + self.flags@ + bits_of(self.lens_preview@) + bits_of(self.ground_tilt@) + bits_of(
            self.top_tilt@,
        )
    }

    /// The block as the bytes of a uniform buffer.
    pub fn bytes(&self) -> (bytes: Vec<u8>)
        ensures
            encodes(self.words(), bytes@),
            bytes@.len() == UNIFORM_BYTES,
    {
        let mut w: Vec<u32> = Vec::new();
        push_four(&mut w, &self.mvp[0]);
        push_four(&mut w, &self.mvp[1]);
        push_four(&mut w, &self.mvp[2]);
        push_four(&mut w, &self.mvp[3]);
        push_four(&mut w, &self.intrinsics);
        push_four(&mut w, &self.dist);
        push_four(&mut w, &self.color_scale);
        push_four(&mut w, &self.color_offset_blend);
        w.push(self.flags[0]);
        w.push(self.flags[1]);
        w.push(self.flags[2]);
        w.push(self.flags[3]);
        push_four(&mut w, &self.lens_preview);
        push_four(&mut w, &self.ground_tilt);
        push_four(&mut w, &self.top_tilt);
        assert(w@ =~= self.words());
        words_to_bytes(w.as_slice())
    }
}

fn push_four(w: &mut Vec<u32>, four: &[Scalar; 4])
    ensures
        final(w)@ == old(w)@ + bits_of(four@),
{
    w.push(four[0].bits);
    w.push(four[1].bits);
    w.push(four[2].bits);
    w.push(four[3].bits);
}

/// How the shader tells the input formats apart.
pub open spec fn format_flag(format: InputFormat) -> u32 {
    match format {
        InputFormat::Yuv420p => 0,
        InputFormat::Nv12 => 1,
        InputFormat::Bgra => 2,
    }
}

pub open spec fn flag(b: bool) -> u32 {
    if b {
        1
    } else {
        0
    }
}

pub open spec fn unit(b: bool) -> Scalar {
    if b {
        Scalar { bits: ONE }
    } else {
        Scalar { bits: ZERO }
    }
}

fn flag_of(b: bool) -> (r: u32)
    ensures
        r == flag(b),
{
    if b {
        1
    } else {
        0
    }
}

fn unit_of(b: bool) -> (r: Scalar)
    ensures
        r == unit(b),
{
    if b {
        Scalar { bits: ONE }
    } else {
        Scalar { bits: ZERO }
    }
}

/// What the uniforms of one camera's plane are made of.
#[derive(Clone, Copy, Debug)]
pub struct PlaneInputs {
    pub mvp: [[Scalar; 4]; 4],
    pub lens: LensUniforms,
    pub ground: GroundTilt,
    pub top: TopTilt,
    /// How much of the lens correction is applied.
    pub correction: Scalar,
}

/// The fields in which passes over one plane differ: whether the plane fades
/// across the seam and over what width, whether the seam line is drawn, and
/// where the seam is.
#[derive(Clone, Copy, Debug, PartialEq, Eq, Structural)]
pub struct PassRole {
    pub fade: Scalar,
    pub blend_width: Scalar,
    pub seam_line: Scalar,
    pub seam_offset: Scalar,
}

/// How the pictures come in.
#[derive(Clone, Copy, Debug, PartialEq, Eq, Structural)]
pub struct InputMode {
    pub format: InputFormat,
    pub flip_180: bool,
    pub full_range: bool,
}

/// `u` is the block of a pass over one plane.
pub open spec fn is_plane_block(
    u: GpuUniforms,
    plane: PlaneInputs,
    is_right: bool,
    mode: InputMode,
    offset: [Scalar; 3],
    exponent: Scalar,
    role: PassRole,
) -> bool {
    let zero = Scalar { bits: ZERO };
    let one = Scalar { bits: ONE };
    &&& u.mvp == plane.mvp
    &&& u.intrinsics == plane.lens.intrinsics
    &&& u.dist == plane.lens.dist
    &&& u.color_scale@ == seq![one, one, one, exponent]
    &&& u.color_offset_blend@ == seq![offset[0], offset[1], offset[2], role.blend_width]
    &&& u.flags@ == seq![
        flag(is_right),
        format_flag(mode.format),
        flag(mode.flip_180),
        flag(mode.full_range),
    ]
    &&& u.lens_preview@ == seq![plane.correction, zero, role.seam_line, role.seam_offset]
    &&& u.ground_tilt@ == seq![plane.ground.tilt, plane.ground.k, plane.lens.aspect, role.fade]
    &&& u.top_tilt@ == seq![
        plane.top.tilt,
        plane.top.k,
        plane.ground.band_full,
        plane.top.band_full,
    ]
}

/// The block of a pass that neither fades, corrects or raises colours nor marks a
/// seam, with the lens correction in full.
pub fn build_gpu_uniforms(
    mvp: [[Scalar; 4]; 4],
    lens: &LensUniforms,
    is_right: bool,
    blend_width: Scalar,
    mode: InputMode,
    ground: GroundTilt,
    top: TopTilt,
) -> (u: GpuUniforms)
    ensures
        is_plane_block(
            u,
            PlaneInputs { mvp, lens: *lens, ground, top, correction: Scalar { bits: ONE } },
            is_right,
            mode,
            crate::color_match::no_offset(),
            Scalar { bits: ONE },
            PassRole {
                fade: Scalar { bits: ZERO },
                blend_width,
                seam_line: Scalar { bits: ZERO },
                seam_offset: Scalar { bits: ZERO },
            },
        ),
{
    let zero = Scalar { bits: ZERO };
    plane_block(
        &PlaneInputs { mvp, lens: *lens, ground, top, correction: Scalar { bits: ONE } },
        is_right,
        mode,
        [zero, zero, zero],
        Scalar { bits: ONE },
        PassRole { fade: zero, blend_width, seam_line: zero, seam_offset: zero },
    )
}

fn plane_block(
    plane: &PlaneInputs,
    is_right: bool,
    mode: InputMode,
    offset: [Scalar; 3],
    exponent: Scalar,
    role: PassRole,
) -> (u: GpuUniforms)
    ensures
        is_plane_block(u, *plane, is_right, mode, offset, exponent, role),
{
    let zero = Scalar { bits: ZERO };
    let one = Scalar { bits: ONE };
    let format: u32 = match mode.format {
        InputFormat::Yuv420p => 0,
        InputFormat::Nv12 => 1,
        InputFormat::Bgra => 2,
    };
    let u = GpuUniforms {
        mvp: plane.mvp,
        intrinsics: plane.lens.intrinsics,
        dist: plane.lens.dist,
        color_scale: [one, one, one, exponent],
        color_offset_blend: [offset[0], offset[1], offset[2], role.blend_width],
        flags: [flag_of(is_right), format, flag_of(mode.flip_180), flag_of(mode.full_range)],
        lens_preview: [plane.correction, zero, role.seam_line, role.seam_offset],
        ground_tilt: [plane.ground.tilt, plane.ground.k, plane.lens.aspect, role.fade],
        top_tilt: [plane.top.tilt, plane.top.k, plane.ground.band_full, plane.top.band_full],
    };
    u
}

/// Everything that one stitch is drawn from.
#[derive(Clone, Copy, Debug)]
pub struct StitchInputs {
    pub left: PlaneInputs,
    pub right: PlaneInputs,
    pub blend_width: Scalar,
    pub color: ColorCorrection,
    /// The powers to which the left and the right camera's colours are raised.
    pub exponents: (Scalar, Scalar),
    pub show_seam_line: bool,
    /// The left plane fades across the seam, not the right one.
    pub flip: bool,
    pub seam_offset: Scalar,
    pub format: InputFormat,
    pub flip_180: (bool, bool),
    pub full_range: bool,
}

impl StitchInputs {
    pub open spec fn spec_plane(self, camera: CameraId) -> PlaneInputs {
        match camera {
            CameraId::Left => self.left,
            CameraId::Right => self.right,
        }
    }

    pub open spec fn spec_mode(self, camera: CameraId) -> InputMode {
        InputMode {
            format: self.format,
            flip_180: match camera {
                CameraId::Left => self.flip_180.0,
                CameraId::Right => self.flip_180.1,
            },
            full_range: self.full_range,
        }
    }

    pub open spec fn spec_offset(self, camera: CameraId) -> [Scalar; 3] {
        match camera {
            CameraId::Left => self.color.left_offset,
            CameraId::Right => self.color.right_offset,
        }
    }

    pub open spec fn spec_exponent(self, camera: CameraId) -> Scalar {
        match camera {
            CameraId::Left => self.exponents.0,
            CameraId::Right => self.exponents.1,
        }
    }

    /// The plane that fades across the seam.
    pub open spec fn spec_fading(self) -> CameraId {
        if self.flip {
            CameraId::Left
        } else {
            CameraId::Right
        }
    }

    /// `u` is the block of a pass over this camera's plane.
    pub open spec fn block(self, u: GpuUniforms, camera: CameraId, role: PassRole) -> bool {
        is_plane_block(
            u,
            self.spec_plane(camera),
            camera == CameraId::Right,
            self.spec_mode(camera),
            self.spec_offset(camera),
            self.spec_exponent(camera),
            role,
        )
    }

    /// The role of a plane in the plain stitch: the fading one fades over the
    /// blend width, and carries the seam and its line.
    pub open spec fn stitch_role(self, camera: CameraId) -> PassRole {
        let fades = camera == self.spec_fading();
        PassRole {
            fade: unit(fades),
            blend_width: self.blend_width,
            seam_line: unit(fades && self.show_seam_line),
            seam_offset: if fades {
                self.seam_offset
            } else {
                Scalar { bits: ZERO }
            },
        }
    }

    /// The role of a plane in the multiband stitch: neither fades, and only the
    /// seam line, where it is shown, needs the seam.
    pub open spec fn multiband_role(self, camera: CameraId) -> PassRole {
        let marked = camera == self.spec_fading() && self.show_seam_line;
        PassRole {
            fade: Scalar { bits: ZERO },
            blend_width: self.blend_width,
            seam_line: unit(marked),
            seam_offset: if marked {
                self.seam_offset
            } else {
                Scalar { bits: ZERO }
            },
        }
    }

    /// The role of the fading plane in the mask: it fades at once at the seam.
    pub open spec fn mask_role(self) -> PassRole {
        PassRole {
            fade: Scalar { bits: ONE },
            blend_width: Scalar { bits: MASK_HARD_BLEND_WIDTH },
            seam_line: Scalar { bits: ZERO },
            seam_offset: self.seam_offset,
        }
    }

    pub fn fading(&self) -> (camera: CameraId)
        ensures
            camera == self.spec_fading(),
    {
        if self.flip {
            CameraId::Left
        } else {
            CameraId::Right
        }
    }

    fn uniforms(&self, camera: CameraId, role: PassRole) -> (u: GpuUniforms)
        ensures
            self.block(u, camera, role),
    {
        match camera {
            CameraId::Left => plane_block(
                &self.left,
                false,
                InputMode {
                    format: self.format,
                    flip_180: self.flip_180.0,
                    full_range: self.full_range,
                },
                self.color.left_offset,
                self.exponents.0,
                role,
            ),
            CameraId::Right => plane_block(
                &self.right,
                true,
                InputMode {
                    format: self.format,
                    flip_180: self.flip_180.1,
                    full_range: self.full_range,
                },
                self.color.right_offset,
                self.exponents.1,
                role,
            ),
        }
    }

    fn plain_role(&self, camera: CameraId) -> (role: PassRole)
        ensures
            role == self.stitch_role(camera),
    {
        let fades: bool = camera == self.fading();
        PassRole {
            fade: unit_of(fades),
            blend_width: self.blend_width,
            seam_line: unit_of(fades && self.show_seam_line),
            seam_offset: if fades {
                self.seam_offset
            } else {
                Scalar { bits: ZERO }
            },
        }
    }

    fn banded_role(&self, camera: CameraId) -> (role: PassRole)
        ensures
            role == self.multiband_role(camera),
    {
        let marked: bool = camera == self.fading() && self.show_seam_line;
        PassRole {
            fade: Scalar { bits: ZERO },
            blend_width: self.blend_width,
            seam_line: unit_of(marked),
            seam_offset: if marked {
                self.seam_offset
            } else {
                Scalar { bits: ZERO }
            },
        }
    }
}

/// The plain stitch: both planes in one pass, the fading one over the other.
pub struct StitchPlan {
    pub left: GpuUniforms,
    pub right: GpuUniforms,
    pub first: CameraId,
    pub second: CameraId,
}

pub fn plan_stitch(inputs: &StitchInputs) -> (plan: StitchPlan)
    ensures
        inputs.block(plan.left, CameraId::Left, inputs.stitch_role(CameraId::Left)),
        inputs.block(plan.right, CameraId::Right, inputs.stitch_role(CameraId::Right)),
        plan.second == inputs.spec_fading(),
        plan.first != plan.second,
{
    let second: CameraId = inputs.fading();
    let first: CameraId = match second {
        CameraId::Left => CameraId::Right,
        CameraId::Right => CameraId::Left,
    };
    StitchPlan {
        left: inputs.uniforms(CameraId::Left, inputs.plain_role(CameraId::Left)),
        right: inputs.uniforms(CameraId::Right, inputs.plain_role(CameraId::Right)),
        first,
        second,
    }
}

/// The textures of the multiband stitch, and what it is drawn to in the end.
#[derive(Clone, Copy, Debug, PartialEq, Eq, Structural)]
pub enum Target {
    Left,
    Right,
    Mask,
    Tmp,
    LeftBlur,
    RightBlur,
    MaskBlur,
    Output,
}

impl Target {
    /// Before it is drawn to, the output is cleared to black and a texture in
    /// between to what is transparent.
    pub fn cleared_opaque(self) -> (opaque: bool)
        ensures
            opaque == (self == Target::Output),
    {
        self == Target::Output
    }
}

/// What a pass of the multiband stitch draws.
#[derive(Clone, Copy, Debug, PartialEq, Eq, Structural)]
pub enum PassKind {
    /// A camera's plane by itself.
    Plane { camera: CameraId },
    /// The fading plane, cut off hard at the seam.
    MaskPlane { camera: CameraId },
    BlurHorizontal { source: Target, premultiply: bool },
    BlurVertical { source: Target, premultiply: bool },
    /// The two planes, joined along the blurred mask.
    Composite,
}

#[derive(Clone, Copy, Debug, PartialEq, Eq, Structural)]
pub struct Pass {
    pub kind: PassKind,
    pub target: Target,
}

/// The multiband stitch: three blocks of uniforms and the passes in order.
pub struct MultibandPlan {
    pub left: GpuUniforms,
    pub right: GpuUniforms,
    pub mask: GpuUniforms,
    pub passes: Vec<Pass>,
}

pub open spec fn smear(source: Target) -> Pass {
    Pass { kind: PassKind::BlurHorizontal { source, premultiply: true }, target: Target::Tmp }
}

pub open spec fn settle(target: Target) -> Pass {
    Pass { kind: PassKind::BlurVertical { source: Target::Tmp, premultiply: false }, target }
}

/// The ten passes. Each blur goes through the one temporary texture.
pub open spec fn multiband_passes(fading: CameraId) -> Seq<Pass> {
    seq![
        Pass { kind: PassKind::Plane { camera: CameraId::Left }, target: Target::Left },
        Pass { kind: PassKind::Plane { camera: CameraId::Right }, target: Target::Right },
        Pass { kind: PassKind::MaskPlane { camera: fading }, target: Target::Mask },
        smear(Target::Left),
        settle(Target::LeftBlur),
        smear(Target::Right),
        settle(Target::RightBlur),
        smear(Target::Mask),
        settle(Target::MaskBlur),
        Pass { kind: PassKind::Composite, target: Target::Output },
    ]
}

fn smear_pass(source: Target) -> (p: Pass)
    ensures
        p == smear(source),
{
    Pass { kind: PassKind::BlurHorizontal { source, premultiply: true }, target: Target::Tmp }
}

fn settle_pass(target: Target) -> (p: Pass)
    ensures
        p == settle(target),
{
    Pass { kind: PassKind::BlurVertical { source: Target::Tmp, premultiply: false }, target }
}

pub fn plan_multiband(inputs: &StitchInputs) -> (plan: MultibandPlan)
    ensures
        inputs.block(plan.left, CameraId::Left, inputs.multiband_role(CameraId::Left)),
        inputs.block(plan.right, CameraId::Right, inputs.multiband_role(CameraId::Right)),
        inputs.block(plan.mask, inputs.spec_fading(), inputs.mask_role()),
        plan.passes@ == multiband_passes(inputs.spec_fading()),
{
    let fading: CameraId = inputs.fading();
    let mask_role = PassRole {
        fade: Scalar { bits: ONE },
        blend_width: Scalar { bits: MASK_HARD_BLEND_WIDTH },
        seam_line: Scalar { bits: ZERO },
        seam_offset: inputs.seam_offset,
    };
    let mut passes: Vec<Pass> = Vec::new();
    passes.push(Pass { kind: PassKind::Plane { camera: CameraId::Left }, target: Target::Left });
    passes.push(Pass { kind: PassKind::Plane { camera: CameraId::Right }, target: Target::Right });
    passes.push(Pass { kind: PassKind::MaskPlane { camera: fading }, target: Target::Mask });
    passes.push(smear_pass(Target::Left));
    passes.push(settle_pass(Target::LeftBlur));
    passes.push(smear_pass(Target::Right));
    passes.push(settle_pass(Target::RightBlur));
    passes.push(smear_pass(Target::Mask));
    passes.push(settle_pass(Target::MaskBlur));
    passes.push(Pass { kind: PassKind::Composite, target: Target::Output });
    MultibandPlan {
        left: inputs.uniforms(CameraId::Left, inputs.banded_role(CameraId::Left)),
        right: inputs.uniforms(CameraId::Right, inputs.banded_role(CameraId::Right)),
        mask: inputs.uniforms(fading, mask_role),
        passes,
    }
}

/// The textures that the composite reads, binding 0 first.
pub open spec fn composite_reads() -> Seq<Target> {
    seq![Target::Left, Target::Right, Target::LeftBlur, Target::RightBlur, Target::MaskBlur]
}

pub fn composite_sources() -> (t: Vec<Target>)
    ensures
        t@ == composite_reads(),
{
    let mut t: Vec<Target> = Vec::new();
    t.push(Target::Left);
    t.push(Target::Right);
    t.push(Target::LeftBlur);
    t.push(Target::RightBlur);
    t.push(Target::MaskBlur);
    t
}

/// The textures that the multiband stitch keeps, all of the output's size.
pub fn multiband_textures() -> (t: Vec<Target>)
    ensures
        t@ == seq![
            Target::Left,
            Target::Right,
            Target::Mask,
            Target::Tmp,
            Target::LeftBlur,
            Target::RightBlur,
            Target::MaskBlur,
        ],
{
    let mut t: Vec<Target> = Vec::new();
    t.push(Target::Left);
    t.push(Target::Right);
    t.push(Target::Mask);
    t.push(Target::Tmp);
    t.push(Target::LeftBlur);
    t.push(Target::RightBlur);
    t.push(Target::MaskBlur);
    t
}

/// What a texture shows: a camera's plane or the mask, and how many times it
/// was blurred either way.
pub enum Picture {
    Blank,
    Plane { camera: CameraId, horizontal: nat, vertical: nat },
    Mask { camera: CameraId, horizontal: nat, vertical: nat },
    Joined { parts: Seq<Target> },
}

pub open spec fn blurred(p: Picture, horizontal: nat, vertical: nat) -> Picture {
    match p {
        Picture::Plane { camera, horizontal: h, vertical: v } => Picture::Plane {
            camera,
            horizontal: h + horizontal,
            vertical: v + vertical,
        },
        Picture::Mask { camera, horizontal: h, vertical: v } => Picture::Mask {
            camera,
            horizontal: h + horizontal,
            vertical: v + vertical,
        },
        other => other,
    }
}

pub open spec fn shown_after(pass: Pass, before: Map<Target, Picture>) -> Picture {
    match pass.kind {
        PassKind::Plane { camera } => Picture::Plane { camera, horizontal: 0, vertical: 0 },
        PassKind::MaskPlane { camera } => Picture::Mask { camera, horizontal: 0, vertical: 0 },
        PassKind::BlurHorizontal { source, .. } => blurred(before[source], 1, 0),
        PassKind::BlurVertical { source, .. } => blurred(before[source], 0, 1),
        PassKind::Composite => Picture::Joined { parts: composite_reads() },
    }
}

/// What every texture shows after the first `n` passes.
pub open spec fn pictures(passes: Seq<Pass>, n: nat) -> Map<Target, Picture>
    decreases n,
{
    if n == 0 {
        Map::new(|t: Target| true, |t: Target| Picture::Blank)
    } else {
        let before = pictures(passes, (n - 1) as nat);
        let pass = passes[n - 1];
        before.insert(pass.target, shown_after(pass, before))
    }
}

/// When the composite is drawn, each of its sources shows what it should: the
/// two planes sharp, and the two planes and the mask blurred once either way.
pub proof fn composite_reads_finished_pictures(fading: CameraId)
    ensures
        ({
            let seen = pictures(multiband_passes(fading), 9);
            &&& multiband_passes(fading).len() == 10
            &&& multiband_passes(fading)[9].kind == PassKind::Composite
            &&& seen[Target::Left] == (Picture::Plane {
                camera: CameraId::Left,
                horizontal: 0,
                vertical: 0,
            })
            &&& seen[Target::Right] == (Picture::Plane {
                camera: CameraId::Right,
                horizontal: 0,
                vertical: 0,
            })
            &&& seen[Target::LeftBlur] == (Picture::Plane {
                camera: CameraId::Left,
                horizontal: 1,
                vertical: 1,
            })
            &&& seen[Target::RightBlur] == (Picture::Plane {
                camera: CameraId::Right,
                horizontal: 1,
                vertical: 1,
            })
            &&& seen[Target::MaskBlur] == (Picture::Mask {
                camera: fading,
                horizontal: 1,
                vertical: 1,
            })
        }),
{
    reveal_with_fuel(pictures, 10);
}

/// What a pass reads.
pub open spec fn reads(kind: PassKind) -> Seq<Target> {
    match kind {
        PassKind::BlurHorizontal { source, .. } => seq![source],
        PassKind::BlurVertical { source, .. } => seq![source],
        PassKind::Composite => composite_reads(),
        _ => Seq::empty(),
    }
}

/// No pass reads the texture that it draws to.
pub proof fn no_pass_reads_its_target(fading: CameraId, i: int)
    requires
        0 <= i < multiband_passes(fading).len(),
    ensures
        !reads(multiband_passes(fading)[i].kind).contains(multiband_passes(fading)[i].target),
{
}

/// Which of the plan's blocks of uniforms a pass reads.
#[derive(Clone, Copy, Debug, PartialEq, Eq, Structural)]
pub enum Block {
    Left,
    Right,
    Mask,
}

/// The block that a plane's pass reads; blurs and the composite are given
/// blocks of their own.
pub open spec fn block_read(kind: PassKind) -> Option<Block> {
    match kind {
        PassKind::Plane { camera: CameraId::Left } => Some(Block::Left),
        PassKind::Plane { camera: CameraId::Right } => Some(Block::Right),
        PassKind::MaskPlane { .. } => Some(Block::Mask),
        _ => None,
    }
}

pub fn block_for(kind: PassKind) -> (b: Option<Block>)
    ensures
        b == block_read(kind),
{
    match kind {
        PassKind::Plane { camera } => match camera {
            CameraId::Left => Some(Block::Left),
            CameraId::Right => Some(Block::Right),
        },
        PassKind::MaskPlane { .. } => Some(Block::Mask),
        _ => None,
    }
}

/// Each block is read by exactly one pass, so that writing it before the passes
/// are submitted shows every pass its own.
pub proof fn each_block_is_read_by_one_pass(fading: CameraId, b: Block)
    ensures
        exists|k: int|
            {
                &&& 0 <= k < multiband_passes(fading).len()
                &&& block_read((#[trigger] multiband_passes(fading)[k]).kind) == Some(b)
                &&& forall|j: int|
                    0 <= j < multiband_passes(fading).len() && block_read(
                        (#[trigger] multiband_passes(fading)[j]).kind,
                    ) == Some(b) ==> j == k
            },
{
    let passes = multiband_passes(fading);
    let k: int = match b {
        Block::Left => 0,
        Block::Right => 1,
        Block::Mask => 2,
    };
    assert forall|j: int| 0 <= j < passes.len() && block_read((#[trigger] passes[j]).kind) == Some(
        b,
    ) implies j == k by {
    }
}

/// Whichever plane fades, the other one is drawn without a seam of its own.
pub proof fn only_the_fading_plane_carries_the_seam(inputs: StitchInputs, camera: CameraId)
    requires
        camera != inputs.spec_fading(),
    ensures
        inputs.stitch_role(camera).fade == (Scalar { bits: ZERO }),
        inputs.stitch_role(camera).seam_line == (Scalar { bits: ZERO }),
        inputs.stitch_role(camera).seam_offset == (Scalar { bits: ZERO }),
        inputs.multiband_role(camera).seam_line == (Scalar { bits: ZERO }),
{
}

pub open spec fn driven_width(
    color_match_enabled: bool,
    blend_width: Scalar,
    band_width: Scalar,
) -> Scalar {
    if color_match_enabled {
        blend_width.spec_max(band_width)
    } else {
        blend_width
    }
}

/// The width that the multiband blur goes by: the blend's, or the colour
/// matching's band where that is on and wider.
pub fn blur_width_driver(
    color_match_enabled: bool,
    blend_width: Scalar,
    band_width: Scalar,
) -> (w: Scalar)
    ensures
        w == driven_width(color_match_enabled, blend_width, band_width),
{
    if color_match_enabled {
        blend_width.max(band_width)
    } else {
        blend_width
    }
}

/// The blur of the multiband stitch, in pixels.
pub fn blur_sigma(wanted: Scalar) -> (s: Scalar)
    ensures
        s == wanted.spec_clamp(Scalar { bits: SIGMA_MIN }, Scalar { bits: SIGMA_MAX }),
{
    wanted.clamp(Scalar { bits: SIGMA_MIN }, Scalar { bits: SIGMA_MAX })
}

/// The uniforms of a blur pass.
pub fn blur_bytes(texel_size: [Scalar; 2], sigma: Scalar, kind: PassKind) -> (bytes: Vec<u8>)
    requires
        kind is BlurHorizontal || kind is BlurVertical,
    ensures
        encodes(
            seq![
                texel_size[0].bits,
                texel_size[1].bits,
                unit(kind is BlurHorizontal).bits,
                unit(kind is BlurVertical).bits,
                sigma.bits,
                unit(
                    match kind {
                        PassKind::BlurHorizontal { premultiply, .. } => premultiply,
                        PassKind::BlurVertical { premultiply, .. } => premultiply,
                        _ => false,
                    },
                ).bits,
                ZERO,
                ZERO,
            ],
            bytes@,
        ),
{
    let (horizontal, premultiply): (bool, bool) = match kind {
        PassKind::BlurHorizontal { premultiply, .. } => (true, premultiply),
        PassKind::BlurVertical { premultiply, .. } => (false, premultiply),
        _ => (false, false),
    };
    let words: [u32; 8] = [
        texel_size[0].bits,
        texel_size[1].bits,
        unit_of(horizontal).bits,
        unit_of(!horizontal).bits,
        sigma.bits,
        unit_of(premultiply).bits,
        ZERO,
        ZERO,
    ];
    words_to_bytes(words.as_slice())
}

/// The uniforms of the composite: which plane fades, and the softness of the
/// join.
pub fn composite_bytes(fading: CameraId) -> (bytes: Vec<u8>)
    ensures
        encodes(
            seq![unit(fading == CameraId::Right).bits, COMPOSITE_SOFTNESS, ZERO, ZERO],
            bytes@,
        ),
{
    let right: bool = fading == CameraId::Right;
    let words: [u32; 4] = [unit_of(right).bits, COMPOSITE_SOFTNESS, ZERO, ZERO];
    words_to_bytes(words.as_slice())
}

/// One plane to write to the device.
#[derive(Clone, Copy, Debug, PartialEq, Eq, Structural)]
pub struct PlaneWrite {
    pub width: u32,
    pub height: u32,
    pub bytes_per_row: u32,
}

/// What is wrong with a plane that must have `expected` bytes, if anything.
pub open spec fn size_fault(plane: Seq<u8>, expected: int) -> Option<RenderError> {
    if plane.len() != expected {
        Some(
            RenderError::FrameSizeMismatch {
                expected: expected as usize,
                actual: plane.len() as usize,
            },
        )
    } else {
        None
    }
}

/// What is wrong with the first plane of a planar picture that has not the size
/// it must have, if any.
pub open spec fn yuv_mismatch(size: (u32, u32), p: YuvPlanes<'_>) -> Option<RenderError> {
    let chroma = (size.0 / 2) * (size.1 / 2);
    match (size_fault(p.y@, size.0 * size.1), size_fault(p.u@, chroma)) {
        (Some(e), _) => Some(e),
        (None, Some(e)) => Some(e),
        (None, None) => size_fault(p.v@, chroma),
    }
}

/// The same of a picture with interleaved chroma.
pub open spec fn nv12_mismatch(size: (u32, u32), p: Nv12Planes<'_>) -> Option<RenderError> {
    match size_fault(p.y@, size.0 * size.1) {
        Some(e) => Some(e),
        None => size_fault(p.uv@, (size.0 / 2) * (size.1 / 2) * 2),
    }
}

/// The same of a picture of four bytes to the pixel.
pub open spec fn bgra_mismatch(size: (u32, u32), p: BgraPlanes<'_>) -> Option<RenderError> {
    size_fault(p.rgba@, size.0 * size.1 * 4)
}

fn check_size(plane: &[u8], expected: usize) -> (r: Result<(), RenderError>)
    ensures
        r is Ok <==> size_fault(plane@, expected as int) is None,
        r matches Err(e) ==> size_fault(plane@, expected as int) == Some(e),
{
    if plane.len() != expected {
        return Err(RenderError::FrameSizeMismatch { expected, actual: plane.len() });
    }
    Ok(())
}

/// A picture's planes of luma and chroma, if each has the size it must have.
pub fn upload_yuv(width: u32, height: u32, planes: &YuvPlanes<'_>) -> (r: Result<
    (PlaneWrite, PlaneWrite),
    RenderError,
>)
    requires
        width * height <= u32::MAX,
    ensures
        r is Ok <==> yuv_mismatch((width, height), *planes) is None,
        r matches Err(e) ==> yuv_mismatch((width, height), *planes) == Some(e),
        r matches Ok((luma, chroma)) ==> luma == (PlaneWrite {
            width,
            height,
            bytes_per_row: width,
        }) && chroma == (PlaneWrite {
            width: width / 2,
            height: height / 2,
            bytes_per_row: width / 2,
        }),
{
    let uv_w: u32 = width / 2;
    let uv_h: u32 = height / 2;
    assert(uv_w * uv_h <= width * height) by (nonlinear_arith)
        requires
            0 <= uv_w <= width,
            0 <= uv_h <= height,
    ;
    let luma: usize = (width * height) as usize;
    let chroma: usize = (uv_w * uv_h) as usize;
    match check_size(planes.y, luma) {
        Ok(()) => {},
        Err(e) => {
            return Err(e);
        },
    }
    match check_size(planes.u, chroma) {
        Ok(()) => {},
        Err(e) => {
            return Err(e);
        },
    }
    match check_size(planes.v, chroma) {
        Ok(()) => {},
        Err(e) => {
            return Err(e);
        },
    }
    Ok(
        (
            PlaneWrite { width, height, bytes_per_row: width },
            PlaneWrite { width: uv_w, height: uv_h, bytes_per_row: uv_w },
        ),
    )
}

/// A picture's luma and interleaved chroma, if both have the size they must
/// have.
pub fn upload_nv12(width: u32, height: u32, planes: &Nv12Planes<'_>) -> (r: Result<
    (PlaneWrite, PlaneWrite),
    RenderError,
>)
    requires
        width * height <= u32::MAX,
    ensures
        r is Ok <==> nv12_mismatch((width, height), *planes) is None,
        r matches Err(e) ==> nv12_mismatch((width, height), *planes) == Some(e),
        r matches Ok((luma, chroma)) ==> luma == (PlaneWrite {
            width,
            height,
            bytes_per_row: width,
        }) && chroma == (PlaneWrite {
            width: width / 2,
            height: height / 2,
            bytes_per_row: (width / 2 * 2) as u32,
        }),
{
    let uv_w: u32 = width / 2;
    let uv_h: u32 = height / 2;
    assert(uv_w * uv_h * 2 <= width * height) by (nonlinear_arith)
        requires
            0 <= 2 * uv_w <= width,
            0 <= uv_h <= height,
    ;
    let luma: usize = (width * height) as usize;
    let chroma: usize = (uv_w * uv_h * 2) as usize;
    match check_size(planes.y, luma) {
        Ok(()) => {},
        Err(e) => {
            return Err(e);
        },
    }
    match check_size(planes.uv, chroma) {
        Ok(()) => {},
        Err(e) => {
            return Err(e);
        },
    }
    Ok(
        (
            PlaneWrite { width, height, bytes_per_row: width },
            PlaneWrite { width: uv_w, height: uv_h, bytes_per_row: uv_w * 2 },
        ),
    )
}

/// A picture of four bytes to the pixel, if it has the size it must have.
pub fn upload_bgra(width: u32, height: u32, planes: &BgraPlanes<'_>) -> (r: Result<
    PlaneWrite,
    RenderError,
>)
    requires
        width * height * 4 <= u32::MAX,
        width * 4 <= u32::MAX,
    ensures
        r is Ok <==> bgra_mismatch((width, height), *planes) is None,
        r matches Err(e) ==> bgra_mismatch((width, height), *planes) == Some(e),
        r matches Ok(p) ==> p == (PlaneWrite {
            width,
            height,
            bytes_per_row: (width * 4) as u32,
        }),
{
    match check_size(planes.rgba, (width * height * 4) as usize) {
        Ok(()) => Ok(PlaneWrite { width, height, bytes_per_row: width * 4 }),
        Err(e) => Err(e),
    }
}

/// The renderer's settings, and the size that its multiband textures have.
#[derive(Clone, Copy, Debug)]
pub struct Renderer {
    pub output_width: u32,
    pub output_height: u32,
    pub input_width: u32,
    pub input_height: u32,
    pub input_format: InputFormat,
    pub is_full_range: bool,
    pub flip_180: (bool, bool),
    pub multiband_size: (u32, u32),
}

impl Renderer {
    pub fn new(
        output_width: u32,
        output_height: u32,
        input_width: u32,
        input_height: u32,
        input_format: InputFormat,
    ) -> (r: Renderer)
        ensures
            r == (Renderer {
                output_width,
                output_height,
                input_width,
                input_height,
                input_format,
                is_full_range: false,
                flip_180: (false, false),
                multiband_size: (output_width, output_height),
            }),
    {
        Renderer {
            output_width,
            output_height,
            input_width,
            input_height,
            input_format,
            is_full_range: false,
            flip_180: (false, false),
            multiband_size: (output_width, output_height),
        }
    }

    pub fn set_flip_180(&mut self, left: bool, right: bool)
        ensures
            *final(self) == (Renderer { flip_180: (left, right), ..*old(self) }),
    {
        self.flip_180 = (left, right);
    }

    pub fn set_full_range(&mut self, full_range: bool)
        ensures
            *final(self) == (Renderer { is_full_range: full_range, ..*old(self) }),
    {
        self.is_full_range = full_range;
    }

    /// Takes the size of what is drawn to, and says whether the multiband
    /// textures have to be made anew for it.
    pub fn ensure_size(&mut self, width: u32, height: u32) -> (recreate: bool)
        ensures
            recreate == (old(self).multiband_size != (width, height)),
            *final(self) == (Renderer { multiband_size: (width, height), ..*old(self) }),
    {
        let recreate: bool = self.multiband_size.0 != width || self.multiband_size.1 != height;
        self.multiband_size = (width, height);
        recreate
    }
}

} // verus!
