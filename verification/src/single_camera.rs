//! One camera's picture, undistorted, drawn small and read back for evaluation.

use crate::async_detect::CameraId;
use crate::calibration::Lens;
use crate::nv12_readback::{padded_len, padded_row, LONGEST_ROW};
use crate::planes::{copy_rows, packed_rows};
use crate::renderer::{
    build_gpu_uniforms, is_plane_block, normalized_lens, GpuUniforms, GroundTilt, InputMode,
    LensUniforms, PassRole, PlaneInputs, PlaneWrite, StitchMath, TopTilt,
};
use crate::resources::{
    plane_textures, textures_of, InputFormat, PlaneTextures, TextureFormat, TextureSpec, TextureUse,
};
use crate::scalar::{Scalar, ONE, ZERO};
use crate::scene::{SceneGeometry, SceneView};
use vstd::prelude::*;

verus! {

/// The sizes of the picture that comes in and of the one that is evaluated.
#[derive(Clone, Copy, Debug, PartialEq, Eq, Structural)]
pub struct SingleCameraRenderer {
    pub input_width: u32,
    pub input_height: u32,
    pub eval_width: u32,
    pub eval_height: u32,
}

/// What the renderer allocates.
#[derive(Clone, Copy, Debug)]
pub struct SingleCameraResources {
    pub planes: PlaneTextures,
    pub target: TextureSpec,
    pub readback_bytes: u64,
}

/// No tilt of the ground, and none above the horizon.
pub open spec fn level_ground() -> GroundTilt {
    let zero = Scalar { bits: ZERO };
    GroundTilt { tilt: zero, k: zero, band_full: zero }
}

pub open spec fn level_top() -> TopTilt {
    let zero = Scalar { bits: ZERO };
    TopTilt { tilt: zero, k: zero, band_full: zero }
}

pub open spec fn camera_of(is_right: bool) -> CameraId {
    if is_right {
        CameraId::Right
    } else {
        CameraId::Left
    }
}

/// A camera that is not turned.
pub open spec fn straight_ahead(fov_degrees: Scalar, aspect: Scalar) -> SceneView {
    let zero = Scalar { bits: ZERO };
    SceneView { yaw: zero, pitch: zero, tilt: zero, roll: zero, fov_degrees, aspect }
}

impl SingleCameraRenderer {
    /// The evaluated picture's padded rows can be addressed.
    pub open spec fn wf(self) -> bool {
        &&& self.eval_width * 4 <= LONGEST_ROW
        &&& padded_len((self.eval_width * 4) as nat) * self.eval_height <= u32::MAX
    }

    pub open spec fn spec_aligned_row(self) -> nat {
        padded_len((self.eval_width * 4) as nat)
    }

    pub fn new(input_width: u32, input_height: u32, eval_width: u32, eval_height: u32) -> (r: (
        SingleCameraRenderer,
        SingleCameraResources,
    ))
        requires
            (SingleCameraRenderer { input_width, input_height, eval_width, eval_height }).wf(),
        ensures
            r.0 == (SingleCameraRenderer { input_width, input_height, eval_width, eval_height }),
            r.1.planes == textures_of(InputFormat::Yuv420p, input_width, input_height),
            r.1.target == (TextureSpec {
                width: eval_width,
                height: eval_height,
                format: TextureFormat::Rgba8Unorm,
                usage: TextureUse {
                    binding: false,
                    copy_dst: false,
                    copy_src: true,
                    attachment: true,
                    storage: false,
                },
            }),
            r.1.readback_bytes == r.0.spec_aligned_row() * eval_height,
    {
        let renderer = SingleCameraRenderer {
            input_width,
            input_height,
            eval_width,
            eval_height,
        };
        let aligned: u32 = renderer.aligned_row();
        let resources = SingleCameraResources {
            planes: plane_textures(InputFormat::Yuv420p, input_width, input_height),
            target: TextureSpec {
                width: eval_width,
                height: eval_height,
                format: TextureFormat::Rgba8Unorm,
                usage: TextureUse {
                    binding: false,
                    copy_dst: false,
                    copy_src: true,
                    attachment: true,
                    storage: false,
                },
            },
            readback_bytes: (aligned * eval_height) as u64,
        };
        (renderer, resources)
    }

    /// The bytes from one row of the readback to the next.
    pub fn aligned_row(&self) -> (p: u32)
        requires
            self.wf(),
        ensures
            p == self.spec_aligned_row(),
    {
        padded_row(self.eval_width * 4)
    }

    /// The writes of the luma and of each chroma plane.
    pub fn plane_writes(&self) -> (w: (PlaneWrite, PlaneWrite))
        ensures
            w.0 == (PlaneWrite {
                width: self.input_width,
                height: self.input_height,
                bytes_per_row: self.input_width,
            }),
            w.1 == (PlaneWrite {
                width: self.input_width / 2,
                height: self.input_height / 2,
                bytes_per_row: self.input_width / 2,
            }),
    {
        (
            PlaneWrite {
                width: self.input_width,
                height: self.input_height,
                bytes_per_row: self.input_width,
            },
            PlaneWrite {
                width: self.input_width / 2,
                height: self.input_height / 2,
                bytes_per_row: self.input_width / 2,
            },
        )
    }

    /// `u` are the uniforms of the one plane, which is drawn without blending and
    /// seen straight ahead.
    pub open spec fn shown<M: StitchMath>(
        self,
        scene: SceneGeometry,
        lens: Lens,
        is_right: bool,
        fov_degrees: Scalar,
        math: M,
        u: GpuUniforms,
    ) -> bool {
        let zero = Scalar { bits: ZERO };
        exists|aspect: Scalar, l: LensUniforms|
            {
                &&& #[trigger] call_ensures(
                    M::ratio,
                    (&math, self.eval_width, self.eval_height),
                    aspect,
                )
                &&& #[trigger] normalized_lens(math, lens, l)
                &&& call_ensures(
                    M::transform,
                    (&math, &scene, camera_of(is_right), straight_ahead(fov_degrees, aspect)),
                    u.mvp,
                )
                &&& is_plane_block(
                    u,
                    PlaneInputs {
                        mvp: u.mvp,
                        lens: l,
                        ground: level_ground(),
                        top: level_top(),
                        correction: Scalar { bits: ONE },
                    },
                    is_right,
                    InputMode { format: InputFormat::Yuv420p, flip_180: false, full_range: false },
                    crate::color_match::no_offset(),
                    Scalar { bits: ONE },
                    PassRole { fade: zero, blend_width: zero, seam_line: zero, seam_offset: zero },
                )
            }
    }

    pub fn uniforms<M: StitchMath>(
        &self,
        scene: &SceneGeometry,
        lens: &Lens,
        is_right: bool,
        fov_degrees: Scalar,
        math: &M,
    ) -> (u: GpuUniforms)
        ensures
            self.shown(*scene, *lens, is_right, fov_degrees, *math, u),
    {
        let zero = Scalar { bits: ZERO };
        let aspect: Scalar = math.ratio(self.eval_width, self.eval_height);
        let view = SceneView {
            yaw: zero,
            pitch: zero,
            tilt: zero,
            roll: zero,
            fov_degrees,
            aspect,
        };
        let plane: CameraId = if is_right {
            CameraId::Right
        } else {
            CameraId::Left
        };
        let l: LensUniforms = LensUniforms::of(lens, math);
        let u: GpuUniforms = build_gpu_uniforms(
            math.transform(scene, plane, view),
            &l,
            is_right,
            zero,
            InputMode { format: InputFormat::Yuv420p, flip_180: false, full_range: false },
            GroundTilt { tilt: zero, k: zero, band_full: zero },
            TopTilt { tilt: zero, k: zero, band_full: zero },
        );
        u
    }

    /// The picture in a mapped readback, without the padding of its rows.
    pub fn strip_readback(&self, mapped: &[u8]) -> (rgba: Vec<u8>)
        requires
            self.wf(),
            mapped@.len() == self.spec_aligned_row() * self.eval_height,
        ensures
            rgba@ == packed_rows(
                mapped@,
                (self.eval_width * 4) as nat,
                self.spec_aligned_row(),
                self.eval_height as nat,
            ),
    {
        let row: u32 = self.eval_width * 4;
        let stride: u32 = self.aligned_row();
        let rows: u32 = self.eval_height;
        assert(row * rows <= stride * rows) by (nonlinear_arith)
            requires
                row <= stride,
                rows >= 0,
        ;
        assert(rows > 0 ==> (rows - 1) * stride + row <= stride * rows) by (nonlinear_arith)
            requires
                row <= stride,
        ;
        let mut rgba: Vec<u8> = Vec::new();
        rgba.resize(row as usize * rows as usize, 0u8);
        copy_rows(mapped, row as usize, stride as usize, rows as usize, rgba.as_mut_slice());
        rgba
    }
}

} // verus!
