//! What the renderers allocate on the device: textures, bindings, vertices.

use crate::scalar::{Scalar, HALF, ONE, ZERO};
use crate::scene::SceneMath;
use vstd::prelude::*;

verus! {

#[derive(Clone, Copy, Debug, PartialEq, Eq, Structural)]
pub enum TextureFormat {
    R8Unorm,
    R16Unorm,
    Rg8Unorm,
    Rg16Unorm,
    Rgba8Unorm,
    Nv12,
    P010,
}

/// How the decoded pictures reach the renderer.
#[derive(Clone, Copy, Debug, PartialEq, Eq, Structural)]
pub enum InputFormat {
    /// Luma and two chroma planes.
    Yuv420p,
    /// Luma and one plane of interleaved chroma.
    Nv12,
    /// One plane of four bytes to the pixel.
    Bgra,
}

/// The pixel layout of pictures decoded on the device.
#[derive(Clone, Copy, Debug, PartialEq, Eq, Structural)]
#[non_exhaustive]
pub enum GpuPixelFormat {
    /// Eight bits to the sample.
    Nv12,
    /// Ten bits to the sample, in sixteen.
    P010,
}

impl GpuPixelFormat {
    /// The format of the luma plane.
    pub fn y_format(self) -> (f: TextureFormat)
        ensures
            f == match self {
                GpuPixelFormat::Nv12 => TextureFormat::R8Unorm,
                GpuPixelFormat::P010 => TextureFormat::R16Unorm,
            },
    {
        match self {
            GpuPixelFormat::Nv12 => TextureFormat::R8Unorm,
            GpuPixelFormat::P010 => TextureFormat::R16Unorm,
        }
    }

    /// The format of the chroma plane.
    pub fn uv_format(self) -> (f: TextureFormat)
        ensures
            f == match self {
                GpuPixelFormat::Nv12 => TextureFormat::Rg8Unorm,
                GpuPixelFormat::P010 => TextureFormat::Rg16Unorm,
            },
    {
        match self {
            GpuPixelFormat::Nv12 => TextureFormat::Rg8Unorm,
            GpuPixelFormat::P010 => TextureFormat::Rg16Unorm,
        }
    }

    pub fn bytes_per_sample(self) -> (n: usize)
        ensures
            n == match self {
                GpuPixelFormat::Nv12 => 1int,
                GpuPixelFormat::P010 => 2int,
            },
    {
        match self {
            GpuPixelFormat::Nv12 => 1,
            GpuPixelFormat::P010 => 2,
        }
    }

    /// The format of a texture that holds both planes.
    pub fn wgpu_format(self) -> (f: TextureFormat)
        ensures
            f == match self {
                GpuPixelFormat::Nv12 => TextureFormat::Nv12,
                GpuPixelFormat::P010 => TextureFormat::P010,
            },
    {
        match self {
            GpuPixelFormat::Nv12 => TextureFormat::Nv12,
            GpuPixelFormat::P010 => TextureFormat::P010,
        }
    }
}

/// What a plane's texture is called.
#[derive(Clone, Copy, Debug, PartialEq, Eq, Structural)]
pub enum PlaneName {
    Y,
    Rgba,
    U,
    V,
    Uv,
    UDummy,
    VDummy,
}

/// What a texture may be used for.
#[derive(Clone, Copy, Debug, PartialEq, Eq, Structural)]
pub struct TextureUse {
    pub binding: bool,
    pub copy_dst: bool,
    pub copy_src: bool,
    pub attachment: bool,
    pub storage: bool,
}

#[derive(Clone, Copy, Debug, PartialEq, Eq, Structural)]
pub struct TextureSpec {
    pub width: u32,
    pub height: u32,
    pub format: TextureFormat,
    pub usage: TextureUse,
}

/// Read by a shader, written by copies.
pub open spec fn sampled_use() -> TextureUse {
    TextureUse {
        binding: true,
        copy_dst: true,
        copy_src: false,
        attachment: false,
        storage: false,
    }
}

/// Drawn to, then read by a shader.
pub open spec fn intermediate_use() -> TextureUse {
    TextureUse {
        binding: true,
        copy_dst: false,
        copy_src: false,
        attachment: true,
        storage: false,
    }
}

/// Drawn to, then read by a shader or copied from.
pub open spec fn target_use() -> TextureUse {
    TextureUse {
        binding: true,
        copy_dst: false,
        copy_src: true,
        attachment: true,
        storage: false,
    }
}

/// Written by a compute shader and copied back.
pub open spec fn scratch_use() -> TextureUse {
    TextureUse {
        binding: true,
        copy_dst: true,
        copy_src: true,
        attachment: false,
        storage: true,
    }
}

pub open spec fn sampled_texture(width: u32, height: u32, format: TextureFormat) -> TextureSpec {
    TextureSpec { width, height, format, usage: sampled_use() }
}

fn sampled_texture_of(width: u32, height: u32, format: TextureFormat) -> (t: TextureSpec)
    ensures
        t == sampled_texture(width, height, format),
{
    TextureSpec {
        width,
        height,
        format,
        usage: TextureUse {
            binding: true,
            copy_dst: true,
            copy_src: false,
            attachment: false,
            storage: false,
        },
    }
}

/// The three textures that one camera's planes are bound to.
#[derive(Clone, Copy, Debug, PartialEq, Eq)]
pub struct PlaneTextures {
    pub first: (PlaneName, TextureSpec),
    pub second: (PlaneName, TextureSpec),
    pub third: (PlaneName, TextureSpec),
}

/// The textures of a picture of `width` by `height`. A plane that the format
/// does not have is a single pixel, so that every format binds three textures.
pub open spec fn textures_of(format: InputFormat, width: u32, height: u32) -> PlaneTextures {
    let dummy = sampled_texture(1, 1, TextureFormat::R8Unorm);
    match format {
        InputFormat::Yuv420p => PlaneTextures {
            first: (PlaneName::Y, sampled_texture(width, height, TextureFormat::R8Unorm)),
            second: (
                PlaneName::U,
                sampled_texture(width / 2, height / 2, TextureFormat::R8Unorm),
            ),
            third: (
                PlaneName::V,
                sampled_texture(width / 2, height / 2, TextureFormat::R8Unorm),
            ),
        },
        InputFormat::Nv12 => PlaneTextures {
            first: (PlaneName::Y, sampled_texture(width, height, TextureFormat::R8Unorm)),
            second: (
                PlaneName::Uv,
                sampled_texture(width / 2, height / 2, TextureFormat::Rg8Unorm),
            ),
            third: (PlaneName::VDummy, dummy),
        },
        InputFormat::Bgra => PlaneTextures {
            first: (PlaneName::Rgba, sampled_texture(width, height, TextureFormat::Rgba8Unorm)),
            second: (PlaneName::UDummy, dummy),
            third: (PlaneName::VDummy, dummy),
        },
    }
}

pub fn plane_textures(format: InputFormat, width: u32, height: u32) -> (t: PlaneTextures)
    ensures
        t == textures_of(format, width, height),
{
    let dummy: TextureSpec = sampled_texture_of(1, 1, TextureFormat::R8Unorm);
    match format {
        InputFormat::Yuv420p => {
            let chroma: TextureSpec = sampled_texture_of(
                width / 2,
                height / 2,
                TextureFormat::R8Unorm,
            );
            PlaneTextures {
                first: (PlaneName::Y, sampled_texture_of(width, height, TextureFormat::R8Unorm)),
                second: (PlaneName::U, chroma),
                third: (PlaneName::V, chroma),
            }
        },
        InputFormat::Nv12 => PlaneTextures {
            first: (PlaneName::Y, sampled_texture_of(width, height, TextureFormat::R8Unorm)),
            second: (
                PlaneName::Uv,
                sampled_texture_of(width / 2, height / 2, TextureFormat::Rg8Unorm),
            ),
            third: (PlaneName::VDummy, dummy),
        },
        InputFormat::Bgra => PlaneTextures {
            first: (
                PlaneName::Rgba,
                sampled_texture_of(width, height, TextureFormat::Rgba8Unorm),
            ),
            second: (PlaneName::UDummy, dummy),
            third: (PlaneName::VDummy, dummy),
        },
    }
}

/// A texture that the stitch is drawn to.
pub fn render_target(width: u32, height: u32, format: TextureFormat) -> (t: TextureSpec)
    ensures
        t == (TextureSpec { width, height, format, usage: target_use() }),
{
    TextureSpec {
        width,
        height,
        format,
        usage: TextureUse {
            binding: true,
            copy_dst: false,
            copy_src: true,
            attachment: true,
            storage: false,
        },
    }
}

/// A texture between two passes of the multiband stitch.
pub fn intermediate(width: u32, height: u32, format: TextureFormat) -> (t: TextureSpec)
    ensures
        t == (TextureSpec { width, height, format, usage: intermediate_use() }),
{
    TextureSpec {
        width,
        height,
        format,
        usage: TextureUse {
            binding: true,
            copy_dst: false,
            copy_src: false,
            attachment: true,
            storage: false,
        },
    }
}

/// A texture that a post pass computes into before it is copied back.
pub fn scratch(width: u32, height: u32) -> (t: TextureSpec)
    ensures
        t == (TextureSpec {
            width,
            height,
            format: TextureFormat::Rgba8Unorm,
            usage: scratch_use(),
        }),
{
    TextureSpec {
        width,
        height,
        format: TextureFormat::Rgba8Unorm,
        usage: TextureUse {
            binding: true,
            copy_dst: true,
            copy_src: true,
            attachment: false,
            storage: true,
        },
    }
}

/// What a shader finds at a binding.
#[derive(Clone, Copy, Debug, PartialEq, Eq, Structural)]
pub enum Binding {
    Texture,
    Sampler,
    Uniform,
    StorageRead,
    StorageWrite,
}

/// The groups of bindings that the shaders declare, binding 0 first.
#[derive(Clone, Copy, Debug, PartialEq, Eq, Structural)]
pub enum BindGroup {
    /// One camera's planes.
    Planes,
    /// One block of uniforms.
    Uniforms,
    /// The source of a blur.
    BlurSource,
    /// What the multiband composite reads.
    CompositeSources,
    /// What the gather shader reads and writes.
    Gather,
    /// An overlay, its sampler and its parameters.
    Overlay,
}

impl BindGroup {
    pub open spec fn declared(self) -> Seq<Binding> {
        match self {
            BindGroup::Planes => seq![
                Binding::Texture,
                Binding::Texture,
                Binding::Texture,
                Binding::Sampler,
            ],
            BindGroup::Uniforms => seq![Binding::Uniform],
            BindGroup::BlurSource => seq![Binding::Texture, Binding::Sampler],
            BindGroup::CompositeSources => seq![
                Binding::Texture,
                Binding::Texture,
                Binding::Texture,
                Binding::Texture,
                Binding::Texture,
                Binding::Sampler,
            ],
            BindGroup::Gather => seq![
                Binding::Texture,
                Binding::Texture,
                Binding::StorageRead,
                Binding::StorageWrite,
                Binding::Uniform,
            ],
            BindGroup::Overlay => seq![Binding::Texture, Binding::Sampler, Binding::Uniform],
        }
    }

    pub fn bindings(self) -> (b: Vec<Binding>)
        ensures
            b@ == self.declared(),
    {
        let mut b: Vec<Binding> = Vec::new();
        match self {
            BindGroup::Planes => {
                b.push(Binding::Texture);
                b.push(Binding::Texture);
                b.push(Binding::Texture);
                b.push(Binding::Sampler);
            },
            BindGroup::Uniforms => {
                b.push(Binding::Uniform);
            },
            BindGroup::BlurSource => {
                b.push(Binding::Texture);
                b.push(Binding::Sampler);
            },
            BindGroup::CompositeSources => {
                b.push(Binding::Texture);
                b.push(Binding::Texture);
                b.push(Binding::Texture);
                b.push(Binding::Texture);
                b.push(Binding::Texture);
                b.push(Binding::Sampler);
            },
            BindGroup::Gather => {
                b.push(Binding::Texture);
                b.push(Binding::Texture);
                b.push(Binding::StorageRead);
                b.push(Binding::StorageWrite);
                b.push(Binding::Uniform);
            },
            BindGroup::Overlay => {
                b.push(Binding::Texture);
                b.push(Binding::Sampler);
                b.push(Binding::Uniform);
            },
        }
        b
    }
}

/// The shader programs of the renderers.
#[derive(Clone, Copy, Debug, PartialEq, Eq, Structural)]
pub enum ShaderProgram {
    /// Draws a camera's plane.
    Plane,
    /// Blurs a texture in one direction.
    Blur,
    /// Joins the multiband stitch.
    Composite,
    /// Draws an overlay.
    Overlay,
    /// Reads the seam band; the only one that draws nothing.
    Gather,
}

impl ShaderProgram {
    pub open spec fn declared_groups(self) -> Seq<BindGroup> {
        match self {
            ShaderProgram::Plane => seq![BindGroup::Planes, BindGroup::Uniforms],
            ShaderProgram::Blur => seq![BindGroup::BlurSource, BindGroup::Uniforms],
            ShaderProgram::Composite => seq![BindGroup::CompositeSources, BindGroup::Uniforms],
            ShaderProgram::Overlay => seq![BindGroup::Overlay],
            ShaderProgram::Gather => seq![BindGroup::Gather],
        }
    }

    /// The groups of bindings that the program reads, group 0 first.
    pub fn groups(self) -> (g: Vec<BindGroup>)
        ensures
            g@ == self.declared_groups(),
    {
        let mut g: Vec<BindGroup> = Vec::new();
        match self {
            ShaderProgram::Plane => {
                g.push(BindGroup::Planes);
                g.push(BindGroup::Uniforms);
            },
            ShaderProgram::Blur => {
                g.push(BindGroup::BlurSource);
                g.push(BindGroup::Uniforms);
            },
            ShaderProgram::Composite => {
                g.push(BindGroup::CompositeSources);
                g.push(BindGroup::Uniforms);
            },
            ShaderProgram::Overlay => {
                g.push(BindGroup::Overlay);
            },
            ShaderProgram::Gather => {
                g.push(BindGroup::Gather);
            },
        }
        g
    }

    /// How many vertices it draws: a plane is two triangles, everything else
    /// one that covers the target.
    pub fn vertices(self) -> (n: u32)
        ensures
            n == match self {
                ShaderProgram::Plane => 6int,
                ShaderProgram::Gather => 0int,
                _ => 3int,
            },
    {
        match self {
            ShaderProgram::Plane => 6,
            ShaderProgram::Gather => 0,
            _ => 3,
        }
    }
}

/// A corner of the plane that a camera's picture is shown on.
#[derive(Clone, Copy, Debug)]
pub struct Vertex {
    pub position: [Scalar; 3],
    pub uv: [Scalar; 2],
}

/// The bytes of a vertex, and where its texture coordinate starts.
pub const VERTEX_STRIDE: u64 = 20;

pub const VERTEX_UV_OFFSET: u64 = 12;

/// The words of a vertex, as the shader reads them.
pub open spec fn vertex_words(x: Scalar, y: Scalar, u: u32, v: u32) -> Seq<u32> {
    seq![x.bits, y.bits, ZERO, u, v]
}

/// The words of two triangles that make up a plane of width one and the given
/// half height, centred at the origin. The picture's top is at the top.
pub open spec fn quad_words(half_height: Scalar) -> Seq<u32> {
    let right = Scalar { bits: HALF };
    let left = right.spec_negated();
    let top = half_height;
    let bottom = half_height.spec_negated();
    vertex_words(left, bottom, ZERO, ONE) + vertex_words(right, bottom, ONE, ONE) + vertex_words(
        right,
        top,
        ONE,
        ZERO,
    ) + vertex_words(left, bottom, ZERO, ONE) + vertex_words(right, top, ONE, ZERO) + vertex_words(
        left,
        top,
        ZERO,
        ZERO,
    )
}

fn corner(x: Scalar, y: Scalar, u: u32, v: u32) -> (c: Vertex)
    ensures
        c.position@ == seq![x, y, Scalar { bits: ZERO }],
        c.uv@ == seq![Scalar { bits: u }, Scalar { bits: v }],
{
    let c = Vertex {
        position: [x, y, Scalar { bits: ZERO }],
        uv: [Scalar { bits: u }, Scalar { bits: v }],
    };
    c
}

/// The corners of the two triangles that make a plane of width one and of the given
/// aspect, in drawing order.
pub fn quad_vertices<M: SceneMath>(aspect: Scalar, math: &M) -> (vs: Vec<Vertex>)
    ensures
        vs@.len() == 6,
        exists|half_height: Scalar|
            {
                &&& #[trigger] call_ensures(
                    M::divided,
                    (math, Scalar { bits: HALF }, aspect),
                    half_height,
                )
                &&& corner_words(vs@, 6) == quad_words(half_height)
            },
{
    let half_height: Scalar = math.divided(Scalar { bits: HALF }, aspect);
    let right = Scalar { bits: HALF };
    let left: Scalar = right.negated();
    let bottom: Scalar = half_height.negated();
    let mut vs: Vec<Vertex> = Vec::new();
    vs.push(corner(left, bottom, ZERO, ONE));
    vs.push(corner(right, bottom, ONE, ONE));
    vs.push(corner(right, half_height, ONE, ZERO));
    vs.push(corner(left, bottom, ZERO, ONE));
    vs.push(corner(right, half_height, ONE, ZERO));
    vs.push(corner(left, half_height, ZERO, ZERO));
    proof {
        reveal_with_fuel(corner_words, 7);
    }
    vs
}

/// The words of the first `n` vertices.
pub open spec fn corner_words(vs: Seq<Vertex>, n: nat) -> Seq<u32>
    decreases n,
{
    if n == 0 {
        Seq::empty()
    } else {
        let c = vs[n - 1];
        corner_words(vs, (n - 1) as nat) + seq![
            c.position[0].bits,
            c.position[1].bits,
            c.position[2].bits,
            c.uv[0].bits,
            c.uv[1].bits,
        ]
    }
}

/// The vertices as the bytes of a vertex buffer.
pub fn vertex_bytes(vs: &Vec<Vertex>) -> (bytes: Vec<u8>)
    ensures
        crate::bytes::encodes(corner_words(vs@, vs@.len()), bytes@),
{
    let mut words: Vec<u32> = Vec::new();
    let mut i: usize = 0;
    while i < vs.len()
        invariant
            i <= vs@.len(),
            words@ == corner_words(vs@, i as nat),
        decreases vs@.len() - i,
    {
        let c: Vertex = vs[i];
        words.push(c.position[0].bits);
        words.push(c.position[1].bits);
        words.push(c.position[2].bits);
        words.push(c.uv[0].bits);
        words.push(c.uv[1].bits);
        i += 1;
    }
    crate::bytes::words_to_bytes(words.as_slice())
}

/// Every format binds three textures and a sampler.
pub proof fn every_format_binds_three_textures(format: InputFormat, width: u32, height: u32)
    ensures
        textures_of(format, width, height).first.1.usage == sampled_use(),
        textures_of(format, width, height).second.1.usage == sampled_use(),
        textures_of(format, width, height).third.1.usage == sampled_use(),
        BindGroup::Planes.declared().len() == 4,
{
}

} // verus!
