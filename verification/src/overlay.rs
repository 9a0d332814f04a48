//! RGBA overlays and the state of the compositor that draws them.

use crate::bytes::{encodes, words_to_bytes};
use crate::scalar::{Scalar, ONE, ZERO};
use crate::text::{append_decimal, append_dims, decimal, dims_text};
use vstd::prelude::*;
use vstd::string::StringExecFns;

verus! {

/// The bytes of an overlay's parameters.
pub const PARAMS_BYTES: u64 = 32;

/// One overlay image: straight-alpha RGBA, eight bits to the channel, rows
/// without padding, top row first.
#[derive(Debug, PartialEq, Eq)]
pub struct OverlayFrame {
    pub width: u32,
    pub height: u32,
    /// The size the image was designed for, which placement goes by.
    pub design_size: (u32, u32),
    pub rgba: Vec<u8>,
}

impl Clone for OverlayFrame {
    fn clone(&self) -> (f: OverlayFrame)
        ensures
            f.same(*self),
    {
        let rgba: Vec<u8> = self.rgba.clone();
        OverlayFrame {
            width: self.width,
            height: self.height,
            design_size: self.design_size,
            rgba,
        }
    }
}

#[derive(Clone, Debug)]
pub enum OverlayError {
    InvalidFrame(String),
}

impl OverlayError {
    pub open spec fn text(self) -> Seq<char> {
        match self {
            OverlayError::InvalidFrame(m) => "invalid overlay frame: "@ + m@,
        }
    }

    pub fn message(&self) -> (m: String)
        ensures
            m@ == self.text(),
    {
        let mut m: String = "invalid overlay frame: ".to_owned();
        match self {
            OverlayError::InvalidFrame(inner) => {
                m.append(inner.as_str());
            },
        }
        m
    }
}

impl OverlayFrame {
    /// The two are the same image.
    pub open spec fn same(self, other: OverlayFrame) -> bool {
        &&& self.width == other.width
        &&& self.height == other.height
        &&& self.design_size == other.design_size
        &&& self.rgba@ == other.rgba@
    }

    pub open spec fn pixels(self) -> nat {
        self.width as nat * self.height as nat
    }

    /// What is wrong with the frame, if anything.
    pub open spec fn fault(self) -> Option<Seq<char>> {
        if self.width == 0 || self.height == 0 {
            Some("overlay dimensions must be non-zero"@)
        } else if self.design_size.0 == 0 || self.design_size.1 == 0 {
            Some("overlay design_size must be non-zero"@)
        } else if self.pixels() * 4 > u32::MAX {
            Some("overlay dimensions overflow"@)
        } else if self.rgba@.len() != self.pixels() * 4 {
            Some(
                "expected "@ + decimal(self.pixels() * 4) + " RGBA bytes for "@ + dims_text(
                    self.width as nat,
                    self.height as nat,
                ) + ", got "@ + decimal(self.rgba@.len()),
            )
        } else {
            None
        }
    }

    /// Refuses a frame that is empty, was designed for nothing, is too large to
    /// address, or does not hold four bytes for every pixel.
    pub fn validate(&self) -> (r: Result<(), OverlayError>)
        ensures
            r is Ok <==> self.fault() is None,
            r matches Err(OverlayError::InvalidFrame(m)) ==> self.fault() == Some(m@),
    {
        if self.width == 0 || self.height == 0 {
            return Err(
                OverlayError::InvalidFrame("overlay dimensions must be non-zero".to_owned()),
            );
        }
        if self.design_size.0 == 0 || self.design_size.1 == 0 {
            return Err(
                OverlayError::InvalidFrame("overlay design_size must be non-zero".to_owned()),
            );
        }
        let expected: u32 = match self.width.checked_mul(self.height) {
            Some(pixels) => match pixels.checked_mul(4) {
                Some(bytes) => bytes,
                None => {
                    return Err(
                        OverlayError::InvalidFrame("overlay dimensions overflow".to_owned()),
                    );
                },
            },
            None => {
                return Err(OverlayError::InvalidFrame("overlay dimensions overflow".to_owned()));
            },
        };
        if self.rgba.len() != expected as usize {
            let mut m: String = "expected ".to_owned();
            append_decimal(&mut m, expected as u64);
            m.append(" RGBA bytes for ");
            append_dims(&mut m, self.width as u64, self.height as u64);
            m.append(", got ");
            append_decimal(&mut m, self.rgba.len() as u64);
            return Err(OverlayError::InvalidFrame(m));
        }
        Ok(())
    }
}

/// Hands out overlay images as they change.
pub trait OverlayFrameSource: Send {
    /// The next image, or none where nothing changed.
    fn try_frame(&mut self) -> Result<Option<OverlayFrame>, String>;
}

/// A full-screen card that is faded in and out.
pub trait OverlayTransitionSource: Send {
    fn card(&self) -> &OverlayFrame;

    /// The opacity at the next frame.
    fn advance(&mut self) -> Scalar;
}

/// Where an overlay stands: its centre's offset from the output's centre, in
/// fractions of the output, and its size relative to the largest that fits.
#[derive(Clone, Copy, Debug, PartialEq, Eq)]
pub struct OverlayPlacement {
    pub offset: (Scalar, Scalar),
    pub scale: Scalar,
}

pub open spec fn centred() -> OverlayPlacement {
    OverlayPlacement {
        offset: (Scalar { bits: ZERO }, Scalar { bits: ZERO }),
        scale: Scalar { bits: ONE },
    }
}

impl Default for OverlayPlacement {
    fn default() -> (p: OverlayPlacement)
        ensures
            p == centred(),
    {
        OverlayPlacement {
            offset: (Scalar { bits: ZERO }, Scalar { bits: ZERO }),
            scale: Scalar { bits: ONE },
        }
    }
}

/// The arithmetic of fitting an image into an output, which is done on numbers.
pub trait FitMath {
    /// The quotient of two counts.
    fn quotient(&self, a: u32, b: u32) -> Scalar;

    fn product(&self, a: Scalar, b: Scalar) -> Scalar;
}

/// `scale` is that of an image that is as large as the output can contain, times
/// the scale of its placement.
pub open spec fn contained<M: FitMath>(
    math: M,
    design_size: (u32, u32),
    output_size: (u32, u32),
    placement: OverlayPlacement,
    scale: Scalar,
) -> bool {
    exists|x: Scalar, y: Scalar|
        {
            &&& #[trigger] call_ensures(M::quotient, (&math, output_size.0, design_size.0), x)
            &&& #[trigger] call_ensures(M::quotient, (&math, output_size.1, design_size.1), y)
            &&& call_ensures(M::product, (&math, x.spec_min(y), placement.scale), scale)
        }
}

/// `scale` is how large an image of this design comes out. One without extent
/// has only the scale of its placement.
pub open spec fn fitted<M: FitMath>(
    math: M,
    design_size: (u32, u32),
    output_size: (u32, u32),
    placement: OverlayPlacement,
    scale: Scalar,
) -> bool {
    if design_size.0 == 0 || design_size.1 == 0 {
        scale == placement.scale
    } else {
        contained(math, design_size, output_size, placement, scale)
    }
}

pub fn contain_fit_render_scale<M: FitMath>(
    design_size: (u32, u32),
    output_size: (u32, u32),
    placement: OverlayPlacement,
    math: &M,
) -> (scale: Scalar)
    ensures
        fitted(*math, design_size, output_size, placement, scale),
{
    if design_size.0 == 0 || design_size.1 == 0 {
        return placement.scale;
    }
    let x: Scalar = math.quotient(output_size.0, design_size.0);
    let y: Scalar = math.quotient(output_size.1, design_size.1);
    let scale: Scalar = math.product(x.min(y), placement.scale);
    scale
}

/// By what a colour is weighted when an overlay is drawn.
#[derive(Clone, Copy, Debug, PartialEq, Eq, Structural)]
pub enum BlendFactor {
    One,
    SrcAlpha,
    OneMinusSrcAlpha,
}

/// The sum of the source and the destination under their factors.
#[derive(Clone, Copy, Debug, PartialEq, Eq, Structural)]
pub struct BlendSum {
    pub src_factor: BlendFactor,
    pub dst_factor: BlendFactor,
}

/// How a straight-alpha image is drawn over an opaque or transparent one: the
/// colour is weighted by its alpha, the alpha itself accumulates.
#[derive(Clone, Copy, Debug, PartialEq, Eq, Structural)]
pub struct AlphaBlend {
    pub color: BlendSum,
    pub alpha: BlendSum,
}

pub fn straight_alpha_blend() -> (b: AlphaBlend)
    ensures
        b.color == (BlendSum {
            src_factor: BlendFactor::SrcAlpha,
            dst_factor: BlendFactor::OneMinusSrcAlpha,
        }),
        b.alpha == (BlendSum {
            src_factor: BlendFactor::One,
            dst_factor: BlendFactor::OneMinusSrcAlpha,
        }),
{
    AlphaBlend {
        color: BlendSum {
            src_factor: BlendFactor::SrcAlpha,
            dst_factor: BlendFactor::OneMinusSrcAlpha,
        },
        alpha: BlendSum {
            src_factor: BlendFactor::One,
            dst_factor: BlendFactor::OneMinusSrcAlpha,
        },
    }
}

/// What has to be done on the device to show a frame.
#[derive(Clone, Copy, Debug, PartialEq, Eq, Structural)]
pub struct UploadPlan {
    /// The texture has another size and is made anew, with its bind group.
    pub recreate_texture: bool,
    /// The parameters changed and are written again.
    pub write_params: bool,
    pub width: u32,
    pub height: u32,
    pub bytes_per_row: u32,
}

/// The state of a compositor of one overlay: the texture it holds and the
/// parameters it draws it with.
#[derive(Clone, Copy, Debug, PartialEq, Eq)]
pub struct RgbaOverlayCompositor {
    pub reference_size: (u32, u32),
    pub texture_size: (u32, u32),
    pub output_size: (u32, u32),
    pub placement: OverlayPlacement,
    pub opacity: Scalar,
}

impl RgbaOverlayCompositor {
    /// The compositor once a valid `frame` has been uploaded.
    pub open spec fn showing(self, frame: OverlayFrame) -> RgbaOverlayCompositor {
        RgbaOverlayCompositor {
            reference_size: frame.design_size,
            texture_size: (frame.width, frame.height),
            ..self
        }
    }

    /// A compositor for `frame`, fully opaque and centred, and the upload that
    /// fills its texture. A frame that is not valid is refused.
    pub fn new(output_size: (u32, u32), frame: &OverlayFrame) -> (r: Result<
        (RgbaOverlayCompositor, UploadPlan),
        OverlayError,
    >)
        ensures
            r is Ok <==> frame.fault() is None,
            r matches Err(OverlayError::InvalidFrame(m)) ==> frame.fault() == Some(m@),
            r matches Ok((c, plan)) ==> {
                &&& c == (RgbaOverlayCompositor {
                    reference_size: frame.design_size,
                    texture_size: (frame.width, frame.height),
                    output_size,
                    placement: centred(),
                    opacity: Scalar { bits: ONE },
                })
                &&& plan == (UploadPlan {
                    recreate_texture: false,
                    write_params: false,
                    width: frame.width,
                    height: frame.height,
                    bytes_per_row: (frame.width * 4) as u32,
                })
            },
    {
        let mut compositor = RgbaOverlayCompositor {
            reference_size: frame.design_size,
            texture_size: (frame.width, frame.height),
            output_size,
            placement: OverlayPlacement::default(),
            opacity: Scalar { bits: ONE },
        };
        match compositor.upload(frame) {
            Ok(plan) => Ok((compositor, plan)),
            Err(e) => Err(e),
        }
    }

    /// Takes the size and design size of a new frame. A frame that is not valid
    /// is refused and changes nothing.
    pub fn upload(&mut self, frame: &OverlayFrame) -> (r: Result<UploadPlan, OverlayError>)
        ensures
            r is Ok <==> frame.fault() is None,
            r matches Err(OverlayError::InvalidFrame(m)) ==> frame.fault() == Some(m@),
            r is Err ==> *final(self) == *old(self),
            r matches Ok(plan) ==> {
                &&& *final(self) == old(self).showing(*frame)
                &&& plan == (UploadPlan {
                    recreate_texture: old(self).texture_size != (frame.width, frame.height),
                    write_params: old(self).reference_size != frame.design_size,
                    width: frame.width,
                    height: frame.height,
                    bytes_per_row: (frame.width * 4) as u32,
                })
            },
    {
        match frame.validate() {
            Ok(()) => {},
            Err(e) => {
                return Err(e);
            },
        }
        assert(frame.width * 4 <= frame.pixels() * 4) by (nonlinear_arith)
            requires
                frame.pixels() == frame.width * frame.height,
                frame.height >= 1,
                frame.width >= 0,
        ;
        let recreate_texture: bool = self.texture_size.0 != frame.width || self.texture_size.1
            != frame.height;
        let write_params: bool = self.reference_size.0 != frame.design_size.0
            || self.reference_size.1 != frame.design_size.1;
        self.texture_size = (frame.width, frame.height);
        self.reference_size = frame.design_size;
        Ok(
            UploadPlan {
                recreate_texture,
                write_params,
                width: frame.width,
                height: frame.height,
                bytes_per_row: frame.width * 4,
            },
        )
    }

    /// Takes the size of a resized output; the parameters are to be written.
    pub fn resize(&mut self, output_size: (u32, u32))
        ensures
            *final(self) == (RgbaOverlayCompositor { output_size, ..*old(self) }),
    {
        self.output_size = output_size;
    }

    /// Moves the overlay; the parameters are to be written.
    pub fn set_placement(&mut self, placement: OverlayPlacement)
        ensures
            *final(self) == (RgbaOverlayCompositor { placement, ..*old(self) }),
    {
        self.placement = placement;
    }

    /// Sets the opacity, held to `[0, 1]`, and says whether the parameters are
    /// to be written.
    pub fn set_opacity(&mut self, opacity: Scalar) -> (write_params: bool)
        ensures
            ({
                let held = opacity.spec_clamp(Scalar { bits: ZERO }, Scalar { bits: ONE });
                &&& write_params == !old(self).opacity.equals(held)
                &&& *final(self) == if write_params {
                    RgbaOverlayCompositor { opacity: held, ..*old(self) }
                } else {
                    *old(self)
                }
            }),
    {
        let held: Scalar = opacity.clamp(Scalar { bits: ZERO }, Scalar { bits: ONE });
        if self.opacity.eq_number(held) {
            return false;
        }
        self.opacity = held;
        true
    }

    /// The parameters in the order in which the shader reads them. `reference`
    /// and `output` are the two sizes as numbers.
    pub open spec fn params(self, reference: [Scalar; 2], output: [Scalar; 2]) -> Seq<u32> {
        seq![
            reference[0].bits,
            reference[1].bits,
            output[0].bits,
            output[1].bits,
            self.placement.offset.0.bits,
            self.placement.offset.1.bits,
            self.placement.scale.bits,
            self.opacity.bits,
        ]
    }

    /// The parameters as the bytes of a uniform buffer.
    pub fn params_bytes(&self, reference: [Scalar; 2], output: [Scalar; 2]) -> (bytes: Vec<u8>)
        ensures
            encodes(self.params(reference, output), bytes@),
            bytes@.len() == PARAMS_BYTES,
    {
        words_to_bytes(self.params_words(reference, output).as_slice())
    }

    pub fn params_words(&self, reference: [Scalar; 2], output: [Scalar; 2]) -> (w: [u32; 8])
        ensures
            w@ == self.params(reference, output),
    {
        let w: [u32; 8] = [
            reference[0].bits,
            reference[1].bits,
            output[0].bits,
            output[1].bits,
            self.placement.offset.0.bits,
            self.placement.offset.1.bits,
            self.placement.scale.bits,
            self.opacity.bits,
        ];
        w
    }
}

/// A frame of the size and design of the one shown needs neither a new texture
/// nor new parameters.
pub proof fn repeated_upload_only_rewrites_pixels(
    state: RgbaOverlayCompositor,
    first: OverlayFrame,
    second: OverlayFrame,
)
    requires
        first.width == second.width,
        first.height == second.height,
        first.design_size == second.design_size,
    ensures
        state.showing(first).texture_size == (second.width, second.height),
        state.showing(first).reference_size == second.design_size,
        state.showing(first).showing(second) == state.showing(first),
{
}

} // verus!
