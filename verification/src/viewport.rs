//! The size and look of the output.

use crate::scalar::{Scalar, ONE, ZERO};
use crate::text::{append_dims, dims_text};
use crate::world::ViewportPosition;
use vstd::prelude::*;
use vstd::string::StringExecFns;

verus! {

/// The bits of 75.0.
pub const FOV_DEFAULT: u32 = 0x4296_0000;

/// The bits of 179.0.
pub const FOV_LIMIT: u32 = 0x4333_0000;

/// The bits of 0.05.
pub const BLEND_WIDTH_DEFAULT: u32 = 0x3d4c_cccd;

/// The bits of 0.15.
pub const BAND_WIDTH_DEFAULT: u32 = 0x3e19_999a;

/// The bits of 0.06.
pub const MAX_Y_OFFSET_DEFAULT: u32 = 0x3d75_c28f;

/// The bits of 0.04.
pub const MAX_CHROMA_OFFSET_DEFAULT: u32 = 0x3d23_d70a;

#[derive(Clone, Copy, Debug, PartialEq, Eq, Structural)]
pub struct ViewportConfig {
    pub width: u32,
    pub height: u32,
    pub fov_degrees: Scalar,
    pub blend_width: Scalar,
    pub blend_flip_direction: bool,
    pub rig_tilt: Scalar,
    pub rig_roll: Scalar,
    pub lens_correction_amount: Scalar,
    pub color_match_enabled: bool,
    pub color_match_band_width: Scalar,
    pub color_match_grid_cols: u32,
    pub color_match_grid_rows: u32,
    pub color_match_interval_frames: u32,
    pub color_match_ema_alpha: Scalar,
    pub color_match_max_y_offset: Scalar,
    pub color_match_max_chroma_offset: Scalar,
    pub multiband_blend_enabled: bool,
}

impl Default for ViewportConfig {
    fn default() -> (c: ViewportConfig)
        ensures
            c == default_viewport(),
    {
        ViewportConfig {
            width: 1920,
            height: 1080,
            fov_degrees: Scalar { bits: FOV_DEFAULT },
            blend_width: Scalar { bits: BLEND_WIDTH_DEFAULT },
            blend_flip_direction: false,
            rig_tilt: Scalar { bits: ZERO },
            rig_roll: Scalar { bits: ZERO },
            lens_correction_amount: Scalar { bits: ONE },
            color_match_enabled: true,
            color_match_band_width: Scalar { bits: BAND_WIDTH_DEFAULT },
            color_match_grid_cols: 8,
            color_match_grid_rows: 16,
            color_match_interval_frames: 15,
            color_match_ema_alpha: Scalar { bits: BAND_WIDTH_DEFAULT },
            color_match_max_y_offset: Scalar { bits: MAX_Y_OFFSET_DEFAULT },
            color_match_max_chroma_offset: Scalar { bits: MAX_CHROMA_OFFSET_DEFAULT },
            multiband_blend_enabled: false,
        }
    }
}

/// A full HD output, seen at 75 degrees, with colour matching every fifteen
/// frames on a grid of eight by sixteen.
pub open spec fn default_viewport() -> ViewportConfig {
    ViewportConfig {
        width: 1920,
        height: 1080,
        fov_degrees: Scalar { bits: FOV_DEFAULT },
        blend_width: Scalar { bits: BLEND_WIDTH_DEFAULT },
        blend_flip_direction: false,
        rig_tilt: Scalar { bits: ZERO },
        rig_roll: Scalar { bits: ZERO },
        lens_correction_amount: Scalar { bits: ONE },
        color_match_enabled: true,
        color_match_band_width: Scalar { bits: BAND_WIDTH_DEFAULT },
        color_match_grid_cols: 8,
        color_match_grid_rows: 16,
        color_match_interval_frames: 15,
        color_match_ema_alpha: Scalar { bits: BAND_WIDTH_DEFAULT },
        color_match_max_y_offset: Scalar { bits: MAX_Y_OFFSET_DEFAULT },
        color_match_max_chroma_offset: Scalar { bits: MAX_CHROMA_OFFSET_DEFAULT },
        multiband_blend_enabled: false,
    }
}

/// What is wrong with a viewport.
#[derive(Clone, Copy, Debug, PartialEq, Eq, Structural)]
pub enum ViewportError {
    Dimensions { width: u32, height: u32 },
    Fov(Scalar),
    BlendWidth(Scalar),
}

impl ViewportError {
    pub open spec fn text(self, shown: Seq<char>) -> Seq<char> {
        match self {
            ViewportError::Dimensions { width, height } =>
                "viewport dimensions must be non-zero, got "@ + dims_text(
                width as nat,
                height as nat,
            ),
            ViewportError::Fov(_) => "fov_degrees must be in (1, 179), got "@ + shown,
            ViewportError::BlendWidth(_) => "blend_width must be in [0, 1], got "@ + shown,
        }
    }

    /// The message, with the offending number as it is to be `shown`.
    pub fn message(&self, shown: &str) -> (m: String)
        ensures
            m@ == self.text(shown@),
    {
        match self {
            ViewportError::Dimensions { width, height } => {
                let mut m: String = "viewport dimensions must be non-zero, got ".to_owned();
                append_dims(&mut m, *width as u64, *height as u64);
                m
            },
            ViewportError::Fov(_) => {
                let mut m: String = "fov_degrees must be in (1, 179), got ".to_owned();
                m.append(shown);
                m
            },
            ViewportError::BlendWidth(_) => {
                let mut m: String = "blend_width must be in [0, 1], got ".to_owned();
                m.append(shown);
                m
            },
        }
    }
}

impl ViewportConfig {
    /// The first thing that is wrong, if anything.
    pub open spec fn fault(self) -> Option<ViewportError> {
        if self.width == 0 || self.height == 0 {
            Some(ViewportError::Dimensions { width: self.width, height: self.height })
        } else if !((Scalar { bits: ONE }).at_most(self.fov_degrees) && self.fov_degrees.below(
            Scalar { bits: FOV_LIMIT },
        )) {
            Some(ViewportError::Fov(self.fov_degrees))
        } else if !((Scalar { bits: ZERO }).at_most(self.blend_width) && self.blend_width.at_most(
            Scalar { bits: ONE },
        )) {
            Some(ViewportError::BlendWidth(self.blend_width))
        } else {
            None
        }
    }

    pub fn validate(&self) -> (r: Result<(), ViewportError>)
        ensures
            r is Ok <==> self.fault() is None,
            r matches Err(e) ==> self.fault() == Some(e),
    {
        if self.width == 0 || self.height == 0 {
            return Err(ViewportError::Dimensions { width: self.width, height: self.height });
        }
        let one = Scalar { bits: ONE };
        if !(one.le(self.fov_degrees) && self.fov_degrees.lt(Scalar { bits: FOV_LIMIT })) {
            return Err(ViewportError::Fov(self.fov_degrees));
        }
        let zero = Scalar { bits: ZERO };
        if !(zero.le(self.blend_width) && self.blend_width.le(one)) {
            return Err(ViewportError::BlendWidth(self.blend_width));
        }
        Ok(())
    }

    /// Width over height as `ratio` divides them, or one where there is no
    /// height.
    pub fn aspect_ratio<R: Fn(u32, u32) -> Scalar>(&self, ratio: &R) -> (a: Scalar)
        requires
            self.height != 0 ==> call_requires(*ratio, (self.width, self.height)),
        ensures
            self.height == 0 ==> a == (Scalar { bits: ONE }),
            self.height != 0 ==> call_ensures(*ratio, (self.width, self.height), a),
    {
        if self.height == 0 {
            Scalar { bits: ONE }
        } else {
            ratio(self.width, self.height)
        }
    }
}

/// An output and where it looks.
#[derive(Clone, Copy, Debug)]
pub struct ResolvedViewport {
    pub config: ViewportConfig,
    pub position: ViewportPosition,
}

} // verus!
