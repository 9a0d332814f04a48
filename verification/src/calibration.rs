//! The calibrated rig: two lenses, how their image planes stand to each other,
//! and how the result is framed.

use crate::scalar::{Scalar, Wide};
use vstd::prelude::*;

verus! {

/// A fisheye lens and the images it was calibrated on.
#[derive(Clone, Copy, Debug, PartialEq, Eq)]
pub struct Lens {
    pub width: u32,
    pub height: u32,
    pub fx: Wide,
    pub fy: Wide,
    pub cx: Wide,
    pub cy: Wide,
    pub distortion: [Wide; 4],
    /// How much of the lens correction is applied, from 0 to 1.
    pub correction: Scalar,
}

/// How the two image planes meet, and how their pictures are matched.
#[derive(Clone, Copy, Debug, PartialEq, Eq, Structural)]
pub struct Topology {
    pub intersect: Wide,
    pub x_ty: Wide,
    pub x_rz: Wide,
    pub z_rx: Wide,
    pub x_rx: Wide,
    pub z_rz: Wide,
    pub blend_width: Scalar,
    pub blend_flip_direction: bool,
    pub seam_offset: Scalar,
    pub multiband_blend_enabled: bool,
    pub color_match_enabled: bool,
    pub color_match_band_width: Scalar,
    pub color_match_grid_cols: u32,
    pub color_match_grid_rows: u32,
    pub color_match_interval_frames: u32,
    pub color_match_ema_alpha: Scalar,
    pub color_match_max_y_offset: Scalar,
    pub color_match_max_chroma_offset: Scalar,
    pub color_gamma_left: Scalar,
    pub color_gamma_right: Scalar,
    pub color_match_auto_gamma: bool,
    pub color_grade_brightness: Scalar,
    pub color_grade_saturation: Scalar,
    pub color_grade_gamma: Scalar,
    pub sharpen_amount: Scalar,
    pub sharpen_radius: Scalar,
    pub ground_tilt_x: Wide,
    pub ground_tilt_z: Wide,
    pub top_tilt_x: Wide,
    pub top_tilt_z: Wide,
    pub ground_tilt_band_width: Wide,
    pub top_tilt_band_width: Wide,
}

/// Where the virtual camera stands and how it is levelled.
#[derive(Clone, Copy, Debug, PartialEq, Eq, Structural)]
pub struct Framing {
    pub axis_offset: Wide,
    pub tilt: Wide,
    pub roll: Wide,
}

#[derive(Debug)]
pub struct Calibration {
    pub lenses: Vec<Lens>,
    pub topology: Topology,
    pub framing: Framing,
}

impl Calibration {
    /// The two hold the same values.
    pub open spec fn same(self, other: Calibration) -> bool {
        &&& self.lenses@ == other.lenses@
        &&& self.topology == other.topology
        &&& self.framing == other.framing
    }
}

impl Clone for Calibration {
    fn clone(&self) -> (c: Calibration)
        ensures
            c.same(*self),
    {
        let lenses: Vec<Lens> = self.lenses.clone();
        Calibration { lenses, topology: self.topology, framing: self.framing }
    }
}

/// Why a calibration cannot be used.
#[derive(Clone, Debug)]
pub struct CalibrationError {
    pub reason: String,
}

} // verus!
