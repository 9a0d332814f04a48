//! Core of a two-camera stitching pipeline: frame planes, overlays, the render
//! plan of the stitch passes, detection merging and look-ahead buffering.
//!
//! Real numbers travel through the library as bit patterns (`scalar`): the
//! library orders, clamps and routes them, and the arithmetic on them is done
//! by its caller.

pub mod async_detect;
pub mod band_gather;
pub mod bytes;
pub mod calibration;
pub mod color_match;
pub mod detect_laws;
pub mod device_laws;
pub mod drawing_laws;
pub mod executor;
pub mod frame_buffer;
pub mod frame_laws;
pub mod gather_laws;
pub mod layer_laws;
pub mod layer_math;
pub mod match_laws;
pub mod message_laws;
pub mod nv12_readback;
pub mod number_laws;
pub mod overlay;
pub mod overlay_layers;
pub mod panner;
pub mod panning_laws;
pub mod pause_laws;
pub mod pause_overlay;
pub mod pipeline;
pub mod plane_laws;
pub mod planes;
pub mod reading_laws;
pub mod renderer;
pub mod resources;
pub mod scalar;
pub mod scene;
pub mod scene_laws;
pub mod setting_laws;
pub mod single_camera;
pub mod source_laws;
pub mod stitch_laws;
pub mod text;
pub mod viewport;
pub mod world;
