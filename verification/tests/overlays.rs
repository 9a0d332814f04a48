//! Overlay frames, their compositor, and layers over each other.

use reco_core::layer_math::LayerMath;
use reco_core::overlay::{
    straight_alpha_blend, BlendFactor, FitMath, OverlayError, OverlayFrame, OverlayFrameSource,
    OverlayPlacement, RgbaOverlayCompositor, PARAMS_BYTES,
};
use reco_core::overlay_layers::{
    blend_pixel, composite_over, footprint, is_fully_transparent, opaque_row_bounds, place,
    LayeredOverlaySource, Pixel, PlaceRequest, Sample,
};
use reco_core::scalar::Scalar;
use std::collections::VecDeque;

fn s(x: f32) -> Scalar {
    Scalar { bits: x.to_bits() }
}

fn f(x: Scalar) -> f32 {
    f32::from_bits(x.bits)
}

fn placement(x: f32, y: f32, scale: f32) -> OverlayPlacement {
    OverlayPlacement {
        offset: (s(x), s(y)),
        scale: s(scale),
    }
}

fn byte(x: f32) -> u8 {
    (x.clamp(0.0, 1.0) * 255.0).round() as u8
}

/// The numbers of drawing, in single precision.
struct Math;

impl FitMath for Math {
    fn quotient(&self, a: u32, b: u32) -> Scalar {
        s(a as f32 / b as f32)
    }

    fn product(&self, a: Scalar, b: Scalar) -> Scalar {
        s(f(a) * f(b))
    }
}

impl LayerMath for Math {
    fn whole(&self, n: u64) -> Scalar {
        s(n as f32)
    }

    fn sum(&self, a: Scalar, b: Scalar) -> Scalar {
        s(f(a) + f(b))
    }

    fn difference(&self, a: Scalar, b: Scalar) -> Scalar {
        s(f(a) - f(b))
    }

    fn ratio(&self, a: Scalar, b: Scalar) -> Scalar {
        s(f(a) / f(b))
    }

    fn floor(&self, x: Scalar) -> u32 {
        f(x).floor() as u32
    }

    fn ceil(&self, x: Scalar) -> u32 {
        f(x).ceil() as u32
    }

    fn nearest(&self, x: Scalar) -> u8 {
        f(x).round() as u8
    }
}

fn draw(canvas: &mut OverlayFrame, source: &OverlayFrame, at: OverlayPlacement, empty: bool) {
    composite_over(canvas, source, at, empty, &Math);
}

fn layered<S: OverlayFrameSource>(
    layers: Vec<(S, OverlayPlacement)>,
    output_size: (u32, u32),
) -> LayeredOverlaySource<S, Math> {
    LayeredOverlaySource::new(layers, output_size, Math)
}

fn solid_frame(width: u32, height: u32, rgba: [u8; 4]) -> OverlayFrame {
    let mut buf = Vec::with_capacity((width * height * 4) as usize);
    for _ in 0..(width * height) {
        buf.extend_from_slice(&rgba);
    }
    OverlayFrame {
        width,
        height,
        design_size: (width, height),
        rgba: buf,
    }
}

fn solid_frame_pre_scaled(
    width: u32,
    height: u32,
    design_size: (u32, u32),
    rgba: [u8; 4],
) -> OverlayFrame {
    OverlayFrame {
        design_size,
        ..solid_frame(width, height, rgba)
    }
}

struct OnceSource(Option<OverlayFrame>);

impl OverlayFrameSource for OnceSource {
    fn try_frame(&mut self) -> Result<Option<OverlayFrame>, String> {
        Ok(self.0.take())
    }
}

struct Queued(VecDeque<Result<Option<OverlayFrame>, String>>);

impl OverlayFrameSource for Queued {
    fn try_frame(&mut self) -> Result<Option<OverlayFrame>, String> {
        match self.0.pop_front() {
            Some(r) => r,
            None => Ok(None),
        }
    }
}

#[test]
fn validates_tightly_packed_rgba() {
    let valid = OverlayFrame {
        width: 2,
        height: 3,
        design_size: (2, 3),
        rgba: vec![0; 24],
    };
    assert!(valid.validate().is_ok());
    let invalid = OverlayFrame {
        rgba: vec![0; 23],
        ..valid
    };
    assert!(invalid.validate().is_err());
}

#[test]
fn rejects_zero_and_overflowing_dimensions() {
    assert!(OverlayFrame {
        width: 0,
        height: 1080,
        design_size: (1920, 1080),
        rgba: Vec::new(),
    }
    .validate()
    .is_err());
    assert!(OverlayFrame {
        width: u32::MAX,
        height: u32::MAX,
        design_size: (u32::MAX, u32::MAX),
        rgba: Vec::new(),
    }
    .validate()
    .is_err());
}

#[test]
fn a_refused_frame_says_what_is_wrong() {
    let said = |frame: OverlayFrame| match frame.validate() {
        Err(OverlayError::InvalidFrame(m)) => m,
        Ok(()) => String::new(),
    };
    assert_eq!(
        said(solid_frame(0, 0, [0; 4])),
        "overlay dimensions must be non-zero"
    );
    assert_eq!(
        said(solid_frame_pre_scaled(1, 1, (0, 4), [0; 4])),
        "overlay design_size must be non-zero"
    );
    assert_eq!(
        said(OverlayFrame {
            width: 65536,
            height: 16384,
            design_size: (1, 1),
            rgba: Vec::new(),
        }),
        "overlay dimensions overflow"
    );
    let short = OverlayFrame {
        rgba: vec![0; 23],
        ..solid_frame(2, 3, [0; 4])
    };
    assert_eq!(
        said(short.clone()),
        "expected 24 RGBA bytes for 2x3, got 23"
    );
    assert_eq!(
        short.validate().unwrap_err().message(),
        "invalid overlay frame: expected 24 RGBA bytes for 2x3, got 23"
    );
}

#[test]
fn uses_straight_alpha_color_and_porter_duff_alpha() {
    let blend = straight_alpha_blend();
    assert_eq!(blend.color.src_factor, BlendFactor::SrcAlpha);
    assert_eq!(blend.color.dst_factor, BlendFactor::OneMinusSrcAlpha);
    assert_eq!(blend.alpha.src_factor, BlendFactor::One);
    assert_eq!(blend.alpha.dst_factor, BlendFactor::OneMinusSrcAlpha);
}

#[test]
fn a_compositor_remakes_only_what_changed() {
    let (mut c, plan) =
        RgbaOverlayCompositor::new((640, 360), &solid_frame(4, 2, [1; 4])).unwrap();
    assert!(!plan.recreate_texture && !plan.write_params);
    assert_eq!(plan.bytes_per_row, 16);
    let plan = c.upload(&solid_frame(4, 2, [2; 4])).unwrap();
    assert!(!plan.recreate_texture && !plan.write_params);
    let plan = c
        .upload(&solid_frame_pre_scaled(8, 2, (4, 2), [2; 4]))
        .unwrap();
    assert!(plan.recreate_texture && !plan.write_params);
    let plan = c.upload(&solid_frame(8, 2, [2; 4])).unwrap();
    assert!(!plan.recreate_texture && plan.write_params);
    let before = c;
    assert!(c.upload(&solid_frame(0, 2, [2; 4])).is_err());
    assert_eq!(c, before);
    assert!(RgbaOverlayCompositor::new((640, 360), &solid_frame(0, 2, [1; 4])).is_err());
}

#[test]
fn opacity_is_held_and_written_only_when_it_changes() {
    let (mut c, _) = RgbaOverlayCompositor::new((64, 64), &solid_frame(1, 1, [1; 4])).unwrap();
    assert!(!c.set_opacity(s(1.0)));
    assert!(!c.set_opacity(s(7.0)), "held at one, which it is");
    assert!(c.set_opacity(s(-3.0)));
    assert_eq!(f(c.opacity), 0.0);
    assert!(c.set_opacity(s(0.5)));
    c.resize((128, 32));
    c.set_placement(placement(0.25, -0.5, 2.0));
    let words = c.params_words([s(1.0), s(1.0)], [s(128.0), s(32.0)]);
    let numbers: Vec<f32> = words.iter().map(|w| f32::from_bits(*w)).collect();
    assert_eq!(
        numbers,
        vec![1.0, 1.0, 128.0, 32.0, 0.25, -0.5, 2.0, 0.5]
    );
    let bytes = c.params_bytes([s(1.0), s(1.0)], [s(128.0), s(32.0)]);
    assert_eq!(bytes.len(), PARAMS_BYTES as usize);
    let native: Vec<u8> = words.iter().flat_map(|w| w.to_ne_bytes()).collect();
    assert_eq!(bytes, native);
}

#[test]
fn composite_over_places_fully_opaque_source_at_default_center() {
    let mut canvas = solid_frame(100, 100, [0, 0, 0, 0]);
    let source = solid_frame(50, 50, [255, 0, 0, 255]);
    draw(&mut canvas, &source, OverlayPlacement::default(), false);
    let center_idx = (50 * 100 + 50) * 4;
    assert_eq!(&canvas.rgba[center_idx..center_idx + 4], &[255, 0, 0, 255]);
    assert_eq!(&canvas.rgba[0..4], &[255, 0, 0, 255]);
}

#[test]
fn composite_over_respects_scale_and_offset() {
    let mut canvas = solid_frame(200, 100, [10, 10, 10, 255]);
    let source = solid_frame(20, 20, [0, 255, 0, 255]);
    draw(&mut canvas, &source, placement(0.0, 0.4, 0.5), false);
    let bg_idx = (50 * 200 + 100) * 4;
    assert_eq!(&canvas.rgba[bg_idx..bg_idx + 4], &[10, 10, 10, 255]);
    let near_bottom_idx = (85 * 200 + 100) * 4;
    assert_eq!(
        &canvas.rgba[near_bottom_idx..near_bottom_idx + 4],
        &[0, 255, 0, 255]
    );
}

#[test]
fn composite_over_blends_partial_alpha_source() {
    let mut canvas = solid_frame(10, 10, [0, 0, 0, 255]);
    let source = solid_frame(10, 10, [255, 255, 255, 128]);
    draw(&mut canvas, &source, OverlayPlacement::default(), false);
    let idx = (5 * 10 + 5) * 4;
    assert!(canvas.rgba[idx] > 100 && canvas.rgba[idx] < 155);
    assert_eq!(canvas.rgba[idx + 3], 255);
}

#[test]
fn composite_over_bilinear_interpolates_a_downscaled_striped_source() {
    let mut canvas = solid_frame(40, 40, [5, 5, 5, 255]);
    let mut buf = vec![0u8; 20 * 20 * 4];
    for y in 0..20usize {
        for x in 0..20usize {
            let value = if x % 2 == 0 { 255 } else { 0 };
            let idx = (y * 20 + x) * 4;
            buf[idx..idx + 4].copy_from_slice(&[value, value, value, 255]);
        }
    }
    let source = OverlayFrame {
        width: 20,
        height: 20,
        design_size: (20, 20),
        rgba: buf,
    };
    draw(&mut canvas, &source, placement(0.0, 0.0, 0.375), false);
    let has_interpolated_gray = canvas
        .rgba
        .chunks_exact(4)
        .any(|px| px[0] > 20 && px[0] < 235);
    assert!(has_interpolated_gray);
}

#[test]
fn layered_source_returns_none_until_any_layer_has_a_frame() {
    let mut source = layered(
        vec![
            (OnceSource(None), OverlayPlacement::default()),
            (OnceSource(None), OverlayPlacement::default()),
        ],
        (100, 100),
    );
    assert!(source.try_frame().unwrap().is_none());
}

#[test]
fn layered_source_composites_bottom_layer_under_top_layer() {
    let bottom = solid_frame(10, 10, [0, 0, 0, 255]);
    let top = solid_frame(2, 2, [255, 255, 0, 255]);
    let mut source = layered(
        vec![
            (OnceSource(Some(bottom)), OverlayPlacement::default()),
            (OnceSource(Some(top)), placement(0.0, 0.0, 0.1)),
        ],
        (10, 10),
    );
    let frame = source.try_frame().unwrap().unwrap();
    assert_eq!(&frame.rgba[0..4], &[0, 0, 0, 255]);
    let center_idx = (5 * 10 + 5) * 4;
    assert_eq!(&frame.rgba[center_idx..center_idx + 4], &[255, 255, 0, 255]);
}

#[test]
fn layered_source_keeps_showing_a_layer_once_cached_even_if_only_the_other_changes() {
    let base = solid_frame(10, 10, [1, 2, 3, 255]);
    let mut source = layered(
        vec![
            (OnceSource(Some(base)), OverlayPlacement::default()),
            (OnceSource(None), OverlayPlacement::default()),
        ],
        (10, 10),
    );
    let frame = source.try_frame().unwrap().unwrap();
    assert_eq!(&frame.rgba[0..4], &[1, 2, 3, 255]);
    assert!(source.try_frame().unwrap().is_none());
}

#[test]
fn empty_canvas_fast_path_matches_the_full_blend_exactly() {
    for alpha in [255u8, 200, 128, 64, 1] {
        let source = solid_frame(9, 9, [200, 100, 50, alpha]);
        let at = placement(0.1, -0.2, 0.7);
        let mut blended = solid_frame(32, 32, [0, 0, 0, 0]);
        draw(&mut blended, &source, at, false);
        let mut fast = solid_frame(32, 32, [0, 0, 0, 0]);
        draw(&mut fast, &source, at, true);
        assert_eq!(
            blended.rgba, fast.rgba,
            "fast path diverged from the full blend at source alpha {alpha}"
        );
    }
}

#[test]
fn full_canvas_flat_fill_matches_the_general_path() {
    for alpha in [255u8, 200, 128, 64, 1] {
        let source = OverlayFrame {
            width: 1,
            height: 1,
            design_size: (32, 32),
            rgba: vec![0, 0, 0, alpha],
        };
        let mut general = solid_frame(32, 32, [0, 0, 0, 0]);
        draw(&mut general, &source, OverlayPlacement::default(), false);
        let mut filled = solid_frame(32, 32, [0, 0, 0, 0]);
        draw(&mut filled, &source, OverlayPlacement::default(), true);
        assert_eq!(
            general.rgba, filled.rgba,
            "row fill diverged from the general path at alpha {alpha}"
        );
    }
}

#[test]
fn a_flat_fill_keeps_every_byte_of_its_colour() {
    // Dividing a byte by 255 and multiplying it back gives the byte, so the fill
    // may copy it.
    for value in 0..=255u8 {
        assert_eq!(byte(f32::from(value) / 255.0), value);
    }
}

#[test]
fn an_unchanged_repeated_frame_does_not_trigger_a_recomposite() {
    let frame = solid_frame(8, 8, [1, 2, 3, 255]);
    let mut queue = VecDeque::new();
    queue.push_back(Ok(Some(frame.clone())));
    queue.push_back(Ok(Some(frame.clone())));
    queue.push_back(Ok(Some(solid_frame(8, 8, [9, 9, 9, 255]))));
    let mut source = layered(
        vec![(Queued(queue), OverlayPlacement::default())],
        (16, 16),
    );
    assert!(source.try_frame().unwrap().is_some(), "first frame");
    assert!(
        source.try_frame().unwrap().is_none(),
        "an identical repeat must be recognised as no change"
    );
    assert!(
        source.try_frame().unwrap().is_some(),
        "a genuinely different frame must still come through"
    );
}

#[test]
fn fully_transparent_is_detected_only_when_every_pixel_has_zero_alpha() {
    assert!(is_fully_transparent(&solid_frame(4, 4, [9, 9, 9, 0])));
    assert!(!is_fully_transparent(&solid_frame(4, 4, [0, 0, 0, 255])));
    let mut one_visible_pixel = solid_frame(4, 4, [0, 0, 0, 0]);
    one_visible_pixel.rgba[3] = 1;
    assert!(!is_fully_transparent(&one_visible_pixel));
}

#[test]
fn a_pre_scaled_layer_is_composited_pixel_for_pixel_alongside_another_layer() {
    let mut scoreboard = solid_frame_pre_scaled(100, 50, (200, 100), [10, 20, 30, 255]);
    let marker_src = (5 * 100 + 10) * 4;
    scoreboard.rgba[marker_src..marker_src + 4].copy_from_slice(&[255, 0, 255, 255]);
    let mut source = layered(
        vec![
            (
                OnceSource(Some(solid_frame(1, 1, [0, 0, 0, 128]))),
                OverlayPlacement::default(),
            ),
            (OnceSource(Some(scoreboard)), placement(0.0, 0.0, 0.5)),
        ],
        (200, 100),
    );
    let frame = source.try_frame().unwrap().unwrap();
    assert_eq!((frame.width, frame.height), (200, 100));
    assert_eq!(frame.design_size, (200, 100));
    let marker_dst = ((30 * 200) + 60) * 4;
    assert_eq!(
        &frame.rgba[marker_dst..marker_dst + 4],
        &[255, 0, 255, 255],
        "the pre-scaled layer was resampled instead of landing 1:1"
    );
    let neighbour_dst = ((30 * 200) + 61) * 4;
    assert_eq!(
        &frame.rgba[neighbour_dst..neighbour_dst + 4],
        &[10, 20, 30, 255]
    );
}

#[test]
fn composite_over_uses_design_size_not_actual_pixel_size_for_placement() {
    let mut full_size = solid_frame(100, 100, [0, 0, 0, 0]);
    draw(
        &mut full_size,
        &solid_frame(50, 50, [255, 0, 0, 255]),
        OverlayPlacement::default(),
        false,
    );
    let mut pre_scaled = solid_frame(100, 100, [0, 0, 0, 0]);
    draw(
        &mut pre_scaled,
        &solid_frame_pre_scaled(20, 20, (50, 50), [255, 0, 0, 255]),
        OverlayPlacement::default(),
        false,
    );
    assert_eq!(full_size.rgba, pre_scaled.rgba);
}

#[test]
fn canvas_is_always_the_output_size_regardless_of_layer_sizes() {
    for layer in [
        solid_frame_pre_scaled(20, 20, (1920, 1080), [255, 0, 255, 255]),
        solid_frame_pre_scaled(4000, 4000, (1920, 1080), [255, 0, 255, 255]),
    ] {
        let mut source = layered(
            vec![(OnceSource(Some(layer)), OverlayPlacement::default())],
            (640, 360),
        );
        let frame = source.try_frame().unwrap().unwrap();
        assert_eq!((frame.width, frame.height), (640, 360));
        assert_eq!(frame.design_size, (640, 360));
    }
}

#[test]
fn an_output_without_extent_is_one_pixel() {
    let mut source = layered(
        vec![(
            OnceSource(Some(solid_frame(2, 2, [7, 7, 7, 255]))),
            OverlayPlacement::default(),
        )],
        (0, 0),
    );
    let frame = source.try_frame().unwrap().unwrap();
    assert_eq!((frame.width, frame.height), (1, 1));
    assert_eq!(frame.rgba, vec![7, 7, 7, 255]);
}

#[test]
fn a_layer_that_turns_transparent_clears_the_canvas() {
    let mut queue = VecDeque::new();
    queue.push_back(Ok(Some(solid_frame(4, 4, [1, 1, 1, 255]))));
    queue.push_back(Ok(Some(solid_frame(4, 4, [1, 1, 1, 0]))));
    let mut source = layered(vec![(Queued(queue), OverlayPlacement::default())], (4, 4));
    assert_eq!(source.try_frame().unwrap().unwrap().rgba[3], 255);
    let cleared = source.try_frame().unwrap().unwrap();
    assert!(cleared.rgba.iter().all(|b| *b == 0));
}

#[test]
fn a_failing_layer_fails_the_stack_but_keeps_the_layers_before_it() {
    let mut first = VecDeque::new();
    first.push_back(Ok(Some(solid_frame(2, 2, [5, 5, 5, 255]))));
    let mut second = VecDeque::new();
    second.push_back(Err("no signal".to_string()));
    second.push_back(Ok(Some(solid_frame(1, 1, [0, 0, 9, 0]))));
    let mut source = layered(
        vec![
            (Queued(first), OverlayPlacement::default()),
            (Queued(second), OverlayPlacement::default()),
        ],
        (2, 2),
    );
    assert_eq!(source.try_frame().unwrap_err(), "no signal");
    // The first layer was taken in before the failure.
    let frame = source.try_frame().unwrap().unwrap();
    assert_eq!(&frame.rgba[0..4], &[5, 5, 5, 255]);
}

#[test]
fn a_frame_that_lacks_pixels_it_is_drawn_with_is_refused() {
    let short = OverlayFrame {
        rgba: vec![255; 8],
        ..solid_frame(2, 2, [0; 4])
    };
    let mut source = layered(
        vec![(OnceSource(Some(short)), OverlayPlacement::default())],
        (2, 2),
    );
    assert_eq!(
        source.try_frame(),
        Err("overlay layer lacks pixels that are drawn".to_string())
    );
    // Nothing new comes after that.
    assert_eq!(source.try_frame(), Ok(None));
}

#[test]
fn a_frame_that_lacks_only_pixels_off_the_canvas_is_drawn() {
    // Four by two pixels, of which the last two are missing. Shifted by half, the
    // right half of the image is off the canvas.
    let whole = solid_frame(4, 2, [10, 20, 30, 255]);
    let short = OverlayFrame {
        rgba: whole.rgba[..4 * 6 + 3].to_vec(),
        ..whole.clone()
    };
    let shifted = placement(0.75, 0.0, 1.0);
    let mut canvas = solid_frame(4, 2, [0; 4]);
    draw(&mut canvas, &short, shifted, true);
    let mut expected = solid_frame(4, 2, [0; 4]);
    draw(&mut expected, &whole, shifted, true);
    assert_eq!(canvas, expected);
    assert_eq!(&canvas.rgba[12..16], &[10, 20, 30, 255]);
    let mut source = layered(vec![(OnceSource(Some(short.clone())), shifted)], (4, 2));
    assert_eq!(source.try_frame(), Ok(Some(expected)));
    // A last row that starts transparent is looked at up to its end.
    let mut faint = short.clone();
    faint.rgba[4 * 4 + 3] = 0;
    faint.rgba[4 * 5 + 3] = 0;
    let mut source = layered(vec![(OnceSource(Some(faint)), shifted)], (4, 2));
    assert!(source.try_frame().is_err());
    // In full view the missing pixels are drawn with.
    let mut source = layered(
        vec![(OnceSource(Some(short)), OverlayPlacement::default())],
        (4, 2),
    );
    assert!(source.try_frame().is_err());
}

#[test]
fn an_image_is_contained_and_centred() {
    let placed = place((200, 100), (640, 640), OverlayPlacement::default(), &Math);
    assert_eq!((f(placed.fitted.0), f(placed.fitted.1)), (640.0, 320.0));
    assert_eq!((f(placed.origin.0), f(placed.origin.1)), (0.0, 160.0));
    assert_eq!((f(placed.end.0), f(placed.end.1)), (640.0, 480.0));
    assert_eq!((f(placed.canvas.0), f(placed.canvas.1)), (640.0, 640.0));
    let moved = place((200, 100), (640, 640), placement(0.25, -0.5, 0.5), &Math);
    assert_eq!((f(moved.fitted.0), f(moved.fitted.1)), (320.0, 160.0));
    assert_eq!((f(moved.origin.0), f(moved.origin.1)), (320.0, -80.0));
}

#[test]
fn a_transparent_row_fades_into_the_visible_row_below() {
    let source = OverlayFrame {
        width: 1,
        height: 2,
        design_size: (1, 2),
        rgba: vec![255, 255, 255, 0, 255, 255, 255, 255],
    };
    let mut canvas = solid_frame(4, 8, [0; 4]);
    draw(&mut canvas, &source, OverlayPlacement::default(), true);
    let alphas: Vec<u8> = canvas.rgba.iter().skip(3).step_by(4).copied().collect();
    for column in 0..4 {
        let rows: Vec<u8> = (0..8).map(|row| alphas[row * 4 + column]).collect();
        assert_eq!(rows, vec![0, 0, 32, 96, 159, 223, 255, 255]);
    }
}

#[test]
fn an_unchanged_transparent_frame_is_drawn_once() {
    let clear = solid_frame(8, 8, [9, 9, 9, 0]);
    let mut queue = VecDeque::new();
    queue.push_back(Ok(Some(clear.clone())));
    queue.push_back(Ok(Some(clear.clone())));
    queue.push_back(Ok(Some(solid_frame(8, 8, [9, 9, 9, 255]))));
    queue.push_back(Ok(None));
    queue.push_back(Ok(Some(clear.clone())));
    queue.push_back(Ok(Some(clear)));
    let mut source = layered(
        vec![(Queued(queue), OverlayPlacement::default())],
        (16, 16),
    );
    let blank = solid_frame(16, 16, [0; 4]);
    let full = solid_frame(16, 16, [9, 9, 9, 255]);
    assert_eq!(source.try_frame(), Ok(Some(blank.clone())));
    assert_eq!(source.try_frame(), Ok(None));
    assert_eq!(source.try_frame(), Ok(Some(full)));
    assert_eq!(source.try_frame(), Ok(None));
    assert_eq!(source.try_frame(), Ok(Some(blank)));
    assert_eq!(source.try_frame(), Ok(None));
}

#[test]
fn a_stack_shows_the_last_image_of_each_layer() {
    let mut below = VecDeque::new();
    below.push_back(Ok(Some(solid_frame(2, 2, [10, 0, 0, 255]))));
    below.push_back(Ok(None));
    below.push_back(Ok(Some(solid_frame(2, 2, [20, 0, 0, 255]))));
    let mut above = VecDeque::new();
    above.push_back(Ok(None));
    above.push_back(Ok(Some(solid_frame(2, 2, [0, 30, 0, 255]))));
    let beside = placement(0.5, 0.0, 1.0);
    let mut source = layered(
        vec![
            (Queued(below), OverlayPlacement::default()),
            (Queued(above), beside),
        ],
        (2, 2),
    );
    let row = |frame: OverlayFrame| frame.rgba[0..8].to_vec();
    let first = source.try_frame().unwrap().unwrap();
    assert_eq!(row(first), vec![10, 0, 0, 255, 10, 0, 0, 255]);
    let second = source.try_frame().unwrap().unwrap();
    assert_eq!(row(second), vec![10, 0, 0, 255, 0, 30, 0, 255]);
    let third = source.try_frame().unwrap().unwrap();
    assert_eq!(row(third), vec![20, 0, 0, 255, 0, 30, 0, 255]);
    assert_eq!(source.try_frame(), Ok(None));
}

#[test]
fn a_frame_with_fewer_bytes_than_pixels_is_refused_only_where_it_is_drawn() {
    let short = |design_size| OverlayFrame {
        rgba: vec![255; 8],
        ..solid_frame_pre_scaled(2, 2, design_size, [0; 4])
    };
    let blank = solid_frame(2, 2, [0; 4]);
    for (design_size, scale) in [((0, 2), 1.0), ((2, 0), 1.0), ((2, 2), 0.0), ((2, 2), -1.0)] {
        let mut source = layered(
            vec![(
                OnceSource(Some(short(design_size))),
                placement(0.0, 0.0, scale),
            )],
            (2, 2),
        );
        assert_eq!(source.try_frame(), Ok(Some(blank.clone())));
        let mut canvas = solid_frame(2, 2, [3; 4]);
        draw(
            &mut canvas,
            &short(design_size),
            placement(0.0, 0.0, scale),
            false,
        );
        assert_eq!(canvas, solid_frame(2, 2, [3; 4]));
    }
    let mut drawn = layered(
        vec![(
            OnceSource(Some(short((2, 2)))),
            OverlayPlacement::default(),
        )],
        (2, 2),
    );
    assert!(drawn.try_frame().is_err());
}

#[test]
fn a_footprint_is_cut_to_the_canvas_and_to_what_is_visible() {
    let request = PlaceRequest {
        design_size: (4, 4),
        source_size: (4, 4),
        output_size: (8, 8),
        placement: OverlayPlacement::default(),
        visible_rows: (1, 1),
    };
    let full = footprint(&request, &Math).unwrap();
    // Rows one and two of four, and the row above, which the filter reaches into.
    assert_eq!((full.x0, full.x1, full.y0, full.y1), (0, 8, 0, 6));
    assert!(full.covers_canvas);
    assert_eq!(full.columns.len(), 8);
    // The first column is before the middle of the first pixel.
    let first = full.columns[0].unwrap();
    assert_eq!((first.near, f(first.weight)), (0, 0.0));
    let third = full.columns[2].unwrap();
    assert_eq!((third.near, f(third.weight)), (0, 0.75));
    let last = full.columns[7].unwrap();
    assert_eq!((last.near, f(last.weight)), (3, 0.0));
    let beside = footprint(
        &PlaceRequest {
            placement: placement(0.75, 0.0, 1.0),
            ..request
        },
        &Math,
    )
    .unwrap();
    assert_eq!((beside.x0, beside.x1), (6, 8));
    assert!(!beside.covers_canvas);
    for (design_size, scale) in [((0, 4), 1.0), ((4, 0), 1.0), ((4, 4), 0.0), ((4, 4), -1.0)] {
        let nowhere = PlaceRequest {
            design_size,
            placement: placement(0.0, 0.0, scale),
            ..request
        };
        assert!(footprint(&nowhere, &Math).is_none());
    }
}

#[test]
fn a_sample_is_mixed_with_what_is_below() {
    let p = |r, g, b, a| Pixel { r, g, b, a };
    let corner = p(200, 0, 0, 255);
    let sample = Sample {
        top_left: corner,
        top_right: p(100, 0, 0, 255),
        bottom_left: corner,
        bottom_right: corner,
        x_weight: s(0.5),
        y_weight: s(0.0),
        flat: false,
        canvas_is_empty: false,
        below: p(0, 0, 250, 255),
    };
    assert_eq!(blend_pixel(&sample, &Math), Some(p(150, 0, 0, 255)));
    let flat = Sample {
        flat: true,
        ..sample
    };
    assert_eq!(blend_pixel(&flat, &Math), Some(corner));
    let clear = Sample {
        top_left: p(200, 0, 0, 0),
        ..flat
    };
    assert_eq!(blend_pixel(&clear, &Math), None);
    let half = Sample {
        top_left: p(200, 0, 0, 51),
        below: p(0, 0, 250, 255),
        ..flat
    };
    assert_eq!(blend_pixel(&half, &Math), Some(p(40, 0, 200, 255)));
    let alone = Sample {
        canvas_is_empty: true,
        ..half
    };
    assert_eq!(blend_pixel(&alone, &Math), Some(p(200, 0, 0, 51)));
}

#[test]
fn row_bounds_span_what_is_visible() {
    let mut frame = solid_frame(3, 5, [0, 0, 0, 0]);
    assert_eq!(opaque_row_bounds(&frame), None);
    frame.rgba[(3 + 2) * 4 + 3] = 1;
    assert_eq!(opaque_row_bounds(&frame), Some((1, 1)));
    frame.rgba[(3 * 3) * 4 + 3] = 200;
    assert_eq!(opaque_row_bounds(&frame), Some((1, 3)));
}

#[test]
fn pixels_outside_the_footprint_stay() {
    let mut canvas = solid_frame(8, 8, [3, 3, 3, 3]);
    let before = canvas.clone();
    let source = solid_frame(4, 4, [200, 0, 0, 255]);
    draw(&mut canvas, &source, placement(0.0, 0.0, 0.5), false);
    for y in 0..8usize {
        for x in 0..8usize {
            let at = (y * 8 + x) * 4;
            let inside = (2..6).contains(&x) && (2..6).contains(&y);
            let pixel = &canvas.rgba[at..at + 4];
            if inside {
                assert_eq!(pixel, &[200, 0, 0, 255]);
            } else {
                assert_eq!(pixel, &before.rgba[at..at + 4]);
            }
        }
    }
}
