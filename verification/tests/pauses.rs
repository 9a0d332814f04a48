//! The fade and the caption of a pause.

use reco_core::layer_math::LayerMath;
use reco_core::overlay::{contain_fit_render_scale, FitMath, OverlayFrame, OverlayPlacement};
use reco_core::pause_overlay::{
    build_layers, caption_size, rasterize_text, render_caption, render_fade, CaptionFont,
    CoveredPixel, FadeFilter, FadeLevel, PauseBoundary, PauseCaptionSource, PauseConfigError,
    PauseFadeSource, PauseMath, PauseOverlayConfig, Schedule, TextMask, CANVAS_HEIGHT,
    CANVAS_WIDTH,
};
use reco_core::scalar::Scalar;

fn s(x: f32) -> Scalar {
    Scalar { bits: x.to_bits() }
}

fn f(x: Scalar) -> f32 {
    f32::from_bits(x.bits)
}

fn boundary(fade_out_start: u64, fade_frames: u64, hold_frames: u64) -> PauseBoundary {
    PauseBoundary {
        fade_out_start,
        hold_start: fade_out_start + fade_frames,
        hold_end: fade_out_start + fade_frames + hold_frames,
        fade_in_end: fade_out_start + fade_frames * 2 + hold_frames,
    }
}

/// The numbers of a pause, and a font of boxes: a letter is as wide as its place
/// in the alphabet, one unit closer to its neighbours, and one row high.
struct Math;

impl PauseMath for Math {
    fn nearest_count(&self, x: Scalar) -> u32 {
        f(x).round() as u32
    }
}

impl LayerMath for Math {
    fn whole(&self, n: u64) -> Scalar {
        s(n as f32)
    }

    fn sum(&self, a: Scalar, b: Scalar) -> Scalar {
        s(f(a) + f(b))
    }

    fn difference(&self, a: Scalar, b: Scalar) -> Scalar {
        s(f(a) - f(b))
    }

    fn ratio(&self, a: Scalar, b: Scalar) -> Scalar {
        s(f(a) / f(b))
    }

    fn floor(&self, x: Scalar) -> u32 {
        f(x).floor() as u32
    }

    fn ceil(&self, x: Scalar) -> u32 {
        f(x).ceil() as u32
    }

    fn nearest(&self, x: Scalar) -> u8 {
        f(x).round() as u8
    }
}

impl FitMath for Math {
    fn quotient(&self, a: u32, b: u32) -> Scalar {
        s(a as f32 / b as f32)
    }

    fn product(&self, a: Scalar, b: Scalar) -> Scalar {
        s(f(a) * f(b))
    }
}

impl CaptionFont for Math {
    fn glyph_id(&self, letter: char) -> u16 {
        letter as u16 - 'A' as u16 + 1
    }

    fn kern(&self, _size: Scalar, _before: u16, _id: u16) -> Scalar {
        s(-1.0)
    }

    fn h_advance(&self, _size: Scalar, id: u16) -> Scalar {
        s(id as f32)
    }

    fn sum(&self, a: Scalar, b: Scalar) -> Scalar {
        s(f(a) + f(b))
    }

    fn origin(&self, _size: Scalar, canvas: (u32, u32), length: Scalar) -> (Scalar, Scalar) {
        (
            s((canvas.0 as f32 - f(length)) / 2.0),
            s((canvas.1 / 2) as f32),
        )
    }

    fn outline(&self, _size: Scalar, id: u16, at: (Scalar, Scalar)) -> Vec<CoveredPixel> {
        (0..id as i32)
            .map(|k| CoveredPixel {
                x: f(at.0) as i32 + k,
                y: f(at.1) as i32,
                coverage: s(1.0 / id as f32),
            })
            .collect()
    }
}

fn layers(pauses: Vec<PauseBoundary>, output: (u32, u32)) -> (PauseFadeSource, PauseCaptionSource) {
    build_layers(pauses, &config(1.0, 1.0).unwrap(), output, &Math)
}

fn config(fade: f32, hold: f32) -> Result<PauseOverlayConfig, PauseConfigError> {
    PauseOverlayConfig::new(s(fade), s(hold), "PAUZE".to_string())
}

#[test]
fn config_rejects_zero_duration() {
    assert!(config(0.0, 0.0).is_err());
}

#[test]
fn config_rejects_negative_or_nan() {
    assert!(config(-1.0, 4.0).is_err());
    assert!(config(3.0, f32::NAN).is_err());
}

#[test]
fn config_total_secs_sums_both_fades_and_hold() {
    let cfg = config(3.0, 4.0).unwrap();
    assert_eq!(f(cfg.total_secs(&Math)), 10.0);
}

#[test]
fn contain_fit_render_scale_matches_shader_math() {
    let placement = OverlayPlacement {
        offset: (s(0.0), s(0.0)),
        scale: s(0.5),
    };
    let scale = contain_fit_render_scale((1920, 1080), (2560, 1440), placement, &Math);
    assert!((f(scale) - (1440.0 / 1080.0 * 0.5)).abs() < 1e-5);
    let narrow = contain_fit_render_scale((1920, 1080), (960, 1080), placement, &Math);
    assert_eq!(f(narrow), 0.25);
}

#[test]
fn contain_fit_render_scale_falls_back_to_placement_scale_for_zero_design_size() {
    let placement = OverlayPlacement {
        offset: (s(0.0), s(0.0)),
        scale: s(0.4),
    };
    assert_eq!(
        f(contain_fit_render_scale((0, 1080), (2560, 1440), placement, &Math)),
        0.4
    );
}

#[test]
fn config_errors_name_what_is_wrong() {
    assert_eq!(
        config(-1.0, 4.0).unwrap_err().message("-1.00"),
        "pause overlay fade duration (-1.00s) must be finite and >= 0"
    );
    assert_eq!(
        config(0.0, f32::INFINITY).unwrap_err().message("inf"),
        "pause overlay hold duration (infs) must be finite and >= 0"
    );
    assert_eq!(
        config(0.0, -0.0).unwrap_err(),
        PauseConfigError::NoDuration
    );
    assert_eq!(
        PauseConfigError::NoDuration.message(""),
        "pause overlay duration must be greater than 0"
    );
    let kept = config(0.0, 2.5).unwrap();
    assert_eq!(f(kept.hold_secs), 2.5);
    assert_eq!(kept.text, "PAUZE");
    // The smallest number above zero is a duration.
    assert!(config(f32::from_bits(1), 0.0).is_ok());
}

#[test]
fn alpha_ramps_through_fade_hold_fade() {
    let mut schedule = Schedule::new(vec![boundary(100, 10, 20)]);
    let mut alpha_at = |frame| f(schedule.alpha_at(frame).alpha(&Math));
    assert_eq!(alpha_at(0), 0.0);
    assert_eq!(alpha_at(99), 0.0);
    assert_eq!(alpha_at(100), 0.0);
    assert!((alpha_at(105) - 0.5).abs() < 1e-6);
    assert_eq!(alpha_at(110), 1.0);
    assert_eq!(alpha_at(129), 1.0);
    assert!((alpha_at(135) - 0.5).abs() < 1e-6);
    assert_eq!(alpha_at(140), 0.0);
    assert_eq!(alpha_at(1000), 0.0);
}

#[test]
fn levels_are_exact_fractions() {
    let mut schedule = Schedule::new(vec![boundary(100, 10, 20)]);
    assert_eq!(schedule.alpha_at(99), FadeLevel::Clear);
    assert_eq!(
        schedule.alpha_at(103),
        FadeLevel::Rising { num: 3, den: 10 }
    );
    assert_eq!(schedule.alpha_at(110), FadeLevel::Full);
    assert_eq!(
        schedule.alpha_at(137),
        FadeLevel::Falling { num: 7, den: 10 }
    );
    // A pause that is over is left behind.
    assert_eq!(schedule.alpha_at(140), FadeLevel::Clear);
    assert_eq!(schedule.alpha_at(110), FadeLevel::Clear);
    // A pause without frames shows nothing.
    let mut empty = Schedule::new(vec![boundary(5, 0, 0)]);
    assert_eq!(empty.alpha_at(4), FadeLevel::Clear);
}

#[test]
fn two_independent_schedules_stay_in_lockstep_when_advanced_together() {
    let boundaries = vec![boundary(2, 3, 4)];
    let mut fade = Schedule::new(boundaries.clone());
    let mut caption = Schedule::new(boundaries);
    for _ in 0..30 {
        assert_eq!(fade.advance(), caption.advance());
    }
}

#[test]
fn a_schedule_agrees_with_one_that_starts_at_the_frame() {
    let pauses = vec![boundary(2, 2, 2), boundary(12, 1, 3), boundary(30, 4, 0)];
    let mut running = Schedule::new(pauses.clone());
    for frame in 0..60u64 {
        let mut fresh = Schedule::new(pauses.clone());
        assert_eq!(running.advance(), fresh.alpha_at(frame));
    }
}

fn pattern(mut next: impl FnMut() -> Option<OverlayFrame>) {
    assert!(next().is_none());
    assert!(next().is_some());
    assert!(next().is_some());
    assert!(next().is_none());
    assert!(next().is_none());
    assert!(next().is_some());
    assert!(next().is_some());
    assert!(next().is_none());
    assert!(next().is_none());
}

#[test]
fn try_frame_stays_none_until_active_then_sends_one_final_transparent_frame() {
    assert!(config(2.0, 2.0).is_ok());
    let (mut fade, mut caption) = build_layers(
        vec![boundary(0, 2, 2)],
        &config(2.0, 2.0).unwrap(),
        (1920, 1080),
        &Math,
    );
    pattern(|| fade.try_frame(&Math));
    pattern(|| caption.try_frame(&Math));
}

#[test]
fn a_long_hold_emits_exactly_one_frame_not_one_per_frame() {
    let (mut fade, _caption) = layers(vec![boundary(0, 1, 60)], (1920, 1080));
    let mut emitted = 0;
    for _ in 0..=60 {
        if fade.try_frame(&Math).is_some() {
            emitted += 1;
        }
    }
    assert_eq!(emitted, 1);
}

#[test]
fn fade_frame_is_always_a_single_pixel_regardless_of_output_size() {
    let (mut fade, _caption) = layers(vec![boundary(0, 1, 1)], (3840, 2160));
    fade.try_frame(&Math);
    let frame = fade.try_frame(&Math).unwrap();
    assert_eq!((frame.width, frame.height), (1, 1));
    assert_eq!(frame.design_size, (CANVAS_WIDTH, CANVAS_HEIGHT));
    assert_eq!(&frame.rgba[0..3], &[0, 0, 0]);
    assert!(frame.rgba[3] > 0);
}

fn caption_dims(output_size: (u32, u32)) -> (u32, u32) {
    let (_fade, mut caption) = layers(vec![boundary(0, 1, 1)], output_size);
    caption.try_frame(&Math);
    let frame = caption.try_frame(&Math).unwrap();
    (frame.width, frame.height)
}

#[test]
fn caption_resolution_never_exceeds_the_design_canvas_size() {
    for output_size in [(1920, 1080), (2560, 1440), (3840, 2160)] {
        assert_eq!(caption_dims(output_size), (CANVAS_WIDTH, CANVAS_HEIGHT));
    }
}

#[test]
fn caption_resolution_shrinks_below_the_cap_for_a_small_output() {
    let (w, h) = caption_dims((480, 270));
    assert!(w < CANVAS_WIDTH && h < CANVAS_HEIGHT);
    assert_eq!((w, h), (480, 270));
    assert_eq!(caption_size(0, 0), (170, 96));
    assert_eq!(caption_size(5000, 541), (960, 540));
}

#[test]
fn the_filter_passes_changes_and_one_clear() {
    let mut filter = FadeFilter::new();
    assert_eq!(filter.pass(s(0.0)), None);
    assert_eq!(filter.pass(s(0.5)), Some(s(0.5)));
    assert_eq!(filter.pass(s(0.5)), None);
    assert_eq!(filter.pass(s(1.0)), Some(s(1.0)));
    assert_eq!(filter.pass(s(-0.0)), Some(s(0.0)));
    assert_eq!(filter.pass(s(0.0)), None);
    assert_eq!(filter.pass(s(1.0)), Some(s(1.0)));
    // Not a number is neither dark nor what it was.
    assert!(filter.pass(s(f32::NAN)).is_some());
    assert!(filter.pass(s(f32::NAN)).is_some());
}

#[test]
fn plotting_keeps_the_stronger_coverage_and_the_edges() {
    let mut mask = TextMask::new(3, 2);
    for (x, y, c) in [
        (2, 1, 0.25),
        (2, 1, 0.75),
        (2, 1, 0.5),
        (3, 1, 1.0),
        (-1, 0, 1.0),
        (0, 2, 1.0),
    ] {
        mask.plot(CoveredPixel {
            x,
            y,
            coverage: s(c),
        });
    }
    let got: Vec<f32> = mask.coverage.iter().map(|c| f(*c)).collect();
    assert_eq!(got, vec![0.0, 0.0, 0.0, 0.0, 0.0, 0.75]);
    let frame = render_caption(&mask, s(200.0 / 255.0), &Math);
    assert_eq!((frame.width, frame.height), (3, 2));
    assert_eq!(&frame.rgba[0..4], &[255, 255, 255, 0]);
    assert_eq!(&frame.rgba[20..24], &[255, 255, 255, 150]);
    assert_eq!(render_fade(s(0.2), &Math).rgba, vec![0, 0, 0, 51]);
    assert_eq!(render_fade(s(7.0), &Math).rgba, vec![0, 0, 0, 255]);
}

#[test]
fn a_text_is_centred_and_its_letters_are_kerned() {
    // Two letters of two columns, one closer: three in all, in the middle of seven.
    let mask = rasterize_text("BB", 7, 3, s(1.0), &Math);
    let got: Vec<f32> = mask.coverage.iter().map(|c| f(*c)).collect();
    let mut expected = vec![0.0; 21];
    for k in [9, 10, 11] {
        expected[k] = 0.5;
    }
    assert_eq!(got, expected);
    // A text that is too long for its canvas is cut off at both ends.
    let mask = rasterize_text("D", 2, 1, s(1.0), &Math);
    let got: Vec<f32> = mask.coverage.iter().map(|c| f(*c)).collect();
    assert_eq!(got, vec![0.25, 0.25]);
    assert!(rasterize_text("", 2, 2, s(1.0), &Math)
        .coverage
        .iter()
        .all(|c| f(*c) == 0.0));
}

/// A font of solid boxes, as wide and as high as its letters are large.
struct Boxes;

impl CaptionFont for Boxes {
    fn glyph_id(&self, letter: char) -> u16 {
        letter as u16
    }

    fn kern(&self, _size: Scalar, _before: u16, _id: u16) -> Scalar {
        s(0.0)
    }

    fn h_advance(&self, size: Scalar, _id: u16) -> Scalar {
        s(f(size) * 0.6)
    }

    fn sum(&self, a: Scalar, b: Scalar) -> Scalar {
        s(f(a) + f(b))
    }

    fn origin(&self, size: Scalar, canvas: (u32, u32), length: Scalar) -> (Scalar, Scalar) {
        (
            s((canvas.0 as f32 - f(length)) / 2.0),
            s((canvas.1 as f32 - f(size)) / 2.0),
        )
    }

    fn outline(&self, size: Scalar, _id: u16, at: (Scalar, Scalar)) -> Vec<CoveredPixel> {
        let (w, h) = ((f(size) * 0.5) as i32, f(size) as i32);
        (0..w * h)
            .map(|k| CoveredPixel {
                x: f(at.0) as i32 + k % w,
                y: f(at.1) as i32 + k / w,
                coverage: s(1.0),
            })
            .collect()
    }
}

#[test]
fn rasterize_pauze_touches_pixels() {
    let mask = rasterize_text("PAUZE", CANVAS_WIDTH, CANVAS_HEIGHT, s(150.0), &Boxes);
    assert!(
        mask.coverage.iter().any(|c| f(*c) > 0.5),
        "expected at least some fully-covered glyph pixels"
    );
    let mut sum_x = 0.0f64;
    let mut sum_y = 0.0f64;
    let mut total = 0.0f64;
    for y in 0..mask.height {
        for x in 0..mask.width {
            let c = f(mask.coverage[(y * mask.width + x) as usize]) as f64;
            sum_x += c * x as f64;
            sum_y += c * y as f64;
            total += c;
        }
    }
    assert!(total > 0.0);
    let centroid_x = sum_x / total;
    let centroid_y = sum_y / total;
    assert!((centroid_x - mask.width as f64 / 2.0).abs() < mask.width as f64 * 0.15);
    assert!((centroid_y - mask.height as f64 / 2.0).abs() < mask.height as f64 * 0.15);
}
