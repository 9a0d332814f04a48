//! Colour matching along the seam, on the host and on the device.

use reco_core::band_gather::{
    mirrored_180, BandGather, MapPoll, PositionKey, Readback, TakeAction, MAX_SAMPLES_PER_CAMERA,
    SAMPLES_BYTES,
};
use reco_core::calibration::Lens;
use reco_core::color_match::{
    band_sample_positions, clamp_offset, collect_samples, inv_gamma_base, is_fading_plane,
    mean_of_normalized_samples, measure_band_mean, nv12_sampler, seam_band_bounds,
    yuv420p_sampler, BandMath, ColorCorrection, ColorMatchParams, ColorMatchState, PlaneSampler, SourcePoint,
};
use reco_core::nv12_readback::{
    map_error, MapFailure, Nv12Readback, Nv12ReadbackError,
};
use reco_core::planes::{Nv12Planes, YuvPlanes};
use reco_core::scalar::{Scalar, Wide};

fn s(x: f32) -> Scalar {
    Scalar { bits: x.to_bits() }
}

fn f(x: Scalar) -> f32 {
    f32::from_bits(x.bits)
}

fn scalars(x: [f32; 3]) -> [Scalar; 3] {
    [s(x[0]), s(x[1]), s(x[2])]
}

fn inv_gamma(gamma: f32) -> f32 {
    1.0 / f(inv_gamma_base(s(gamma)))
}

fn wide(x: f64) -> Wide {
    Wide { bits: x.to_bits() }
}

fn number(x: Wide) -> f64 {
    f64::from_bits(x.bits)
}

fn decode_normalized(y: f32, u: f32, v: f32, full_range: bool, inv_gamma: f32) -> [f32; 3] {
    let (y, cb, cr) = if full_range {
        (y, u - 0.5, v - 0.5)
    } else {
        (
            (y - 16.0 / 255.0) * (255.0 / 219.0),
            (u - 128.0 / 255.0) * (255.0 / 224.0),
            (v - 128.0 / 255.0) * (255.0 / 224.0),
        )
    };
    let bright = |x: f32| x.clamp(0.0, 1.0).powf(inv_gamma);
    let r = bright(y + 1.5748 * cr);
    let g = bright(y - 0.1873 * cb - 0.4681 * cr);
    let b = bright(y + 1.8556 * cb);
    [
        0.2126 * r + 0.7152 * g + 0.0722 * b,
        -0.1146 * r - 0.3854 * g + 0.5 * b,
        0.5 * r - 0.4542 * g - 0.0458 * b,
    ]
}

fn decode(y: u8, u: u8, v: u8, full_range: bool, inv_gamma: f32) -> [f32; 3] {
    decode_normalized(
        y as f32 / 255.0,
        u as f32 / 255.0,
        v as f32 / 255.0,
        full_range,
        inv_gamma,
    )
}

fn mean(decoded: impl ExactSizeIterator<Item = [f32; 3]>) -> [Scalar; 3] {
    let n = decoded.len() as f64;
    let mut sum = [0f64; 3];
    for d in decoded {
        for i in 0..3 {
            sum[i] += d[i] as f64;
        }
    }
    scalars([
        (sum[0] / n) as f32,
        (sum[1] / n) as f32,
        (sum[2] / n) as f32,
    ])
}

/// The numbers of a measurement with a fisheye lens.
struct Math;

impl BandMath for Math {
    fn widen(&self, x: Scalar) -> Wide {
        wide(f64::from(f(x)))
    }

    fn wide_sum(&self, a: Wide, b: Wide) -> Wide {
        wide(number(a) + number(b))
    }

    fn wide_difference(&self, a: Wide, b: Wide) -> Wide {
        wide(number(a) - number(b))
    }

    fn wide_product(&self, a: Wide, b: Wide) -> Wide {
        wide(number(a) * number(b))
    }

    fn wide_ratio(&self, a: Wide, b: Wide) -> Wide {
        wide(number(a) / number(b))
    }

    fn wide_whole(&self, n: u32) -> Wide {
        wide(f64::from(n))
    }

    fn sum(&self, a: Scalar, b: Scalar) -> Scalar {
        s(f(a) + f(b))
    }

    fn difference(&self, a: Scalar, b: Scalar) -> Scalar {
        s(f(a) - f(b))
    }

    fn product(&self, a: Scalar, b: Scalar) -> Scalar {
        s(f(a) * f(b))
    }

    fn project(&self, lens: &Lens, _width: u32, _height: u32, at: (Wide, Wide)) -> SourcePoint {
        let x = (number(at.0) - number(lens.cx)) / number(lens.fx);
        let y = (number(at.1) - number(lens.cy)) / number(lens.fy);
        let r = (x * x + y * y).sqrt();
        let theta = r.atan();
        let t2 = theta * theta;
        let k = lens.distortion;
        let bent = theta
            * (1.0
                + t2 * (number(k[0])
                    + t2 * (number(k[1]) + t2 * (number(k[2]) + t2 * number(k[3])))));
        let scale = if r > 0.0 { bent / r } else { 1.0 };
        SourcePoint {
            x: Some((x * scale * number(lens.fx) + number(lens.cx)).floor() as i64),
            y: Some((y * scale * number(lens.fy) + number(lens.cy)).floor() as i64),
        }
    }

    fn average(&self, samples: &Vec<(u8, u8, u8)>, full_range: bool, gamma: Scalar) -> [Scalar; 3] {
        let inv = 1.0 / f(gamma);
        mean(samples
            .iter()
            .map(|(y, u, v)| decode(*y, *u, *v, full_range, inv)))
    }

    fn average_normalized(
        &self,
        samples: &Vec<[Scalar; 4]>,
        full_range: bool,
        gamma: Scalar,
    ) -> [Scalar; 3] {
        let inv = 1.0 / f(gamma);
        mean(samples
            .iter()
            .map(|p| decode_normalized(f(p[0]), f(p[1]), f(p[2]), full_range, inv)))
    }
}

/// Columns of a grid over a whole picture of three fall on every second pixel from one
/// off the picture on, and rows of two fall on the first pixels. A lens without a focal
/// length sees nothing in particular.
struct Sparse;

impl BandMath for Sparse {
    fn widen(&self, x: Scalar) -> Wide {
        wide(f64::from(f(x)))
    }

    fn wide_sum(&self, a: Wide, b: Wide) -> Wide {
        wide(number(a) + number(b))
    }

    fn wide_difference(&self, a: Wide, b: Wide) -> Wide {
        wide(number(a) - number(b))
    }

    fn wide_product(&self, a: Wide, b: Wide) -> Wide {
        wide(number(a) * number(b))
    }

    fn wide_ratio(&self, a: Wide, b: Wide) -> Wide {
        wide(number(a) / number(b))
    }

    fn wide_whole(&self, n: u32) -> Wide {
        wide(f64::from(n))
    }

    fn sum(&self, a: Scalar, b: Scalar) -> Scalar {
        s(f(a) + f(b))
    }

    fn difference(&self, a: Scalar, b: Scalar) -> Scalar {
        s(f(a) - f(b))
    }

    fn product(&self, a: Scalar, b: Scalar) -> Scalar {
        s(f(a) * f(b))
    }

    fn project(&self, lens: &Lens, width: u32, height: u32, at: (Wide, Wide)) -> SourcePoint {
        let (u, v) = (number(at.0) / f64::from(width), number(at.1) / f64::from(height));
        SourcePoint {
            x: if number(lens.fx).is_nan() {
                None
            } else {
                Some((u * 6.0 - 2.0).round() as i64)
            },
            y: Some((v * 4.0 - 2.5).round() as i64),
        }
    }

    fn average(&self, _: &Vec<(u8, u8, u8)>, _: bool, gamma: Scalar) -> [Scalar; 3] {
        [gamma; 3]
    }

    fn average_normalized(&self, _: &Vec<[Scalar; 4]>, _: bool, gamma: Scalar) -> [Scalar; 3] {
        [gamma; 3]
    }
}

/// A lens that changes nothing.
struct Straight;

impl BandMath for Straight {
    fn widen(&self, x: Scalar) -> Wide {
        wide(f64::from(f(x)))
    }

    fn wide_sum(&self, a: Wide, b: Wide) -> Wide {
        wide(number(a) + number(b))
    }

    fn wide_difference(&self, a: Wide, b: Wide) -> Wide {
        wide(number(a) - number(b))
    }

    fn wide_product(&self, a: Wide, b: Wide) -> Wide {
        wide(number(a) * number(b))
    }

    fn wide_ratio(&self, a: Wide, b: Wide) -> Wide {
        wide(number(a) / number(b))
    }

    fn wide_whole(&self, n: u32) -> Wide {
        wide(f64::from(n))
    }

    fn sum(&self, a: Scalar, b: Scalar) -> Scalar {
        s(f(a) + f(b))
    }

    fn difference(&self, a: Scalar, b: Scalar) -> Scalar {
        s(f(a) - f(b))
    }

    fn product(&self, a: Scalar, b: Scalar) -> Scalar {
        s(f(a) * f(b))
    }

    fn project(&self, _lens: &Lens, _width: u32, _height: u32, at: (Wide, Wide)) -> SourcePoint {
        SourcePoint {
            x: Some(number(at.0).floor() as i64),
            y: Some(number(at.1).floor() as i64),
        }
    }

    fn average(&self, _: &Vec<(u8, u8, u8)>, _: bool, gamma: Scalar) -> [Scalar; 3] {
        [gamma; 3]
    }

    fn average_normalized(&self, _: &Vec<[Scalar; 4]>, _: bool, gamma: Scalar) -> [Scalar; 3] {
        [gamma; 3]
    }
}

fn test_params() -> Lens {
    Lens {
        width: 640,
        height: 480,
        fx: wide(320.0),
        fy: wide(320.0),
        cx: wide(320.0),
        cy: wide(240.0),
        distortion: [wide(0.0342), wide(0.0677), wide(-0.0741), wide(0.0299)],
        correction: s(1.0),
    }
}

type Planes = (Vec<u8>, Vec<u8>, Vec<u8>);

fn solid_yuv420p(width: u32, height: u32, y: u8, u: u8, v: u8) -> Planes {
    (
        vec![y; (width * height) as usize],
        vec![u; ((width / 2) * (height / 2)) as usize],
        vec![v; ((width / 2) * (height / 2)) as usize],
    )
}

fn yuv(planes: &Planes) -> YuvPlanes<'_> {
    YuvPlanes {
        y: &planes.0,
        u: &planes.1,
        v: &planes.2,
    }
}

fn update_yuv420p(
    state: &mut ColorMatchState,
    left: &Planes,
    right: &Planes,
    params: &ColorMatchParams,
) -> ColorCorrection {
    let lenses = (test_params(), test_params());
    state.update_yuv420p(
        &yuv(left),
        &yuv(right),
        640,
        480,
        lenses,
        false,
        params,
        &Math,
    )
}

fn band_mean(planes: &Planes, is_right: bool, params: &ColorMatchParams) -> [f32; 3] {
    let sampler = yuv420p_sampler(&planes.0, &planes.1, &planes.2, 640);
    let lens = test_params();
    let mean = measure_band_mean(640, 480, lens, is_right, false, params, &sampler, &Math)
        .expect("solid band should yield samples");
    [f(mean[0]), f(mean[1]), f(mean[2])]
}

#[test]
fn measure_band_mean_solid_color_matches_decode() {
    let planes = solid_yuv420p(640, 480, 180, 140, 120);
    let mean = band_mean(&planes, true, &ColorMatchParams::default());
    let expected = decode(180, 140, 120, false, 1.0);
    for i in 0..3 {
        assert!(
            (mean[i] - expected[i]).abs() < 1e-4,
            "channel {i}: {mean:?} vs {expected:?}"
        );
    }
}

#[test]
fn band_sample_positions_ignores_the_sky_half() {
    let mut planes = solid_yuv420p(640, 480, 200, 128, 128);
    planes.0[..640 * 240].fill(0);
    let mean = band_mean(&planes, true, &ColorMatchParams::default());
    let expected_ground = decode(200, 128, 128, false, 1.0);
    assert!(
        (mean[0] - expected_ground[0]).abs() < 1e-3,
        "measured {mean:?} should match the ground half {expected_ground:?} alone"
    );
}

#[test]
fn manual_gamma_lifts_the_measured_band_mean() {
    let planes = solid_yuv420p(640, 480, 128, 128, 128);
    let plain = ColorMatchParams {
        gamma_left: s(1.0),
        ..Default::default()
    };
    let flat = band_mean(&planes, false, &plain);
    let lifted_params = ColorMatchParams {
        gamma_left: s(2.0),
        ..Default::default()
    };
    let lifted = band_mean(&planes, false, &lifted_params);
    assert!(
        lifted[0] > flat[0] + 0.05,
        "gamma 2.0 should visibly lift mid-grey luma: {} -> {}",
        flat[0],
        lifted[0]
    );
}

#[test]
fn measure_band_mean_returns_none_when_all_samples_out_of_bounds() {
    let lens = Lens {
        width: 2,
        height: 2,
        ..test_params()
    };
    let (y, u, v) = (vec![0u8; 4], vec![0u8; 1], vec![0u8; 1]);
    let sampler = yuv420p_sampler(&y, &u, &v, 2);
    let match_params = ColorMatchParams::default();
    let mean = measure_band_mean(2, 2, lens, true, false, &match_params, &sampler, &Math);
    assert!(mean.is_none());
}

#[test]
fn samples_from_the_device_are_averaged_like_those_from_memory() {
    let bytes = vec![(180u8, 140u8, 120u8), (20, 128, 128)];
    let numbers: Vec<[Scalar; 4]> = bytes
        .iter()
        .map(|(y, u, v)| {
            [
                s(*y as f32 / 255.0),
                s(*u as f32 / 255.0),
                s(*v as f32 / 255.0),
                s(0.0),
            ]
        })
        .collect();
    let got = mean_of_normalized_samples(&numbers, true, s(2.0), &Math).unwrap();
    assert_eq!(got, Math.average(&bytes, true, s(2.0)));
    // A gamma that cannot be used counts as none.
    let plain = mean_of_normalized_samples(&numbers, true, s(f32::NAN), &Math).unwrap();
    assert_eq!(plain, Math.average(&bytes, true, s(1.0)));
    assert!(mean_of_normalized_samples(&Vec::new(), true, s(1.0), &Math).is_none());
}

#[test]
fn both_layouts_are_matched_alike() {
    let left = solid_yuv420p(640, 480, 100, 130, 120);
    let right = solid_yuv420p(640, 480, 200, 128, 128);
    let pack = |p: &Planes| -> Vec<u8> {
        p.1.iter().zip(&p.2).flat_map(|(u, v)| [*u, *v]).collect()
    };
    let (left_uv, right_uv) = (pack(&left), pack(&right));
    let params = ColorMatchParams::default();
    let mut planar = ColorMatchState::default();
    let mut packed = ColorMatchState::default();
    let a = update_yuv420p(&mut planar, &left, &right, &params);
    let b = packed.update_nv12(
        &Nv12Planes {
            y: &left.0,
            uv: &left_uv,
        },
        &Nv12Planes {
            y: &right.0,
            uv: &right_uv,
        },
        640,
        480,
        (test_params(), test_params()),
        false,
        &params,
        &Math,
    );
    assert_eq!(a.left_offset, b.left_offset);
    assert_eq!(a.right_offset, b.right_offset);
    assert!(f(a.left_offset[0]) > 0.0);
}

#[test]
fn is_fading_plane_matches_renderer_convention() {
    assert!(is_fading_plane(true, false));
    assert!(!is_fading_plane(false, false));
    assert!(is_fading_plane(false, true));
    assert!(!is_fading_plane(true, true));
}

#[test]
fn a_broken_gamma_value_falls_back_to_identity() {
    assert_eq!(inv_gamma(1.0), 1.0);
    assert_eq!(inv_gamma(0.0), 1.0);
    assert_eq!(inv_gamma(-2.0), 1.0);
    assert_eq!(inv_gamma(f32::NAN), 1.0);
    assert_eq!(inv_gamma(f32::INFINITY), 1.0);
    assert!((inv_gamma(2.0) - 0.5).abs() < 1e-6);
}

#[test]
fn manual_gamma_is_per_camera() {
    let planes = solid_yuv420p(640, 480, 128, 128, 128);
    let mut state = ColorMatchState::default();
    let match_params = ColorMatchParams {
        gamma_left: s(2.0),
        ..Default::default()
    };
    let correction = update_yuv420p(&mut state, &planes, &planes, &match_params);
    assert!(
        f(correction.left_offset[0]) < -1e-4,
        "left (gamma-lifted) should be corrected downwards"
    );
    assert!(
        f(correction.right_offset[0]) > 1e-4,
        "right (untouched) should be corrected upwards"
    );
}

#[test]
fn identical_cameras_converge_to_zero_offset() {
    let planes = solid_yuv420p(640, 480, 180, 128, 128);
    let mut state = ColorMatchState::default();
    let match_params = ColorMatchParams::default();
    let correction = update_yuv420p(&mut state, &planes, &planes, &match_params);
    for i in 0..3 {
        assert!(f(correction.left_offset[i]).abs() < 1e-5);
        assert!(f(correction.right_offset[i]).abs() < 1e-5);
    }
}

#[test]
fn mismatched_cameras_converge_toward_shared_mean() {
    let left = solid_yuv420p(640, 480, 100, 128, 128);
    let right = solid_yuv420p(640, 480, 200, 128, 128);
    let mut state = ColorMatchState::default();
    let match_params = ColorMatchParams::default();
    let mut correction = state.current();
    for _ in 0..50 {
        correction = update_yuv420p(&mut state, &left, &right, &match_params);
    }
    assert!(f(correction.left_offset[0]) > 0.0);
    assert!(f(correction.right_offset[0]) < 0.0);
    let limit = f(match_params.max_y_offset);
    assert!(f(correction.left_offset[0]) <= limit + 1e-6);
    assert!(f(correction.right_offset[0]) >= -limit - 1e-6);
}

#[test]
fn force_remeasure_applies_new_params_on_the_very_next_call() {
    let left = solid_yuv420p(640, 480, 100, 128, 128);
    let right = solid_yuv420p(640, 480, 200, 128, 128);
    let mut state = ColorMatchState::default();
    let mut match_params = ColorMatchParams {
        measure_interval_frames: 10_000,
        ..ColorMatchParams::default()
    };
    let first = update_yuv420p(&mut state, &left, &right, &match_params);
    assert!(f(first.left_offset[0]) > 0.0);
    match_params.max_y_offset = s(0.01);
    state.force_remeasure();
    let second = update_yuv420p(&mut state, &left, &right, &match_params);
    assert!(
        f(second.left_offset[0]) <= 0.01 + 1e-6,
        "tightened clamp should apply on the very next call"
    );
}

#[test]
fn a_measurement_that_is_due_stays_due_until_it_is_issued() {
    let mut state = ColorMatchState::default();
    state.set_interval(3);
    for _ in 0..5 {
        assert!(state.measurement_due());
    }
    state.measurement_issued();
    assert!(!state.measurement_due());
    assert!(!state.measurement_due());
    assert!(state.measurement_due());
}

#[test]
fn a_tick_asks_for_a_measurement_only_when_it_is_due() {
    let params = ColorMatchParams {
        measure_interval_frames: 3,
        ema_alpha: s(1.0),
        ..Default::default()
    };
    let mut state = ColorMatchState::default();
    let mut asked = Vec::new();
    for frame in 0..8 {
        if frame == 5 {
            state.force_remeasure();
        }
        let level = f32::from(frame as u8) / 100.0;
        let c = state.tick(
            &params,
            || {
                asked.push(frame);
                let right = if frame == 3 { None } else { Some(scalars([level; 3])) };
                (Some(scalars([0.0; 3])), right)
            },
            &Math,
        );
        assert_eq!(c.left_offset, state.left_offset);
        // At frame 3 a camera has no samples, and at frame 5 it was forced.
        let last = if frame < 5 { 0.0 } else { 0.025 };
        assert!((f(c.left_offset[0]) - last).abs() < 1e-6, "{frame}");
    }
    assert_eq!(asked, vec![0, 3, 5]);
}

#[test]
fn a_picture_is_measured_once_per_interval() {
    let left = solid_yuv420p(640, 480, 100, 128, 128);
    let right = solid_yuv420p(640, 480, 200, 128, 128);
    for interval in [0, 1, 2, 5] {
        let params = ColorMatchParams {
            measure_interval_frames: interval,
            ..ColorMatchParams::default()
        };
        let mut state = ColorMatchState::default();
        let measured: Vec<bool> = (0..12)
            .map(|_| {
                let before = state.left_offset;
                update_yuv420p(&mut state, &left, &right, &params);
                state.left_offset != before
            })
            .collect();
        let every = interval.max(1) as usize;
        let expected: Vec<bool> = (0..12).map(|frame| frame % every == 0).collect();
        assert_eq!(measured, expected);
    }
}

#[test]
fn offsets_stay_opposite_and_within_their_limits() {
    let params = ColorMatchParams {
        measure_interval_frames: 1,
        ..ColorMatchParams::default()
    };
    let (limit, chroma) = (f(params.max_y_offset), f(params.max_chroma_offset));
    let dark = solid_yuv420p(640, 480, 40, 90, 160);
    let bright = solid_yuv420p(640, 480, 220, 150, 100);
    let mut state = ColorMatchState::default();
    for frame in 0..200 {
        // The cameras change places half way.
        let (left, right) = if frame < 100 {
            (&dark, &bright)
        } else {
            (&bright, &dark)
        };
        update_yuv420p(&mut state, left, right, &params);
        for i in 0..3 {
            let (l, r) = (f(state.left_offset[i]), f(state.right_offset[i]));
            let bound = if i == 0 { limit } else { chroma };
            assert!(l.abs() <= bound && r.abs() <= bound, "{frame}: {l} {r}");
            assert_eq!(l, -r);
        }
    }
    assert!((f(state.left_offset[0]) + limit).abs() < 1e-4);
}

#[test]
fn a_camera_without_samples_leaves_the_correction() {
    let mut state = ColorMatchState::default();
    let params = ColorMatchParams::default();
    let full = solid_yuv420p(640, 480, 200, 128, 128);
    let c = update_yuv420p(&mut state, &full, &(vec![], vec![], vec![]), &params);
    assert_eq!(f(c.left_offset[0]), 0.0);
    assert_eq!(state.frames_since_measure, 0);
}

#[test]
fn offsets_are_held_to_their_limits() {
    let params = ColorMatchParams::default();
    let held = clamp_offset(scalars([1.0, -1.0, 0.01]), &params);
    assert_eq!(f(held[0]), 0.06);
    assert_eq!(f(held[1]), -0.04);
    assert_eq!(f(held[2]), 0.01);
}

#[test]
fn both_layouts_give_the_same_sample() {
    let y: Vec<u8> = (0..16).collect();
    let (u, v) = (vec![20u8, 21, 22, 23], vec![30u8, 31, 32, 33]);
    let uv = vec![20u8, 30, 21, 31, 22, 32, 23, 33];
    let planar = yuv420p_sampler(&y, &u, &v, 4);
    let packed = nv12_sampler(&y, &uv, 4);
    assert_eq!(planar.sample(3, 2), Some((11, 23, 33)));
    for row in 0..6 {
        for x in 0..6 {
            assert_eq!(planar.sample(x, row), packed.sample(x, row));
        }
    }
    assert_eq!(packed.sample(0, 4), None);
}

#[test]
fn grid_points_off_the_picture_are_left_out() {
    let params = ColorMatchParams {
        band_width: s(1.0),
        grid_cols: 3,
        grid_rows: 2,
        ..Default::default()
    };
    let got = band_sample_positions(4, 3, test_params(), false, &params, &Sparse);
    // Columns fall on -1, 1 and 3; the last pixel of a row does not count.
    assert_eq!(got, vec![[1, 0], [1, 1]]);
    let blind = Lens {
        fx: wide(f64::NAN),
        ..test_params()
    };
    let lost = band_sample_positions(4, 3, blind, false, &params, &Sparse);
    assert_eq!(lost[0], [0, 0], "what is no number is the first pixel");
    assert_eq!(lost.len(), 6);
}

#[test]
fn only_the_fading_planes_band_moves_with_the_seam() {
    let params = ColorMatchParams {
        grid_cols: 0,
        grid_rows: 0,
        seam_offset: s(0.1),
        ..Default::default()
    };
    let flipped = ColorMatchParams {
        blend_flip_direction: true,
        ..params
    };
    let middle = |is_right: bool, params: &ColorMatchParams| {
        band_sample_positions(1000, 1000, test_params(), is_right, params, &Straight)
    };
    // A grid has at least one point. The rows are in the lower half.
    assert_eq!(middle(true, &params), vec![[175, 750]]);
    assert_eq!(middle(false, &params), vec![[924, 750]]);
    assert_eq!(middle(true, &flipped), vec![[75, 750]]);
    assert_eq!(middle(false, &flipped), vec![[824, 750]]);
    let grid = ColorMatchParams {
        grid_cols: 2,
        grid_rows: 2,
        ..flipped
    };
    assert_eq!(
        middle(true, &grid),
        vec![[37, 625], [112, 625], [37, 875], [112, 875]]
    );
}

fn bounds(is_right: bool, seam_offset: f64, band_width: f64) -> (f64, f64) {
    let (from, to) = seam_band_bounds(is_right, wide(seam_offset), wide(band_width), &Math);
    (number(from), number(to))
}

#[test]
fn seam_band_bounds_tracks_seam_offset() {
    assert_eq!(bounds(true, 0.0, 0.15), (0.0, 0.15));
    assert_eq!(bounds(false, 0.0, 0.15), (0.85, 1.0));
    assert_eq!(bounds(true, 0.1, 0.15), (0.1, 0.25));
    assert_eq!(bounds(false, 0.1, 0.15), (0.75, 0.9));
    assert_eq!(bounds(true, 0.2, 0.15), (0.2, 0.35));
}

#[test]
fn seam_band_bounds_clamps_to_valid_uv_range() {
    assert_eq!(bounds(true, -0.3, 0.15), (0.0, 0.0));
    assert_eq!(bounds(false, -0.3, 0.15), (1.0, 1.0));
}

#[test]
fn samples_that_are_missing_are_left_out() {
    let (y, uv) = (vec![7u8; 4], vec![1u8, 2]);
    let sampler = nv12_sampler(&y, &uv, 2);
    let got = collect_samples(&vec![[0, 0], [0, 5], [1, 1]], &sampler);
    assert_eq!(got, vec![(7, 1, 2), (7, 1, 2)]);
    let params = ColorMatchParams {
        gamma_right: s(3.0),
        ..Default::default()
    };
    let blind = Lens {
        fx: wide(f64::NAN),
        ..test_params()
    };
    let mean = measure_band_mean(2, 2, blind, true, false, &params, &sampler, &Sparse);
    assert_eq!(mean.map(|m| f(m[0])), Some(3.0));
}

#[test]
fn turning_a_position_twice_restores_it() {
    let p = vec![[0u32, 0], [639, 479], [10, 20]];
    let once = mirrored_180(&p, 640, 480);
    assert_eq!(once, vec![[639, 479], [0, 0], [629, 459]]);
    assert_eq!(mirrored_180(&once, 640, 480), p);
    assert_eq!(mirrored_180(&[[700, 2]], 640, 480), vec![[0, 477]]);
}

fn key() -> PositionKey {
    PositionKey {
        band_width: s(0.15),
        grid_cols: 8,
        grid_rows: 16,
        seam_offset: s(0.0),
        blend_flip_direction: false,
        input_width: 640,
        input_height: 480,
        flip_180: (false, false),
    }
}

fn native(words: &[u32]) -> Vec<u8> {
    words.iter().flat_map(|w| w.to_ne_bytes()).collect()
}

#[test]
fn positions_are_uploaded_as_words_and_remembered() {
    let mut gather = BandGather::new();
    assert!(!gather.positions_current(&key()));
    let upload = gather.set_positions(&[[1, 2], [3, 4]], &[[5, 6]], key());
    assert_eq!(upload.left_coords, native(&[1, 2, 3, 4]));
    assert_eq!(upload.right_coords, native(&[5, 6]));
    assert_eq!(upload.left_params, native(&[0, 2, 0, 0]));
    assert_eq!(upload.right_params, native(&[2048, 1, 0, 0]));
    assert!(gather.positions_current(&key()));
    assert!(!gather.positions_current(&PositionKey {
        flip_180: (true, false),
        ..key()
    }));
    assert!(gather.positions_current(&PositionKey {
        seam_offset: s(-0.0),
        ..key()
    }));
    let nan = PositionKey {
        band_width: s(f32::NAN),
        ..key()
    };
    gather.set_positions(&[], &[], nan);
    assert!(!gather.positions_current(&nan));
}

#[test]
fn more_positions_than_fit_are_dropped() {
    let many = vec![[7u32, 8]; 3000];
    let mut gather = BandGather::new();
    let upload = gather.set_positions(&many, &many, key());
    assert_eq!(gather.left_count, MAX_SAMPLES_PER_CAMERA);
    assert_eq!(upload.right_coords.len(), 2048 * 8);
}

#[test]
fn a_gather_goes_round_once() {
    let mut gather = BandGather::new();
    assert!(gather.dispatch().is_none(), "nothing to read yet");
    assert!(gather.is_idle());
    gather.set_positions(&vec![[0, 0]; 65], &[[1, 1]], key());
    let plan = gather.dispatch().unwrap();
    assert_eq!((plan.left_groups, plan.right_groups), (2, 1));
    assert!(!gather.is_idle());
    assert_eq!(gather.begin_take(), TakeAction::RequestMap);
    assert_eq!(gather.begin_take(), TakeAction::PollMap);
    assert!(gather.finish_take(MapPoll::NotYet).is_none());
    assert_eq!(gather.state, Readback::Mapping);
    let mut words = vec![0u32; SAMPLES_BYTES as usize / 4];
    words[4 * 64 + 2] = 0.25f32.to_bits();
    words[4 * 2048] = 0.5f32.to_bits();
    let aligned: &[u8] = bytemuck::cast_slice(&words);
    let samples = gather.finish_take(MapPoll::Ready(aligned)).unwrap();
    assert_eq!(samples.left.len(), 65);
    assert_eq!(f(samples.left[64][2]), 0.25);
    assert_eq!(f(samples.right[0][0]), 0.5);
    assert!(gather.is_idle());
    assert_eq!(gather.begin_take(), TakeAction::Nothing);
    gather.dispatch();
    gather.begin_take();
    assert!(gather.finish_take(MapPoll::Failed).is_none());
    assert!(gather.is_idle());
    // The memory may start anywhere.
    for start in 0..4 {
        let mut memory = vec![0xffu8; start];
        memory.extend_from_slice(aligned);
        gather.dispatch();
        gather.begin_take();
        let samples = gather
            .finish_take(MapPoll::Ready(&memory[start..]))
            .unwrap();
        assert_eq!(f(samples.left[64][2]), 0.25);
        assert_eq!(f(samples.right[0][0]), 0.5);
    }
}

#[test]
fn rejects_zero_and_odd_dimensions() {
    assert!(Nv12Readback::new(0, 480).is_err());
    assert!(Nv12Readback::new(640, 0).is_err());
    assert!(Nv12Readback::new(641, 480).is_err());
    assert!(Nv12Readback::new(640, 481).is_err());
    assert!(Nv12Readback::new(640, 480).is_ok());
}

#[test]
fn allocates_correctly_sized_output_planes() {
    let r = match Nv12Readback::new(64, 32) {
        Ok(r) => r,
        Err(_) => panic!("valid dimensions"),
    };
    assert_eq!(r.frame_size(), (64, 32));
    assert_eq!(r.y_out.len(), 64 * 32, "Y is full resolution");
    assert_eq!(r.uv_out.len(), 64 * 16, "UV is half height, full width");
}

#[test]
fn row_padding_matches_wgpu_alignment_rule() {
    let make = |w, h| match Nv12Readback::new(w, h) {
        Ok(r) => r,
        Err(_) => panic!("valid dimensions"),
    };
    let aligned = make(3840, 2880);
    assert_eq!(aligned.y_bytes_per_row, aligned.y_padded_bytes_per_row);
    let unaligned = make(300, 200);
    assert_eq!(unaligned.y_bytes_per_row, 300);
    assert_eq!(unaligned.y_padded_bytes_per_row, 512);
    let copy = unaligned.uv_copy();
    assert_eq!((copy.width, copy.height), (150, 100));
    assert_eq!(copy.staging_bytes, 512 * 100);
    assert_eq!(unaligned.y_copy().staging_bytes, 512 * 200);
}

#[test]
fn a_readback_strips_the_padding_or_reports_the_failure() {
    let mut r = match Nv12Readback::new(4, 2) {
        Ok(r) => r,
        Err(_) => panic!("valid dimensions"),
    };
    let mut y = vec![0xffu8; 512];
    y[0..4].copy_from_slice(&[1, 2, 3, 4]);
    y[256..260].copy_from_slice(&[5, 6, 7, 8]);
    assert!(r.accept_y(Ok(&y)).is_ok());
    assert_eq!(r.y_out, vec![1, 2, 3, 4, 5, 6, 7, 8]);
    let mut uv = vec![0xffu8; 256];
    uv[0..4].copy_from_slice(&[9, 10, 11, 12]);
    assert!(r.accept_uv(Ok(&uv)).is_ok());
    assert_eq!(r.uv_out, vec![9, 10, 11, 12]);
    let e = r.accept_uv(Err(MapFailure::CallbackDropped)).unwrap_err();
    assert_eq!(e.message(), "buffer map failed: map callback dropped");
    assert_eq!(r.uv_out, vec![9, 10, 11, 12]);
    assert_eq!(
        map_error(MapFailure::Poll("Timeout".to_string())).message(),
        "buffer map failed: poll failed: Timeout"
    );
    let said = |w, h| match Nv12Readback::new(w, h) {
        Err(Nv12ReadbackError::InvalidDimensions(m)) => m,
        _ => String::new(),
    };
    assert_eq!(said(0, 480), "must be > 0, got 0x480");
    assert_eq!(said(641, 480), "must be even, got 641x480");
}
