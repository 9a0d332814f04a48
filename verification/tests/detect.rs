//! Merging of detections, look-ahead buffering and panning.

use reco_core::async_detect::{
    after_try_send, camera_worker_step, queue_depth, run_camera_job, run_job, shared_depth,
    single_worker_step, CameraId, CameraJob, CameraResult, DetectJob, Detection, DetectorError,
    DetectorFrame, MergeState, PendingDetection, RecvAction, RecvEvent, SendAction, SendOutcome,
    UnifiedDetector, WorkerAction, WorkerEvent,
};
use reco_core::calibration::{Calibration, Framing, Lens, Topology};
use reco_core::frame_buffer::{
    BufferedFrame, FrameBuffer, Nv12Data, Nv12FramePair, PendingWorldState, StereoFrame,
};
use reco_core::panner::{
    clamp_pitch_to_limits, dispatch, finish_dispatch, DispatchContext, PanContext, PanMath, Panner,
    PipelineEvent, PipelineEventSink, Tracker, DEFAULT_FOV_DEGREES,
};
use reco_core::scalar::{Scalar, Wide};
use reco_core::world::{
    MappedDetection, TrackState, TrackedEntity, ViewportPosition, WorldState,
};
use std::sync::{Arc, Mutex};

fn s(x: f32) -> Scalar {
    Scalar { bits: x.to_bits() }
}

fn f(x: Scalar) -> f32 {
    f32::from_bits(x.bits)
}

fn wide(x: f64) -> Wide {
    Wide { bits: x.to_bits() }
}

fn detection(camera: CameraId, class_id: u16) -> Detection {
    Detection {
        camera,
        class_id,
        confidence: s(0.9),
        center_x: s(1.0),
        center_y: s(2.0),
        width: s(3.0),
        height: s(4.0),
    }
}

fn result(index: u64, camera: CameraId, class_id: u16) -> CameraResult {
    CameraResult {
        produce_index: index,
        camera,
        detections: vec![detection(camera, class_id)],
    }
}

fn classes(detections: &[Detection]) -> Vec<u16> {
    detections.iter().map(|d| d.class_id).collect()
}

#[test]
fn results_leave_in_submission_order_whatever_arrives_first() {
    let both = vec![CameraId::Left, CameraId::Right];
    let mut merge = MergeState::new();
    merge.submit(10, &both);
    merge.submit(11, &both);
    // The second frame is complete before the first.
    merge.record(result(11, CameraId::Left, 1));
    merge.record(result(11, CameraId::Right, 2));
    assert!(merge.try_take_front().is_none());
    merge.record(result(10, CameraId::Right, 4));
    assert!(merge.try_take_front().is_none());
    merge.record(result(10, CameraId::Left, 3));
    let first = merge.try_take_front().unwrap();
    assert_eq!(first.produce_index, 10);
    assert_eq!(classes(&first.detections), vec![3, 4], "left before right");
    let second = merge.try_take_front().unwrap();
    assert_eq!(second.produce_index, 11);
    assert_eq!(classes(&second.detections), vec![1, 2]);
    assert!(merge.try_take_front().is_none());
}

#[test]
fn a_frame_of_one_camera_does_not_wait_for_the_other() {
    let mut merge = MergeState::new();
    merge.submit(7, &vec![CameraId::Right]);
    merge.record(result(7, CameraId::Right, 5));
    let r = merge.try_take_front().unwrap();
    assert_eq!(classes(&r.detections), vec![5]);
}

#[test]
fn a_frame_of_no_camera_is_delivered_empty() {
    let mut merge = MergeState::new();
    merge.submit(1, &vec![]);
    let r = merge.try_take_front().unwrap();
    assert_eq!(r.produce_index, 1);
    assert!(r.detections.is_empty());
}

#[test]
fn receiving_waits_delivers_and_stops() {
    let mut merge = MergeState::new();
    merge.submit(3, &vec![CameraId::Left]);
    assert!(matches!(
        merge.recv_step(RecvEvent::Begin),
        RecvAction::AwaitCamera
    ));
    match merge.recv_step(RecvEvent::Arrived(result(3, CameraId::Left, 8))) {
        RecvAction::Deliver(r) => assert_eq!(r.produce_index, 3),
        _ => panic!("a complete frame is delivered"),
    }
    assert!(matches!(
        merge.recv_step(RecvEvent::Closed),
        RecvAction::Stop
    ));
}

#[test]
fn a_receive_that_does_not_wait_files_everything_first() {
    let mut merge = MergeState::new();
    merge.submit(0, &vec![CameraId::Left, CameraId::Right]);
    assert!(merge.try_recv(vec![]).is_none());
    let r = merge
        .try_recv(vec![
            result(0, CameraId::Right, 2),
            result(0, CameraId::Left, 1),
        ])
        .unwrap();
    assert_eq!(classes(&r.detections), vec![1, 2]);
}

fn pending(camera: CameraId, first: f32) -> PendingDetection {
    PendingDetection {
        camera,
        tensor: vec![s(first)],
        input_size: 640,
        src_width: 1920,
        src_height: 1080,
    }
}

/// Finds one object of the class that the first number names, and counts what it
/// was shown; a negative number is a failure.
struct CountingDetector(u16);

impl UnifiedDetector for CountingDetector {
    fn detect(
        &mut self,
        camera: CameraId,
        frame: &DetectorFrame<'_>,
    ) -> Result<Vec<Detection>, DetectorError> {
        self.0 += 1;
        let DetectorFrame::PreprocessedChw { data, src_width, .. } = frame;
        assert_eq!(*src_width, 1920);
        match f(data[0]) {
            x if x >= 0.0 => Ok(vec![detection(camera, x as u16)]),
            x if x < -1.5 => Err(DetectorError::Inference("out of memory".to_string())),
            _ => Err(DetectorError::UnsupportedFrameKind),
        }
    }
}

#[test]
fn two_workers_agree_with_one_on_a_frame() {
    let left = pending(CameraId::Left, 1.0);
    let right = pending(CameraId::Right, 2.0);
    let mut detector = CountingDetector(0);
    let mut merge = MergeState::new();
    merge.submit(9, &vec![CameraId::Left, CameraId::Right]);
    merge.record(run_camera_job(&mut detector, 9, &right));
    merge.record(run_camera_job(&mut detector, 9, &left));
    let dual = merge.try_take_front().unwrap();
    let single = run_job(&mut detector, 9, &vec![left, right]);
    assert_eq!(single.produce_index, dual.produce_index);
    assert_eq!(single.detections, dual.detections);
    assert_eq!(classes(&single.detections), vec![1, 2]);
    assert_eq!(detector.0, 4);
}

#[test]
fn a_detector_that_fails_contributes_nothing() {
    let mut detector = CountingDetector(0);
    let merged = run_job(
        &mut detector,
        4,
        &vec![
            pending(CameraId::Left, 1.0),
            pending(CameraId::Left, -1.0),
            pending(CameraId::Right, -2.0),
            pending(CameraId::Right, 2.0),
        ],
    );
    assert_eq!(classes(&merged.detections), vec![1, 2]);
    assert_eq!(detector.0, 4, "every picture is searched");
    let failed = run_camera_job(&mut detector, 4, &pending(CameraId::Left, -1.0));
    assert!(failed.detections.is_empty());
    assert_eq!((failed.produce_index, failed.camera), (4, CameraId::Left));
}

/// Finds one object per picture, and numbers them.
struct NumberingDetector {
    next_id: u16,
}

impl UnifiedDetector for NumberingDetector {
    fn detect(
        &mut self,
        camera: CameraId,
        frame: &DetectorFrame<'_>,
    ) -> Result<Vec<Detection>, DetectorError> {
        let DetectorFrame::PreprocessedChw { data, input_size, .. } = frame;
        assert_eq!((data.len(), *input_size), (48, 4));
        let id = self.next_id;
        self.next_id += 1;
        Ok(vec![detection(camera, id)])
    }
}

fn make_pending(camera: CameraId) -> PendingDetection {
    PendingDetection {
        camera,
        tensor: vec![s(0.0); 3 * 4 * 4],
        input_size: 4,
        src_width: 8,
        src_height: 8,
    }
}

#[test]
fn resolves_results_in_submission_order() {
    let mut detector = NumberingDetector { next_id: 0 };
    for expected_index in 0..5u64 {
        let result = run_job(
            &mut detector,
            expected_index,
            &vec![make_pending(CameraId::Left)],
        );
        assert_eq!(result.produce_index, expected_index);
        assert_eq!(result.detections.len(), 1);
        assert_eq!(classes(&result.detections), vec![expected_index as u16]);
    }
}

#[test]
fn merges_both_cameras_into_one_result() {
    let result = run_job(
        &mut NumberingDetector { next_id: 0 },
        0,
        &vec![make_pending(CameraId::Left), make_pending(CameraId::Right)],
    );
    assert_eq!(result.detections.len(), 2);
    assert_eq!(result.detections[0].camera, CameraId::Left);
    assert_eq!(result.detections[1].camera, CameraId::Right);
}

#[test]
fn dual_resolves_results_in_submission_order() {
    let mut left = NumberingDetector { next_id: 0 };
    let mut right = NumberingDetector { next_id: 100 };
    let mut merge = MergeState::new();
    for i in 0..5u64 {
        merge.submit(i, &vec![CameraId::Left, CameraId::Right]);
    }
    // The right worker is done with everything before the left one starts.
    for i in 0..5u64 {
        merge.record(run_camera_job(&mut right, i, &make_pending(CameraId::Right)));
        assert!(merge.try_take_front().is_none());
    }
    for i in 0..5u64 {
        merge.record(run_camera_job(&mut left, i, &make_pending(CameraId::Left)));
    }
    for expected_index in 0..5u64 {
        let RecvAction::Deliver(result) = merge.recv_step(RecvEvent::Begin) else {
            panic!("result available");
        };
        assert_eq!(result.produce_index, expected_index);
        assert_eq!(result.detections.len(), 2);
        assert_eq!(result.detections[0].camera, CameraId::Left);
        assert_eq!(result.detections[1].camera, CameraId::Right);
    }
}

#[test]
fn dual_single_camera_job_does_not_wait_on_the_other() {
    let mut left = NumberingDetector { next_id: 0 };
    let mut merge = MergeState::new();
    merge.submit(0, &vec![CameraId::Left]);
    merge.record(run_camera_job(&mut left, 0, &make_pending(CameraId::Left)));
    let RecvAction::Deliver(result) = merge.recv_step(RecvEvent::Begin) else {
        panic!("result available");
    };
    assert_eq!(result.produce_index, 0);
    assert_eq!(result.detections.len(), 1);
    assert_eq!(result.detections[0].camera, CameraId::Left);
}

#[test]
fn a_worker_delivers_one_result_per_job_in_order() {
    let mut detector = NumberingDetector { next_id: 0 };
    assert!(matches!(
        single_worker_step(&mut detector, WorkerEvent::Started),
        WorkerAction::AwaitJob
    ));
    for index in [7u64, 3, 5] {
        let job = DetectJob {
            produce_index: index,
            pending: vec![make_pending(CameraId::Left), make_pending(CameraId::Right)],
        };
        let first = detector.next_id;
        let WorkerAction::Deliver(result) =
            single_worker_step(&mut detector, WorkerEvent::Received(job))
        else {
            panic!("one result per job");
        };
        assert_eq!(result.produce_index, index);
        assert_eq!(classes(&result.detections), vec![first, first + 1]);
        assert!(matches!(
            single_worker_step(&mut detector, WorkerEvent::Delivered),
            WorkerAction::AwaitJob
        ));
    }
    for last in [WorkerEvent::QueueClosed, WorkerEvent::ReceiverGone] {
        assert!(matches!(
            single_worker_step(&mut detector, last),
            WorkerAction::Stop
        ));
    }
    assert_eq!(detector.next_id, 6, "only jobs are searched");
}

#[test]
fn a_camera_worker_reports_each_picture() {
    let mut detector = CountingDetector(0);
    assert!(matches!(
        camera_worker_step(&mut detector, WorkerEvent::Started),
        WorkerAction::AwaitJob
    ));
    for (index, first, found) in [(4u64, 8.0, vec![8]), (2, -1.0, vec![]), (9, 6.0, vec![6])] {
        let job = CameraJob {
            produce_index: index,
            pending: pending(CameraId::Right, first),
        };
        let WorkerAction::Deliver(report) =
            camera_worker_step(&mut detector, WorkerEvent::Received(job))
        else {
            panic!("one report per picture");
        };
        assert_eq!((report.produce_index, report.camera), (index, CameraId::Right));
        assert_eq!(classes(&report.detections), found);
        assert!(matches!(
            camera_worker_step(&mut detector, WorkerEvent::Delivered),
            WorkerAction::AwaitJob
        ));
    }
    for last in [WorkerEvent::QueueClosed, WorkerEvent::ReceiverGone] {
        assert!(matches!(
            camera_worker_step(&mut detector, last),
            WorkerAction::Stop
        ));
    }
    assert_eq!(detector.0, 3);
}

#[test]
fn queues_hold_at_least_one_job() {
    assert_eq!(queue_depth(0), 1);
    assert_eq!(queue_depth(5), 5);
    assert_eq!(queue_depth(usize::MAX), usize::MAX);
    assert_eq!(shared_depth(5), 10);
    assert_eq!(after_try_send(SendOutcome::Sent), SendAction::Finished);
    assert_eq!(after_try_send(SendOutcome::Full), SendAction::SendBlocking);
    assert_eq!(
        after_try_send(SendOutcome::Disconnected),
        SendAction::DropJob
    );
}

struct Math;

impl PanMath for Math {
    fn half_view(&self, fov_degrees: Scalar) -> Scalar {
        s((f(fov_degrees) * 0.5).to_radians())
    }

    fn sum(&self, a: Scalar, b: Scalar) -> Scalar {
        s(f(a) + f(b))
    }

    fn difference(&self, a: Scalar, b: Scalar) -> Scalar {
        s(f(a) - f(b))
    }
}

fn clamp_pitch(pitch: f32, fov_degrees: Option<f32>, limits: (Option<f32>, Option<f32>)) -> f32 {
    f(clamp_pitch_to_limits(
        s(pitch),
        fov_degrees.map(s),
        (limits.0.map(s), limits.1.map(s)),
        &Math,
    ))
}

#[test]
fn a_pose_without_a_field_of_view_is_limited_by_the_usual_one() {
    assert_eq!(f32::from_bits(DEFAULT_FOV_DEGREES), 75.0);
    let limits = (Some(1.0), None);
    assert_eq!(
        clamp_pitch(0.9, None, limits),
        clamp_pitch(0.9, Some(75.0), limits)
    );
}

#[test]
fn clamp_pitch_to_limits_no_limit_passes_through() {
    assert_eq!(clamp_pitch(0.5, Some(50.0), (None, None)), 0.5);
}

#[test]
fn clamp_pitch_to_limits_clamps_both_bounds() {
    assert_eq!(clamp_pitch(0.9, Some(0.0), (Some(0.4), Some(-0.4))), 0.4);
    assert_eq!(clamp_pitch(-0.9, Some(0.0), (Some(0.4), Some(-0.4))), -0.4);
    assert_eq!(clamp_pitch(0.1, Some(0.0), (Some(0.4), Some(-0.4))), 0.1);
}

#[test]
fn clamp_pitch_to_limits_one_sided_bounds() {
    assert_eq!(clamp_pitch(0.9, Some(0.0), (Some(0.4), None)), 0.4);
    assert_eq!(clamp_pitch(-0.9, Some(0.0), (Some(0.4), None)), -0.9);
    assert_eq!(clamp_pitch(-0.9, Some(0.0), (None, Some(-0.4))), -0.4);
    assert_eq!(clamp_pitch(0.9, Some(0.0), (None, Some(-0.4))), 0.9);
}

#[test]
fn clamp_pitch_to_limits_fails_open_on_inverted_bounds() {
    assert_eq!(clamp_pitch(0.5, Some(0.0), (Some(-0.4), Some(0.4))), 0.5);
}

#[test]
fn clamp_pitch_to_limits_margins_by_half_the_fov_not_just_center() {
    let limits = (Some(0.4_f32), Some(-0.4_f32));
    let half_vfov = 10.0_f32.to_radians();
    let clamped = clamp_pitch(0.39, Some(20.0), limits);
    assert!((clamped + half_vfov - 0.4).abs() < 1e-5);
    let clamped = clamp_pitch(-0.39, Some(20.0), limits);
    assert!((clamped - half_vfov - (-0.4)).abs() < 1e-5);
    assert_eq!(clamp_pitch(0.0, Some(20.0), limits), 0.0);
}

#[test]
fn clamp_pitch_to_limits_falls_back_to_center_clamp_when_fov_too_wide_for_margin() {
    let clamped = clamp_pitch(0.9, Some(170.0), (Some(0.4), Some(-0.4)));
    assert_eq!(clamped, 0.4);
}

#[test]
fn a_limited_pitch_is_not_moved_again_and_a_nan_is_held_by_one_bound() {
    let limits = (Some(0.4_f32), Some(-0.4_f32));
    let once = clamp_pitch(0.39, Some(20.0), limits);
    assert_eq!(clamp_pitch(once, Some(20.0), limits), once);
    assert_eq!(clamp_pitch(f32::NAN, Some(0.0), (Some(0.4), None)), 0.4);
    assert!(clamp_pitch(f32::NAN, Some(0.0), limits).is_nan());
}

fn test_lens() -> Lens {
    Lens {
        width: 1920,
        height: 1080,
        fx: wide(900.0),
        fy: wide(900.0),
        cx: wide(960.0),
        cy: wide(540.0),
        distortion: [wide(0.0); 4],
        correction: s(1.0),
    }
}

fn test_calibration() -> Calibration {
    Calibration {
        lenses: vec![test_lens(), test_lens()],
        topology: Topology {
            intersect: wide(0.54),
            x_ty: wide(0.0),
            x_rz: wide(0.0),
            z_rx: wide(0.0),
            x_rx: wide(0.0),
            z_rz: wide(0.0),
            blend_width: s(0.05),
            blend_flip_direction: false,
            seam_offset: s(0.0),
            multiband_blend_enabled: false,
            color_match_enabled: true,
            color_match_band_width: s(0.15),
            color_match_grid_cols: 8,
            color_match_grid_rows: 16,
            color_match_interval_frames: 15,
            color_match_ema_alpha: s(0.15),
            color_match_max_y_offset: s(0.06),
            color_match_max_chroma_offset: s(0.04),
            color_gamma_left: s(1.0),
            color_gamma_right: s(1.0),
            color_match_auto_gamma: false,
            color_grade_brightness: s(0.0),
            color_grade_saturation: s(1.0),
            color_grade_gamma: s(1.0),
            sharpen_amount: s(0.0),
            sharpen_radius: s(1.0),
            ground_tilt_x: wide(0.0),
            ground_tilt_z: wide(0.0),
            top_tilt_x: wide(0.0),
            top_tilt_z: wide(0.0),
            ground_tilt_band_width: wide(0.16),
            top_tilt_band_width: wide(0.16),
        },
        framing: Framing {
            axis_offset: wide(0.24),
            tilt: wide(0.0),
            roll: wide(0.0),
        },
    }
}

struct EchoPanner;

impl Panner for EchoPanner {
    fn decide(&mut self, world: &WorldState, _ctx: &PanContext<'_>) -> ViewportPosition {
        match world.ball {
            Some(b) => ViewportPosition {
                yaw: b.yaw,
                pitch: b.pitch,
                fov_degrees: None,
            },
            None => ViewportPosition::default(),
        }
    }
}

fn entity(id: u64, yaw: f32, pitch: f32, state: TrackState) -> TrackedEntity {
    TrackedEntity {
        id,
        class_id: 0,
        yaw: s(yaw),
        pitch: s(pitch),
        confidence: s(0.9),
        state,
        age_frames: 5,
        origin: CameraId::Left,
    }
}

#[test]
fn echo_panner_follows_ball() {
    let cal = test_calibration();
    let mut p: Box<dyn Panner> = Box::new(EchoPanner);
    let world = WorldState {
        ball: Some(entity(0, 0.3, -0.05, TrackState::Tracking)),
        players: vec![],
    };
    let ctx = PanContext {
        frame_index: 0,
        timestamp_ms: wide(0.0),
        previous_position: ViewportPosition::default(),
        calibration: &cal,
    };
    let out = p.decide(&world, &ctx);
    assert_eq!(f(out.yaw), 0.3);
    assert_eq!(f(out.pitch), -0.05);
}

#[test]
fn echo_panner_defaults_without_ball() {
    let cal = test_calibration();
    let mut p = EchoPanner;
    let world = WorldState::default();
    let ctx = PanContext {
        frame_index: 0,
        timestamp_ms: wide(0.0),
        previous_position: ViewportPosition::default(),
        calibration: &cal,
    };
    let out = p.decide(&world, &ctx);
    assert_eq!(f(out.yaw), 0.0);
    assert_eq!(f(out.pitch), 0.0);
}

struct Reports(Vec<PipelineEvent>);

impl PipelineEventSink for Reports {
    fn emit(&mut self, event: PipelineEvent) {
        self.0.push(event);
    }
}

struct FixedTracker(Vec<TrackedEntity>);

impl Tracker for FixedTracker {
    fn update(&mut self, _detections: &[MappedDetection], _timestamp_ms: Wide) -> Vec<TrackedEntity> {
        self.0.clone()
    }
}

#[test]
fn a_dispatch_tracks_decides_and_limits() {
    let cal = test_calibration();
    let ctx = DispatchContext {
        detections: &[],
        calibration: &cal,
        frame_index: 12,
        timestamp_ms: wide(400.0),
        pitch_limit: (Some(s(1.0)), Some(s(-1.0))),
    };
    let mut players = FixedTracker(vec![
        entity(1, 0.0, 0.0, TrackState::Tracking),
        entity(2, 0.0, 0.0, TrackState::Lost),
    ]);
    let mut balls = FixedTracker(vec![
        entity(3, 0.2, 0.95, TrackState::Tracking),
        entity(4, 0.9, 0.9, TrackState::Tracking),
    ]);
    let mut pose = ViewportPosition::default();
    let mut events = Reports(Vec::new());
    let r = dispatch(
        Some(&mut EchoPanner),
        Some(&mut players),
        Some(&mut balls),
        &mut pose,
        Some(&mut events),
        &ctx,
        &Math,
    )
    .unwrap();
    assert_eq!(r.active_tracks, 2);
    assert!(r.ball_present);
    assert_eq!(f(r.pose.yaw), 0.2, "the first ball counts");
    let half = (75.0_f32 * 0.5).to_radians();
    assert_eq!(f(r.pose.pitch), 1.0 - half);
    assert_eq!(pose, r.pose);
    let events = events.0;
    assert_eq!(events.len(), 2);
    assert!(matches!(
        events[0],
        PipelineEvent::WorldState { frame_index: 12, .. }
    ));
    assert!(matches!(
        events[1],
        PipelineEvent::PanDecision { frame_index: 12, .. }
    ));
    let none: Option<&mut EchoPanner> = None;
    let mut silent = Reports(Vec::new());
    assert!(dispatch(
        none,
        Some(&mut players),
        Some(&mut balls),
        &mut pose,
        Some(&mut silent),
        &ctx,
        &Math
    )
    .is_none());
    assert!(silent.0.is_empty());
}

/// Notes what it is asked in a list that it shares.
struct Noting(Arc<Mutex<Vec<&'static str>>>);

impl Panner for Noting {
    fn decide(&mut self, _world: &WorldState, _ctx: &PanContext<'_>) -> ViewportPosition {
        self.0.lock().unwrap().push("decides");
        ViewportPosition::default()
    }

    fn debug_event(&self, frame_index: u64) -> Option<PipelineEvent> {
        self.0.lock().unwrap().push("explains");
        Some(PipelineEvent::PanDecision {
            frame_index: frame_index + 1,
            pose: ViewportPosition::default(),
        })
    }
}

impl PipelineEventSink for Noting {
    fn emit(&mut self, event: PipelineEvent) {
        self.0.lock().unwrap().push(match event {
            PipelineEvent::WorldState { .. } => "world",
            PipelineEvent::PanDecision { frame_index: 12, .. } => "decision",
            _ => "explanation",
        });
    }
}

#[test]
fn the_world_is_reported_before_the_panner_decides() {
    let cal = test_calibration();
    let ctx = DispatchContext {
        detections: &[],
        calibration: &cal,
        frame_index: 12,
        timestamp_ms: wide(400.0),
        pitch_limit: (None, None),
    };
    let notes = Arc::new(Mutex::new(Vec::new()));
    let no_tracker: Option<&mut FixedTracker> = None;
    let no_ball: Option<&mut FixedTracker> = None;
    dispatch(
        Some(&mut Noting(notes.clone())),
        no_tracker,
        no_ball,
        &mut ViewportPosition::default(),
        Some(&mut Noting(notes.clone())),
        &ctx,
        &Math,
    )
    .unwrap();
    assert_eq!(
        *notes.lock().unwrap(),
        vec!["world", "decides", "decision", "explains", "explanation"]
    );
}

#[test]
fn a_lost_ball_is_not_present() {
    let world = WorldState {
        ball: Some(entity(0, 0.0, 0.0, TrackState::Lost)),
        players: vec![],
    };
    let r = finish_dispatch(&world, ViewportPosition::default(), (None, None), &Math);
    assert!(!r.ball_present);
    assert_eq!(r.active_tracks, 0);
}

fn make_frame(ball_yaw: f32) -> BufferedFrame {
    let data = || Nv12Data {
        y: vec![128; 4],
        uv: vec![128; 2],
    };
    BufferedFrame {
        frame: StereoFrame::Nv12(Nv12FramePair {
            left: data(),
            right: data(),
        }),
        world_state: PendingWorldState::Ready(WorldState {
            ball: Some(entity(0, ball_yaw, 0.1, TrackState::Tracking)),
            players: vec![],
        }),
        detections: vec![],
        elapsed_ms: wide(0.0),
        decode_nanos: 3_000_000,
        vram_slot: None,
    }
}

fn make_pending_frame(produce_index: u64) -> BufferedFrame {
    let mut frame = make_frame(0.0);
    frame.world_state = PendingWorldState::Pending(produce_index);
    frame
}

fn ball_yaw(frame: &BufferedFrame) -> f32 {
    let PendingWorldState::Ready(ws) = &frame.world_state else {
        panic!("test frames are always Ready");
    };
    f(ws.ball.as_ref().unwrap().yaw)
}

#[test]
fn push_pop_fifo_order() {
    let mut buf = FrameBuffer::new(3);
    buf.push(make_frame(0.1));
    buf.push(make_frame(0.2));
    buf.push(make_frame(0.3));
    assert!((ball_yaw(&buf.pop().unwrap()) - 0.1).abs() < 1e-6);
    assert!((ball_yaw(&buf.pop().unwrap()) - 0.2).abs() < 1e-6);
    assert!((ball_yaw(&buf.pop().unwrap()) - 0.3).abs() < 1e-6);
    assert!(buf.pop().is_none());
}

#[test]
fn fullness_tracking() {
    let mut buf = FrameBuffer::new(2);
    assert!(buf.is_empty());
    assert!(!buf.is_full());
    buf.push(make_frame(0.0));
    assert_eq!(buf.len(), 1);
    assert!(!buf.is_full());
    buf.push(make_frame(0.0));
    assert_eq!(buf.len(), 2);
    assert!(buf.is_full());
}

#[test]
fn future_world_states_returns_remaining() {
    let mut buf = FrameBuffer::new(5);
    for i in 0..4 {
        buf.push(make_frame(i as f32 * 0.1));
    }
    buf.pop();
    let futures = buf.future_world_states();
    assert_eq!(futures.len(), 3);
    let yaws: Vec<f32> = futures
        .iter()
        .map(|ws| f(ws.ball.as_ref().unwrap().yaw))
        .collect();
    assert!((yaws[0] - 0.1).abs() < 1e-6);
    assert!((yaws[1] - 0.2).abs() < 1e-6);
    assert!((yaws[2] - 0.3).abs() < 1e-6);
}

#[test]
fn pending_frame_falls_back_to_last_resolved_without_blocking() {
    let mut buf = FrameBuffer::new(5);
    buf.push(make_pending_frame(0));
    let futures = buf.future_world_states();
    assert_eq!(futures.len(), 1);
    assert!(futures[0].ball.is_none());
}

#[test]
fn pending_frame_uses_most_recent_resolved_fallback() {
    let mut buf = FrameBuffer::new(5);
    buf.push(make_pending_frame(0));
    buf.set_last_resolved(WorldState {
        ball: Some(TrackedEntity {
            id: 7,
            class_id: 0,
            yaw: s(0.42),
            pitch: s(0.0),
            confidence: s(0.5),
            state: TrackState::Tracking,
            age_frames: 3,
            origin: CameraId::Right,
        }),
        players: vec![],
    });
    let futures = buf.future_world_states();
    assert!((f(futures[0].ball.as_ref().unwrap().yaw) - 0.42).abs() < 1e-6);
}

#[test]
fn ready_and_pending_frames_mix_correctly() {
    let mut buf = FrameBuffer::new(5);
    buf.push(make_frame(0.1));
    buf.push(make_pending_frame(1));
    buf.set_last_resolved(WorldState {
        ball: Some(TrackedEntity {
            id: 0,
            class_id: 0,
            yaw: s(0.99),
            pitch: s(0.0),
            confidence: s(0.5),
            state: TrackState::Tracking,
            age_frames: 1,
            origin: CameraId::Left,
        }),
        players: vec![],
    });
    let futures = buf.future_world_states();
    assert!(
        (f(futures[0].ball.as_ref().unwrap().yaw) - 0.1).abs() < 1e-6,
        "Ready frame keeps its own value"
    );
    assert!(
        (f(futures[1].ball.as_ref().unwrap().yaw) - 0.99).abs() < 1e-6,
        "Pending frame uses the fallback"
    );
}
