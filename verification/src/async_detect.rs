//! Merging of per-camera detection results into one result per frame.
//!
//! Two workers, one per camera, finish in any order. `MergeState` holds what
//! has arrived until the oldest submitted frame is complete, so results leave
//! in the order in which frames were submitted.

use crate::scalar::Scalar;
use std::collections::{HashMap, VecDeque};
use vstd::prelude::*;

verus! {

broadcast use vstd::std_specs::hash::group_hash_axioms;

#[derive(Clone, Copy, Debug, PartialEq, Eq, Structural)]
pub enum CameraId {
    Left,
    Right,
}

/// One detected object, in the pixels of one camera.
#[derive(Clone, Copy, Debug, PartialEq, Eq, Structural)]
pub struct Detection {
    pub camera: CameraId,
    pub class_id: u16,
    pub confidence: Scalar,
    pub center_x: Scalar,
    pub center_y: Scalar,
    pub width: Scalar,
    pub height: Scalar,
}

/// Why a detector gave no detections for a frame.
#[derive(Clone, Debug)]
pub enum DetectorError {
    UnsupportedFrameKind,
    Inference(String),
}

/// One camera's picture, as a detector takes it.
pub enum DetectorFrame<'a> {
    /// Scaled to the detector's size, one channel after the other.
    PreprocessedChw {
        data: &'a Vec<Scalar>,
        input_size: u32,
        src_width: u32,
        src_height: u32,
    },
}

/// What finds objects in pictures.
pub trait UnifiedDetector {
    fn detect(&mut self, camera: CameraId, frame: &DetectorFrame<'_>) -> Result<
        Vec<Detection>,
        DetectorError,
    >;
}

/// A picture that is to be searched.
pub struct PendingDetection {
    pub camera: CameraId,
    pub tensor: Vec<Scalar>,
    pub input_size: u32,
    pub src_width: u32,
    pub src_height: u32,
}

impl PendingDetection {
    pub open spec fn spec_frame(self) -> DetectorFrame<'static> {
        DetectorFrame::PreprocessedChw {
            data: &self.tensor,
            input_size: self.input_size,
            src_width: self.src_width,
            src_height: self.src_height,
        }
    }

    pub fn frame(&self) -> (f: DetectorFrame<'_>)
        ensures
            f == self.spec_frame(),
    {
        DetectorFrame::PreprocessedChw {
            data: &self.tensor,
            input_size: self.input_size,
            src_width: self.src_width,
            src_height: self.src_height,
        }
    }
}

/// What one camera's worker found in one submitted frame.
pub struct CameraResult {
    pub produce_index: u64,
    pub camera: CameraId,
    pub detections: Vec<Detection>,
}

/// What was found in one submitted frame, over all its cameras.
pub struct DetectResult {
    pub produce_index: u64,
    pub detections: Vec<Detection>,
}

/// The contents of a `MergeState`: the submitted frames not yet delivered,
/// oldest first; what arrived from each camera; and, per frame, which cameras
/// (left, right) it waits for.
#[verifier::ext_equal]
pub struct Merge {
    pub order: Seq<u64>,
    pub left: Map<u64, Seq<Detection>>,
    pub right: Map<u64, Seq<Detection>>,
    pub expects: Map<u64, (bool, bool)>,
}

pub open spec fn found(arrived: Map<u64, Seq<Detection>>, index: u64) -> Seq<Detection> {
    if arrived.contains_key(index) {
        arrived[index]
    } else {
        Seq::empty()
    }
}

impl Merge {
    pub open spec fn empty() -> Merge {
        Merge {
            order: Seq::empty(),
            left: Map::empty(),
            right: Map::empty(),
            expects: Map::empty(),
        }
    }

    /// Every camera that the oldest frame waits for has reported.
    pub open spec fn front_ready(self) -> bool {
        &&& self.order.len() > 0
        &&& self.expects.contains_key(self.order[0])
        &&& self.expects[self.order[0]].0 ==> self.left.contains_key(self.order[0])
        &&& self.expects[self.order[0]].1 ==> self.right.contains_key(self.order[0])
    }

    /// The detections of the oldest frame, left camera before right.
    pub open spec fn front_detections(self) -> Seq<Detection> {
        found(self.left, self.order[0]) + found(self.right, self.order[0])
    }

    pub open spec fn without_front(self) -> Merge {
        Merge {
            order: self.order.subrange(1, self.order.len() as int),
            left: self.left.remove(self.order[0]),
            right: self.right.remove(self.order[0]),
            expects: self.expects.remove(self.order[0]),
        }
    }

    pub open spec fn recorded(
        self,
        camera: CameraId,
        index: u64,
        detections: Seq<Detection>,
    ) -> Merge {
        match camera {
            CameraId::Left => Merge { left: self.left.insert(index, detections), ..self },
            CameraId::Right => Merge { right: self.right.insert(index, detections), ..self },
        }
    }

    pub open spec fn submitted(self, index: u64, cameras: Seq<CameraId>) -> Merge {
        Merge {
            order: self.order.push(index),
            expects: self.expects.insert(
                index,
                (cameras.contains(CameraId::Left), cameras.contains(CameraId::Right)),
            ),
            ..self
        }
    }

    /// After the arrivals, in the order in which they came.
    pub open spec fn recorded_all(self, arrived: Seq<CameraResult>) -> Merge
        decreases arrived.len(),
    {
        if arrived.len() == 0 {
            self
        } else {
            let last = arrived.last();
            self.recorded_all(arrived.drop_last()).recorded(
                last.camera,
                last.produce_index,
                last.detections@,
            )
        }
    }

    /// What a caller that asks for the next result is given, and what remains.
    pub open spec fn taken(self, result: Option<DetectResult>, after: Merge) -> bool {
        match result {
            Some(r) => {
                &&& self.front_ready()
                &&& r.produce_index == self.order[0]
                &&& r.detections@ == self.front_detections()
                &&& after == self.without_front()
            },
            None => !self.front_ready() && after == self,
        }
    }
}

pub struct MergeState {
    order: VecDeque<u64>,
    left: HashMap<u64, Vec<Detection>>,
    right: HashMap<u64, Vec<Detection>>,
    expects: HashMap<u64, (bool, bool)>,
}

pub open spec fn contents(m: Map<u64, Vec<Detection>>) -> Map<u64, Seq<Detection>> {
    m.map_values(|v: Vec<Detection>| v@)
}

impl View for MergeState {
    type V = Merge;

    closed spec fn view(&self) -> Merge {
        Merge {
            order: self.order@,
            left: contents(self.left@),
            right: contents(self.right@),
            expects: self.expects@,
        }
    }
}

/// What the receiving side has just seen.
pub enum RecvEvent {
    /// The caller asks for a result.
    Begin,
    /// A worker reported.
    Arrived(CameraResult),
    /// Every worker is gone.
    Closed,
}

/// What the receiving side does next.
pub enum RecvAction {
    Deliver(DetectResult),
    AwaitCamera,
    Stop,
}

impl MergeState {
    pub fn new() -> (s: MergeState)
        ensures
            s@ == Merge::empty(),
    {
        let s = MergeState {
            order: VecDeque::new(),
            left: HashMap::new(),
            right: HashMap::new(),
            expects: HashMap::new(),
        };
        s
    }

    /// Hands out the oldest frame's result once every camera it waits for has
    /// reported. A later frame never overtakes it.
    pub fn try_take_front(&mut self) -> (result: Option<DetectResult>)
        ensures
            old(self)@.taken(result, final(self)@),
    {
        if self.order.len() == 0 {
            return None;
        }
        let front: u64 = self.order[0];
        let (expect_left, expect_right): (bool, bool) = match self.expects.get(&front) {
            Some(e) => *e,
            None => {
                return None;
            },
        };
        let have_left: bool = !expect_left || self.left.contains_key(&front);
        let have_right: bool = !expect_right || self.right.contains_key(&front);
        if !have_left || !have_right {
            return None;
        }
        self.order.pop_front();
        self.expects.remove(&front);
        let mut detections: Vec<Detection> = match self.left.remove(&front) {
            Some(v) => v,
            None => Vec::new(),
        };
        let mut from_right: Vec<Detection> = match self.right.remove(&front) {
            Some(v) => v,
            None => Vec::new(),
        };
        detections.append(&mut from_right);
        assert(self@ =~= old(self)@.without_front());
        Some(DetectResult { produce_index: front, detections })
    }

    /// Files what one camera found in one frame.
    pub fn record(&mut self, result: CameraResult)
        ensures
            final(self)@ == old(self)@.recorded(
                result.camera,
                result.produce_index,
                result.detections@,
            ),
    {
        match result.camera {
            CameraId::Left => {
                self.left.insert(result.produce_index, result.detections);
            },
            CameraId::Right => {
                self.right.insert(result.produce_index, result.detections);
            },
        }
    }

    /// Notes a submitted frame and the cameras that will report on it.
    pub fn submit(&mut self, produce_index: u64, cameras: &Vec<CameraId>)
        ensures
            final(self)@ == old(self)@.submitted(produce_index, cameras@),
    {
        let mut expect_left: bool = false;
        let mut expect_right: bool = false;
        let mut i: usize = 0;
        while i < cameras.len()
            invariant
                i <= cameras@.len(),
                expect_left == cameras@.take(i as int).contains(CameraId::Left),
                expect_right == cameras@.take(i as int).contains(CameraId::Right),
            decreases cameras@.len() - i,
        {
            proof {
                let before = cameras@.take(i as int);
                let after = cameras@.take(i + 1);
                assert forall|c: CameraId| after.contains(c) <==> before.contains(c)
                    || c == cameras@[i as int] by {
                    if c == cameras@[i as int] {
                        assert(after[i as int] == c);
                    }
                }
            }
            match cameras[i] {
                CameraId::Left => {
                    expect_left = true;
                },
                CameraId::Right => {
                    expect_right = true;
                },
            }
            i += 1;
        }
        assert(cameras@.take(i as int) =~= cameras@);
        self.order.push_back(produce_index);
        self.expects.insert(produce_index, (expect_left, expect_right));
    }

    /// One step of a blocking receive.
    pub fn recv_step(&mut self, event: RecvEvent) -> (action: RecvAction)
        ensures
            event is Closed <==> action is Stop,
            event is Closed ==> final(self)@ == old(self)@,
            event is Begin ==> match action {
                RecvAction::Deliver(r) => old(self)@.taken(Some(r), final(self)@),
                _ => old(self)@.taken(None, final(self)@),
            },
            event matches RecvEvent::Arrived(c) ==> {
                let filed = old(self)@.recorded(c.camera, c.produce_index, c.detections@);
                match action {
                    RecvAction::Deliver(r) => filed.taken(Some(r), final(self)@),
                    _ => filed.taken(None, final(self)@),
                }
            },
    {
        match event {
            RecvEvent::Closed => {
                return RecvAction::Stop;
            },
            RecvEvent::Begin => {},
            RecvEvent::Arrived(c) => {
                self.record(c);
            },
        }
        match self.try_take_front() {
            Some(r) => RecvAction::Deliver(r),
            None => RecvAction::AwaitCamera,
        }
    }

    /// A receive that does not wait: files everything that has arrived, then
    /// hands out the oldest frame's result if it is complete.
    pub fn try_recv(&mut self, arrived: Vec<CameraResult>) -> (result: Option<DetectResult>)
        ensures
            old(self)@.recorded_all(arrived@).taken(result, final(self)@),
    {
        let ghost all = arrived@;
        let mut rest: Vec<CameraResult> = arrived;
        let mut queue: Vec<CameraResult> = Vec::new();
        while rest.len() > 0
            invariant
                rest@.len() + queue@.len() == all.len(),
                rest@ == all.take(rest@.len() as int),
                forall|k: int|
                    0 <= k < queue@.len() ==> #[trigger] queue@[k] == all[all.len() - 1 - k],
            decreases rest@.len(),
        {
            match rest.pop() {
                Some(c) => {
                    queue.push(c);
                },
                None => {},
            }
        }
        let ghost mut done: int = 0;
        while queue.len() > 0
            invariant
                done + queue@.len() == all.len(),
                0 <= done,
                forall|k: int|
                    0 <= k < queue@.len() ==> #[trigger] queue@[k] == all[all.len() - 1 - k],
                self@ == old(self)@.recorded_all(all.take(done)),
            decreases queue@.len(),
        {
            match queue.pop() {
                Some(c) => {
                    proof {
                        let longer = all.take(done + 1);
                        assert(longer.drop_last() =~= all.take(done));
                        done = done + 1;
                    }
                    self.record(c);
                },
                None => {},
            }
        }
        assert(all.take(done) =~= all);
        self.try_take_front()
    }
}

/// The detections of one job, in the order of its images; an image that the
/// detector refused or failed on contributes none.
pub open spec fn merged(outcomes: Seq<Result<Vec<Detection>, DetectorError>>) -> Seq<Detection>
    decreases outcomes.len(),
{
    if outcomes.len() == 0 {
        Seq::empty()
    } else {
        merged(outcomes.drop_last()) + outcome_detections(outcomes.last())
    }
}

pub open spec fn outcome_detections(
    outcome: Result<Vec<Detection>, DetectorError>,
) -> Seq<Detection> {
    match outcome {
        Ok(v) => v@,
        Err(_) => Seq::empty(),
    }
}

/// A detector searched some pictures, one after the other: `outcomes` is what it
/// said of each, and `states` how it was before and after each.
pub open spec fn searched<D>(
    pending: Seq<PendingDetection>,
    outcomes: Seq<Result<Vec<Detection>, DetectorError>>,
    states: Seq<D>,
) -> bool {
    outcomes.len() == pending.len() && states.len() == pending.len() + 1
}

/// The i-th picture is of `camera` and is shown as `frame`, and `outcome` was
/// said of it.
pub open spec fn shown(
    pending: Seq<PendingDetection>,
    outcomes: Seq<Result<Vec<Detection>, DetectorError>>,
    i: int,
    camera: CameraId,
    frame: DetectorFrame<'_>,
    outcome: Result<Vec<Detection>, DetectorError>,
) -> bool {
    &&& 0 <= i < outcomes.len()
    &&& pending[i].camera == camera
    &&& pending[i].spec_frame() == frame
    &&& outcomes[i] == outcome
}

/// One job of the worker that searches the pictures of all cameras.
pub fn run_job<D: UnifiedDetector>(
    detector: &mut D,
    produce_index: u64,
    pending: &Vec<PendingDetection>,
) -> (result: DetectResult)
    ensures
        result.produce_index == produce_index,
        exists|outcomes: Seq<Result<Vec<Detection>, DetectorError>>, states: Seq<D>|
            {
                &&& #[trigger] searched(pending@, outcomes, states)
                &&& states[0] == *old(detector)
                &&& states[pending@.len() as int] == *final(detector)
                &&& result.detections@ == merged(outcomes)
                &&& forall|
                    i: int,
                    camera: CameraId,
                    frame: DetectorFrame<'_>,
                    outcome: Result<Vec<Detection>, DetectorError>,
                | #[trigger]
                    shown(pending@, outcomes, i, camera, frame, outcome) ==> exists|c: &mut D|
                        {
                            &&& #[trigger] call_ensures(D::detect, (c, camera, &frame), outcome)
                            &&& *c == states[i]
                            &&& *final(c) == states[i + 1]
                        }
            },
{
    let mut detections: Vec<Detection> = Vec::new();
    let ghost mut outcomes: Seq<Result<Vec<Detection>, DetectorError>> = Seq::empty();
    let ghost mut states: Seq<D> = seq![*detector];
    let mut i: usize = 0;
    while i < pending.len()
        invariant
            i <= pending@.len(),
            outcomes.len() == i,
            states.len() == i + 1,
            states[0] == *old(detector),
            states[i as int] == *detector,
            detections@ == merged(outcomes),
            forall|
                k: int,
                camera: CameraId,
                frame: DetectorFrame<'_>,
                outcome: Result<Vec<Detection>, DetectorError>,
            | #[trigger]
                shown(pending@, outcomes, k, camera, frame, outcome) ==> exists|c: &mut D|
                    {
                        &&& #[trigger] call_ensures(D::detect, (c, camera, &frame), outcome)
                        &&& *c == states[k]
                        &&& *final(c) == states[k + 1]
                    },
        decreases pending@.len() - i,
    {
        let p: &PendingDetection = &pending[i];
        let frame: DetectorFrame<'_> = p.frame();
        let ghost earlier = outcomes;
        let ghost before = states;
        let outcome: Result<Vec<Detection>, DetectorError> = detector.detect(p.camera, &frame);
        proof {
            outcomes = earlier.push(outcome);
            states = before.push(*detector);
            assert(outcomes.drop_last() =~= earlier);
            assert forall|
                k: int,
                camera: CameraId,
                frame: DetectorFrame<'_>,
                outcome: Result<Vec<Detection>, DetectorError>,
            | #[trigger] shown(pending@, outcomes, k, camera, frame, outcome) implies exists|
                c: &mut D,
            |
                {
                    &&& #[trigger] call_ensures(D::detect, (c, camera, &frame), outcome)
                    &&& *c == states[k]
                    &&& *final(c) == states[k + 1]
                } by {
                if k < i {
                    assert(shown(pending@, earlier, k, camera, frame, outcome));
                }
            }
        }
        match outcome {
            Ok(found_here) => {
                let mut more: Vec<Detection> = found_here;
                detections.append(&mut more);
            },
            Err(_) => {},
        }
        i += 1;
    }
    assert(searched(pending@, outcomes, states));
    DetectResult { produce_index, detections }
}

/// One job of a worker that searches the pictures of one camera; a refusal or a
/// failure reports nothing.
pub fn run_camera_job<D: UnifiedDetector>(
    detector: &mut D,
    produce_index: u64,
    pending: &PendingDetection,
) -> (result: CameraResult)
    ensures
        result.produce_index == produce_index,
        result.camera == pending.camera,
        exists|c: &mut D, outcome: Result<Vec<Detection>, DetectorError>|
            {
                &&& #[trigger] call_ensures(
                    D::detect,
                    (c, pending.camera, &pending.spec_frame()),
                    outcome,
                )
                &&& *c == *old(detector)
                &&& *final(c) == *final(detector)
                &&& result.detections@ == outcome_detections(outcome)
            },
{
    let frame: DetectorFrame<'_> = pending.frame();
    let outcome: Result<Vec<Detection>, DetectorError> = detector.detect(pending.camera, &frame);
    let detections: Vec<Detection> = match outcome {
        Ok(found_here) => found_here,
        Err(_) => Vec::new(),
    };
    CameraResult { produce_index, camera: pending.camera, detections }
}

/// The pictures of a frame that are to be searched.
pub struct DetectJob {
    pub produce_index: u64,
    pub pending: Vec<PendingDetection>,
}

/// One picture of a frame that is to be searched.
pub struct CameraJob {
    pub produce_index: u64,
    pub pending: PendingDetection,
}

/// What a worker has just seen.
pub enum WorkerEvent<J> {
    /// It was started.
    Started,
    /// A job came.
    Received(J),
    /// No job will come any more.
    QueueClosed,
    /// Its result was taken.
    Delivered,
    /// Nobody takes results any more.
    ReceiverGone,
}

/// What a worker does next.
pub enum WorkerAction<R> {
    AwaitJob,
    Deliver(R),
    Stop,
}

/// What a worker does where no job came: it waits for the next one, or stops where
/// it has nothing to wait for.
pub open spec fn idles<J, R>(event: WorkerEvent<J>, action: WorkerAction<R>) -> bool {
    match event {
        WorkerEvent::Started | WorkerEvent::Delivered => action is AwaitJob,
        WorkerEvent::QueueClosed | WorkerEvent::ReceiverGone => action is Stop,
        WorkerEvent::Received(_) => false,
    }
}

/// What the worker for all cameras does, where `outcomes` is what its detector
/// said of the pictures of a job that came.
pub open spec fn frame_worker_does(
    event: WorkerEvent<DetectJob>,
    outcomes: Seq<Result<Vec<Detection>, DetectorError>>,
    action: WorkerAction<DetectResult>,
) -> bool {
    match event {
        WorkerEvent::Received(job) => {
            &&& outcomes.len() == job.pending@.len()
            &&& action matches WorkerAction::Deliver(result)
            &&& result.produce_index == job.produce_index
            &&& result.detections@ == merged(outcomes)
        },
        _ => idles(event, action),
    }
}

/// One step of the worker that searches the pictures of all cameras.
pub fn single_worker_step<D: UnifiedDetector>(
    detector: &mut D,
    event: WorkerEvent<DetectJob>,
) -> (action: WorkerAction<DetectResult>)
    ensures
        !(event is Received) ==> *final(detector) == *old(detector) && idles(event, action),
        event matches WorkerEvent::Received(job) ==> exists|
            outcomes: Seq<Result<Vec<Detection>, DetectorError>>,
            states: Seq<D>,
        |
            {
                &&& #[trigger] searched(job.pending@, outcomes, states)
                &&& states[0] == *old(detector)
                &&& states[job.pending@.len() as int] == *final(detector)
                &&& frame_worker_does(event, outcomes, action)
                &&& forall|
                    i: int,
                    camera: CameraId,
                    frame: DetectorFrame<'_>,
                    outcome: Result<Vec<Detection>, DetectorError>,
                | #[trigger]
                    shown(job.pending@, outcomes, i, camera, frame, outcome) ==> exists|c: &mut D|
                        {
                            &&& #[trigger] call_ensures(D::detect, (c, camera, &frame), outcome)
                            &&& *c == states[i]
                            &&& *final(c) == states[i + 1]
                        }
            },
{
    match event {
        WorkerEvent::Received(job) => WorkerAction::Deliver(
            run_job(detector, job.produce_index, &job.pending),
        ),
        WorkerEvent::Started | WorkerEvent::Delivered => WorkerAction::AwaitJob,
        WorkerEvent::QueueClosed | WorkerEvent::ReceiverGone => WorkerAction::Stop,
    }
}

/// What a worker for one camera does, where `outcome` is what its detector said of
/// the picture of a job that came.
pub open spec fn camera_worker_does(
    event: WorkerEvent<CameraJob>,
    outcome: Result<Vec<Detection>, DetectorError>,
    action: WorkerAction<CameraResult>,
) -> bool {
    match event {
        WorkerEvent::Received(job) => {
            &&& action matches WorkerAction::Deliver(result)
            &&& result.produce_index == job.produce_index
            &&& result.camera == job.pending.camera
            &&& result.detections@ == outcome_detections(outcome)
        },
        _ => idles(event, action),
    }
}

/// One step of a worker that searches the pictures of one camera.
pub fn camera_worker_step<D: UnifiedDetector>(
    detector: &mut D,
    event: WorkerEvent<CameraJob>,
) -> (action: WorkerAction<CameraResult>)
    ensures
        !(event is Received) ==> *final(detector) == *old(detector) && idles(event, action),
        event matches WorkerEvent::Received(job) ==> exists|
            c: &mut D,
            outcome: Result<Vec<Detection>, DetectorError>,
        |
            {
                &&& #[trigger] call_ensures(
                    D::detect,
                    (c, job.pending.camera, &job.pending.spec_frame()),
                    outcome,
                )
                &&& *c == *old(detector)
                &&& *final(c) == *final(detector)
                &&& camera_worker_does(event, outcome, action)
            },
{
    match event {
        WorkerEvent::Received(job) => WorkerAction::Deliver(
            run_camera_job(detector, job.produce_index, &job.pending),
        ),
        WorkerEvent::Started | WorkerEvent::Delivered => WorkerAction::AwaitJob,
        WorkerEvent::QueueClosed | WorkerEvent::ReceiverGone => WorkerAction::Stop,
    }
}

/// The jobs that came, in order, each with what was said of its pictures.
pub open spec fn jobs_of<J, O>(events: Seq<WorkerEvent<J>>, said: Seq<O>) -> Seq<(J, O)>
    decreases events.len(),
{
    if events.len() == 0 {
        Seq::empty()
    } else {
        let earlier = jobs_of(events.drop_last(), said);
        match events.last() {
            WorkerEvent::Received(job) => earlier.push((job, said[events.len() - 1])),
            _ => earlier,
        }
    }
}

/// The results that were delivered, in order.
pub open spec fn results_of<R>(actions: Seq<WorkerAction<R>>) -> Seq<R>
    decreases actions.len(),
{
    if actions.len() == 0 {
        Seq::empty()
    } else {
        match actions.last() {
            WorkerAction::Deliver(result) => results_of(actions.drop_last()).push(result),
            _ => results_of(actions.drop_last()),
        }
    }
}

/// The worker for all cameras delivers one result for each job, in the order of
/// the jobs: the job's number, and what the detector found on its pictures, one
/// after the other. A picture on which the detector failed adds nothing, and loses
/// no result.
pub proof fn one_result_per_job(
    events: Seq<WorkerEvent<DetectJob>>,
    said: Seq<Seq<Result<Vec<Detection>, DetectorError>>>,
    actions: Seq<WorkerAction<DetectResult>>,
)
    requires
        actions.len() == events.len(),
        said.len() >= events.len(),
        forall|t: int|
            0 <= t < events.len() ==> frame_worker_does(#[trigger] events[t], said[t], actions[t]),
    ensures
        results_of(actions).len() == jobs_of(events, said).len(),
        forall|i: int|
            0 <= i < results_of(actions).len() ==> {
                let result = #[trigger] results_of(actions)[i];
                let (job, outcomes) = jobs_of(events, said)[i];
                &&& result.produce_index == job.produce_index
                &&& outcomes.len() == job.pending@.len()
                &&& result.detections@ == merged(outcomes)
            },
    decreases events.len(),
{
    if events.len() > 0 {
        let n = events.len() - 1;
        assert forall|t: int| 0 <= t < n implies frame_worker_does(
            #[trigger] events.drop_last()[t],
            said[t],
            actions.drop_last()[t],
        ) by {
            assert(frame_worker_does(events[t], said[t], actions[t]));
        }
        one_result_per_job(events.drop_last(), said, actions.drop_last());
        assert(frame_worker_does(events[n], said[n], actions[n]));
    }
}

/// The same of a worker for one camera.
pub proof fn one_report_per_picture(
    events: Seq<WorkerEvent<CameraJob>>,
    said: Seq<Result<Vec<Detection>, DetectorError>>,
    actions: Seq<WorkerAction<CameraResult>>,
)
    requires
        actions.len() == events.len(),
        said.len() >= events.len(),
        forall|t: int|
            0 <= t < events.len() ==> camera_worker_does(#[trigger] events[t], said[t], actions[t]),
    ensures
        results_of(actions).len() == jobs_of(events, said).len(),
        forall|i: int|
            0 <= i < results_of(actions).len() ==> {
                let result = #[trigger] results_of(actions)[i];
                let (job, outcome) = jobs_of(events, said)[i];
                &&& result.produce_index == job.produce_index
                &&& result.camera == job.pending.camera
                &&& result.detections@ == outcome_detections(outcome)
            },
    decreases events.len(),
{
    if events.len() > 0 {
        let n = events.len() - 1;
        assert forall|t: int| 0 <= t < n implies camera_worker_does(
            #[trigger] events.drop_last()[t],
            said[t],
            actions.drop_last()[t],
        ) by {
            assert(camera_worker_does(events[t], said[t], actions[t]));
        }
        one_report_per_picture(events.drop_last(), said, actions.drop_last());
        assert(camera_worker_does(events[n], said[n], actions[n]));
    }
}

/// How many jobs a worker's queue holds: at least one.
pub fn queue_depth(requested: usize) -> (depth: usize)
    ensures
        depth == if requested == 0 {
            1
        } else {
            requested as int
        },
{
    requested.max(1)
}

/// How many reports the queue holds that two workers share.
pub fn shared_depth(depth: usize) -> (reports: usize)
    requires
        depth * 2 <= usize::MAX,
    ensures
        reports == depth * 2,
{
    depth * 2
}

/// Whether a job could be queued at once.
#[derive(Clone, Copy, Debug, PartialEq, Eq, Structural)]
pub enum SendOutcome {
    Sent,
    Full,
    Disconnected,
}

/// What becomes of a job after an attempt to queue it.
#[derive(Clone, Copy, Debug, PartialEq, Eq, Structural)]
pub enum SendAction {
    Finished,
    SendBlocking,
    DropJob,
}

/// A full queue makes the submitter wait; a dead worker loses the job.
pub fn after_try_send(outcome: SendOutcome) -> (action: SendAction)
    ensures
        action == match outcome {
            SendOutcome::Sent => SendAction::Finished,
            SendOutcome::Full => SendAction::SendBlocking,
            SendOutcome::Disconnected => SendAction::DropJob,
        },
{
    match outcome {
        SendOutcome::Sent => SendAction::Finished,
        SendOutcome::Full => SendAction::SendBlocking,
        SendOutcome::Disconnected => SendAction::DropJob,
    }
}

/// Something that happens to a merge.
pub enum MergeEvent {
    Submit { index: u64, cameras: Seq<CameraId> },
    Arrive { camera: CameraId, index: u64, detections: Seq<Detection> },
    Take,
}

/// The state after some events on an empty merge, and the frames delivered on
/// the way, in order.
pub open spec fn history(events: Seq<MergeEvent>) -> (Merge, Seq<u64>)
    decreases events.len(),
{
    if events.len() == 0 {
        (Merge::empty(), Seq::empty())
    } else {
        let (state, delivered) = history(events.drop_last());
        match events.last() {
            MergeEvent::Submit { index, cameras } => (state.submitted(index, cameras), delivered),
            MergeEvent::Arrive { camera, index, detections } => (
                state.recorded(camera, index, detections),
                delivered,
            ),
            MergeEvent::Take => if state.front_ready() {
                (state.without_front(), delivered.push(state.order[0]))
            } else {
                (state, delivered)
            },
        }
    }
}

/// The frames submitted by some events, in order.
pub open spec fn submissions(events: Seq<MergeEvent>) -> Seq<u64>
    decreases events.len(),
{
    if events.len() == 0 {
        Seq::empty()
    } else {
        match events.last() {
            MergeEvent::Submit { index, .. } => submissions(events.drop_last()).push(index),
            _ => submissions(events.drop_last()),
        }
    }
}

/// Frames are delivered in the order in which they were submitted, each once:
/// what was delivered, followed by what is outstanding, is what was submitted.
pub proof fn delivery_follows_submission(events: Seq<MergeEvent>)
    ensures
        history(events).1 + history(events).0.order == submissions(events),
    decreases events.len(),
{
    if events.len() > 0 {
        delivery_follows_submission(events.drop_last());
        assert(history(events).1 + history(events).0.order =~= submissions(events));
    }
}

/// Which camera reports first makes no difference.
pub proof fn arrivals_commute(
    state: Merge,
    left_index: u64,
    left: Seq<Detection>,
    right_index: u64,
    right: Seq<Detection>,
)
    ensures
        state.recorded(CameraId::Left, left_index, left).recorded(
            CameraId::Right,
            right_index,
            right,
        ) == state.recorded(CameraId::Right, right_index, right).recorded(
            CameraId::Left,
            left_index,
            left,
        ),
{
}

/// A frame of both cameras that nothing is waiting before, once both have
/// reported, is delivered with the detections that one worker would have merged
/// from the same two images.
pub proof fn two_workers_agree_with_one(
    before: Merge,
    index: u64,
    left: Result<Vec<Detection>, DetectorError>,
    right: Result<Vec<Detection>, DetectorError>,
)
    requires
        before.order.len() == 0,
    ensures
        ({
            let state = before.submitted(index, seq![CameraId::Left, CameraId::Right]).recorded(
                CameraId::Right,
                index,
                outcome_detections(right),
            ).recorded(CameraId::Left, index, outcome_detections(left));
            state.front_ready() && state.front_detections() == merged(seq![left, right])
        }),
{
    reveal_with_fuel(merged, 3);
}

/// A frame of one camera that nothing is waiting before does not wait for the
/// other camera.
pub proof fn single_camera_frame_is_ready_alone(
    before: Merge,
    index: u64,
    camera: CameraId,
    detections: Seq<Detection>,
)
    requires
        before.order.len() == 0,
        match camera {
            CameraId::Left => !before.right.contains_key(index),
            CameraId::Right => !before.left.contains_key(index),
        },
    ensures
        ({
            let state = before.submitted(index, seq![camera]).recorded(camera, index, detections);
            state.front_ready() && state.front_detections() == detections
        }),
{
}

/// A complete frame stays behind an older one that is not.
pub proof fn incomplete_front_blocks(state: Merge, later: u64)
    requires
        state.order.contains(later),
        !state.front_ready(),
    ensures
        forall|result: Option<DetectResult>, after: Merge|
            state.taken(result, after) ==> result is None && after.order.contains(later),
{
}

} // verus!
