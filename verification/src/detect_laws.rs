//! What a search for objects is shown and gives back.

use crate::async_detect::{
    after_try_send, camera_worker_step, merged, queue_depth, run_camera_job, run_job, searched,
    shared_depth, shown, single_worker_step, CameraId, CameraJob, CameraResult, DetectJob,
    DetectResult, Detection, DetectorError, DetectorFrame, Merge, MergeState, PendingDetection,
    RecvAction, RecvEvent, SendAction, SendOutcome, UnifiedDetector, WorkerAction, WorkerEvent,
};
use vstd::prelude::*;

verus! {

/// The frame shows the picture: its own numbers, at the size it was scaled to, with the
/// width and the height that it had before.
pub open spec fn shows(frame: DetectorFrame<'_>, picture: PendingDetection) -> bool {
    frame matches DetectorFrame::PreprocessedChw { data, input_size, src_width, src_height } && {
        &&& data@ == picture.tensor@
        &&& input_size == picture.input_size
        &&& src_width == picture.src_width
        &&& src_height == picture.src_height
    }
}

/// A detector is shown the pending picture.
pub proof fn a_frame_shows_its_picture(picture: PendingDetection, frame: DetectorFrame<'_>)
    requires
        call_ensures(PendingDetection::frame, (&picture,), frame),
    ensures
        shows(frame, picture),
{
}

/// A worker for one camera asks its detector once, of the camera and the picture that it
/// was given, and reports what the detector found; a failure is a report of nothing.
pub proof fn a_camera_job_is_one_search<D: UnifiedDetector>()
    ensures
        forall|d: &mut D, index: u64, picture: &PendingDetection, r: CameraResult| #[trigger]
            call_ensures(run_camera_job::<D>, (d, index, picture), r) ==> {
                &&& r.produce_index == index
                &&& r.camera == picture.camera
                &&& exists|
                    c: &mut D,
                    frame: DetectorFrame<'_>,
                    outcome: Result<Vec<Detection>, DetectorError>,
                |
                    {
                        &&& #[trigger] call_ensures(
                            D::detect,
                            (c, picture.camera, &frame),
                            outcome,
                        )
                        &&& shows(frame, *picture)
                        &&& *c == *d
                        &&& *final(c) == *final(d)
                        &&& match outcome {
                            Ok(v) => r.detections@ == v@,
                            Err(_) => r.detections@.len() == 0,
                        }
                    }
            },
{
}

/// What a detector found, which is nothing where it failed.
pub open spec fn findings(outcome: Result<Vec<Detection>, DetectorError>) -> Seq<Detection> {
    match outcome {
        Ok(v) => v@,
        Err(_) => Seq::empty(),
    }
}

/// All that was found, one answer after the other.
pub open spec fn all_findings(outcomes: Seq<Result<Vec<Detection>, DetectorError>>) -> Seq<
    Detection,
> {
    outcomes.map_values(
        |o: Result<Vec<Detection>, DetectorError>| findings(o),
    ).flatten_alt()
}

/// The detector was asked of the i-th picture, and answered `outcomes[i]`.
pub open spec fn asked_of<D: UnifiedDetector>(
    pictures: Seq<PendingDetection>,
    outcomes: Seq<Result<Vec<Detection>, DetectorError>>,
    i: int,
) -> bool {
    exists|c: &mut D, frame: DetectorFrame<'_>|
        {
            &&& #[trigger] call_ensures(D::detect, (c, pictures[i].camera, &frame), outcomes[i])
            &&& shows(frame, pictures[i])
        }
}

proof fn merged_is_flat(outcomes: Seq<Result<Vec<Detection>, DetectorError>>)
    ensures
        merged(outcomes) == all_findings(outcomes),
    decreases outcomes.len(),
{
    let each = outcomes.map_values(|o: Result<Vec<Detection>, DetectorError>| findings(o));
    if outcomes.len() > 0 {
        merged_is_flat(outcomes.drop_last());
        assert(each.drop_last() =~= outcomes.drop_last().map_values(
            |o: Result<Vec<Detection>, DetectorError>| findings(o),
        ));
    }
}

/// The worker for all cameras asks its detector of every picture of a job, each as the
/// picture of its own camera, and reports all that was found, in the order of the
/// pictures.
pub proof fn a_job_searches_every_picture<D: UnifiedDetector>()
    ensures
        forall|d: &mut D, index: u64, pictures: &Vec<PendingDetection>, r: DetectResult| #[trigger]
            call_ensures(run_job::<D>, (d, index, pictures), r) ==> {
                &&& r.produce_index == index
                &&& exists|outcomes: Seq<Result<Vec<Detection>, DetectorError>>|
                    {
                        &&& outcomes.len() == pictures@.len()
                        &&& r.detections@ == #[trigger] all_findings(outcomes)
                        &&& forall|i: int|
                            0 <= i < pictures@.len() ==> #[trigger] asked_of::<D>(
                                pictures@,
                                outcomes,
                                i,
                            )
                    }
            },
{
    assert forall|d: &mut D, index: u64, pictures: &Vec<PendingDetection>, r: DetectResult|
        #[trigger]
        call_ensures(run_job::<D>, (d, index, pictures), r) implies {
        &&& r.produce_index == index
        &&& exists|outcomes: Seq<Result<Vec<Detection>, DetectorError>>|
            {
                &&& outcomes.len() == pictures@.len()
                &&& r.detections@ == #[trigger] all_findings(outcomes)
                &&& forall|i: int|
                    0 <= i < pictures@.len() ==> #[trigger] asked_of::<D>(pictures@, outcomes, i)
            }
    } by {
        let (outcomes, states) = choose|
            outcomes: Seq<Result<Vec<Detection>, DetectorError>>,
            states: Seq<D>,
        |
            {
                &&& #[trigger] searched(pictures@, outcomes, states)
                &&& states[0] == *d
                &&& states[pictures@.len() as int] == *final(d)
                &&& r.detections@ == merged(outcomes)
                &&& forall|
                    i: int,
                    camera: CameraId,
                    frame: DetectorFrame<'_>,
                    outcome: Result<Vec<Detection>, DetectorError>,
                | #[trigger]
                    shown(pictures@, outcomes, i, camera, frame, outcome) ==> exists|c: &mut D|
                        {
                            &&& #[trigger] call_ensures(D::detect, (c, camera, &frame), outcome)
                            &&& *c == states[i]
                            &&& *final(c) == states[i + 1]
                        }
            };
        merged_is_flat(outcomes);
        assert forall|i: int| 0 <= i < pictures@.len() implies #[trigger] asked_of::<D>(
            pictures@,
            outcomes,
            i,
        ) by {
            assert(shown(
                pictures@,
                outcomes,
                i,
                pictures@[i].camera,
                pictures@[i].spec_frame(),
                outcomes[i],
            ));
        }
    }
}

/// A frame waits for just those cameras that were submitted with it.
pub proof fn a_submitted_frame_waits_for_its_cameras()
    ensures
        forall|m: &mut MergeState, index: u64, cameras: &Vec<CameraId>| #[trigger]
            call_ensures(MergeState::submit, (m, index, cameras), ()) ==> {
                &&& final(m)@.order == m@.order.push(index)
                &&& final(m)@.expects.contains_key(index)
                &&& final(m)@.expects[index].0 <==> exists|k: int|
                    0 <= k < cameras@.len() && #[trigger] cameras@[k] == CameraId::Left
                &&& final(m)@.expects[index].1 <==> exists|k: int|
                    0 <= k < cameras@.len() && #[trigger] cameras@[k] == CameraId::Right
                &&& forall|other: u64|
                    other != index ==> {
                        &&& #[trigger] final(m)@.expects.contains_key(other)
                            <==> m@.expects.contains_key(other)
                        &&& m@.expects.contains_key(other) ==> final(m)@.expects[other]
                            == m@.expects[other]
                    }
                &&& final(m)@.left == m@.left
                &&& final(m)@.right == m@.right
            },
{
}

/// A report is filed under its own camera and frame, and nothing else changes.
pub proof fn a_report_is_filed_under_its_camera()
    ensures
        forall|m: &mut MergeState, r: CameraResult| #[trigger]
            call_ensures(MergeState::record, (m, r), ()) ==> {
                &&& final(m)@.order == m@.order
                &&& final(m)@.expects == m@.expects
                &&& r.camera == CameraId::Left ==> final(m)@.left == m@.left.insert(
                    r.produce_index,
                    r.detections@,
                ) && final(m)@.right == m@.right
                &&& r.camera == CameraId::Right ==> final(m)@.right == m@.right.insert(
                    r.produce_index,
                    r.detections@,
                ) && final(m)@.left == m@.left
            },
{
}

/// The camera has reported on the frame, or the frame does not wait for it.
pub open spec fn is_heard(waits: bool, reports: Map<u64, Seq<Detection>>, index: u64) -> bool {
    waits ==> reports.contains_key(index)
}

/// What a camera reported on a frame, which is nothing where it did not.
pub open spec fn reported(reports: Map<u64, Seq<Detection>>, index: u64) -> Seq<Detection> {
    if reports.contains_key(index) {
        reports[index]
    } else {
        seq![]
    }
}

/// The oldest frame is taken just when every camera that it waits for has reported. Its
/// detections are those of the left camera, then those of the right one; it is then gone,
/// and the later frames stay as they are.
pub open spec fn is_taken(m: Merge, r: Option<DetectResult>, after: Merge) -> bool {
    let front = m.order[0];
    &&& r is Some <==> m.order.len() > 0 && m.expects.contains_key(front) && is_heard(
        m.expects[front].0,
        m.left,
        front,
    ) && is_heard(m.expects[front].1, m.right, front)
    &&& r is None ==> after == m
    &&& r matches Some(d) ==> {
        &&& d.produce_index == front
        &&& d.detections@ == reported(m.left, front) + reported(m.right, front)
        &&& seq![front] + after.order == m.order
        &&& !after.left.contains_key(front)
        &&& !after.right.contains_key(front)
        &&& !after.expects.contains_key(front)
        &&& forall|other: u64|
            other != front ==> {
                &&& #[trigger] reported(after.left, other) == reported(m.left, other)
                &&& after.left.contains_key(other) == m.left.contains_key(other)
                &&& after.right.contains_key(other) == m.right.contains_key(other)
                &&& reported(after.right, other) == reported(m.right, other)
                &&& after.expects.contains_key(other) == m.expects.contains_key(other)
                &&& m.expects.contains_key(other) ==> after.expects[other] == m.expects[other]
            }
    }
}

proof fn front_is_taken(m: Merge, r: Option<DetectResult>, after: Merge)
    requires
        m.taken(r, after),
    ensures
        is_taken(m, r, after),
{
    if r is Some {
        assert(seq![m.order[0]] + after.order =~= m.order);
    }
}

/// The oldest frame is delivered when it is complete, and no later frame before it.
pub proof fn the_oldest_frame_leaves_when_it_is_complete()
    ensures
        forall|m: &mut MergeState, r: Option<DetectResult>| #[trigger]
            call_ensures(MergeState::try_take_front, (m,), r) ==> is_taken(m@, r, final(m)@),
{
    assert forall|m: &mut MergeState, r: Option<DetectResult>| #[trigger]
        call_ensures(MergeState::try_take_front, (m,), r) implies is_taken(m@, r, final(m)@) by {
        front_is_taken(m@, r, final(m)@);
    }
}

/// A report is filed under its camera and its frame.
pub open spec fn is_filed(m: Merge, c: CameraResult, after: Merge) -> bool {
    &&& after.order == m.order
    &&& after.expects == m.expects
    &&& after.left == if c.camera is Left {
        m.left.insert(c.produce_index, c.detections@)
    } else {
        m.left
    }
    &&& after.right == if c.camera is Right {
        m.right.insert(c.produce_index, c.detections@)
    } else {
        m.right
    }
}

/// What a step of a receive delivers.
pub open spec fn delivery(action: RecvAction) -> Option<DetectResult> {
    match action {
        RecvAction::Deliver(r) => Some(r),
        _ => None,
    }
}

/// A receive that waits takes the oldest frame, having filed the report that arrived, if one
/// did, and goes on waiting where that frame is not complete. It stops only when every worker
/// is gone.
pub proof fn a_waiting_receive_files_then_takes()
    ensures
        forall|m: &mut MergeState, event: RecvEvent, action: RecvAction| #[trigger]
            call_ensures(MergeState::recv_step, (m, event), action) ==> {
                &&& action is Stop <==> event is Closed
                &&& event is Closed ==> final(m)@ == m@
                &&& event is Begin ==> is_taken(m@, delivery(action), final(m)@)
                &&& event matches RecvEvent::Arrived(c) ==> forall|filed: Merge| #[trigger]
                    is_filed(m@, c, filed) ==> is_taken(filed, delivery(action), final(m)@)
            },
{
    assert forall|m: &mut MergeState, event: RecvEvent, action: RecvAction| #[trigger]
        call_ensures(MergeState::recv_step, (m, event), action) && event is Begin implies is_taken(
        m@,
        delivery(action),
        final(m)@,
    ) by {
        front_is_taken(m@, delivery(action), final(m)@);
    }
    assert forall|m: &mut MergeState, event: RecvEvent, action: RecvAction, filed: Merge|
        #[trigger] call_ensures(MergeState::recv_step, (m, event), action) && event is Arrived
            && #[trigger] is_filed(m@, event->Arrived_0, filed) implies is_taken(
        filed,
        delivery(action),
        final(m)@,
    ) by {
        let c = event->Arrived_0;
        assert(filed == m@.recorded(c.camera, c.produce_index, c.detections@));
        front_is_taken(filed, delivery(action), final(m)@);
    }
}

/// Some reports are filed one after the other, from one state to another.
pub open spec fn are_filed(reports: Seq<CameraResult>, states: Seq<Merge>) -> bool {
    &&& states.len() == reports.len() + 1
    &&& forall|i: int|
        0 <= i < reports.len() ==> is_filed(states[i], #[trigger] reports[i], states[i + 1])
}

proof fn filed_is_recorded(reports: Seq<CameraResult>, states: Seq<Merge>)
    requires
        are_filed(reports, states),
    ensures
        states.last() == states[0].recorded_all(reports),
    decreases reports.len(),
{
    if reports.len() > 0 {
        let n = reports.len() - 1;
        let (earlier, before) = (reports.drop_last(), states.drop_last());
        assert forall|i: int| 0 <= i < earlier.len() implies is_filed(
            before[i],
            #[trigger] earlier[i],
            before[i + 1],
        ) by {
            assert(earlier[i] == reports[i]);
        }
        filed_is_recorded(earlier, before);
        let c = reports[n];
        assert(is_filed(states[n], c, states[n + 1]));
        assert(states[n + 1] == states[n].recorded(c.camera, c.produce_index, c.detections@));
    }
}

/// A receive that does not wait files every report that arrived, in order, and then takes the
/// oldest frame.
pub proof fn a_receive_files_all_then_takes()
    ensures
        forall|
            m: &mut MergeState,
            arrived: Vec<CameraResult>,
            r: Option<DetectResult>,
            states: Seq<Merge>,
        |
            #[trigger] call_ensures(MergeState::try_recv, (m, arrived), r) && #[trigger] are_filed(
                arrived@,
                states,
            ) && states[0] == m@ ==> is_taken(states.last(), r, final(m)@),
{
    assert forall|
        m: &mut MergeState,
        arrived: Vec<CameraResult>,
        r: Option<DetectResult>,
        states: Seq<Merge>,
    |
        #[trigger] call_ensures(MergeState::try_recv, (m, arrived), r) && #[trigger] are_filed(
            arrived@,
            states,
        ) && states[0] == m@ implies is_taken(states.last(), r, final(m)@) by {
        filed_is_recorded(arrived@, states);
        front_is_taken(states.last(), r, final(m)@);
    }
}

/// A worker waits for its next job unless there is none, or nobody to deliver to; a job that
/// came is delivered under its own number, with its own camera where it is of one.
pub proof fn a_worker_delivers_its_jobs<D: UnifiedDetector>()
    ensures
        forall|d: &mut D, event: WorkerEvent<DetectJob>, action: WorkerAction<DetectResult>|
            #[trigger]
            call_ensures(single_worker_step::<D>, (d, event), action) ==> {
                &&& action is AwaitJob <==> event is Started || event is Delivered
                &&& action is Stop <==> event is QueueClosed || event is ReceiverGone
                &&& !(event is Received) ==> *final(d) == *d
                &&& event matches WorkerEvent::Received(job) ==> (action matches
                    WorkerAction::Deliver(r) && r.produce_index == job.produce_index)
            },
        forall|d: &mut D, event: WorkerEvent<CameraJob>, action: WorkerAction<CameraResult>|
            #[trigger]
            call_ensures(camera_worker_step::<D>, (d, event), action) ==> {
                &&& action is AwaitJob <==> event is Started || event is Delivered
                &&& action is Stop <==> event is QueueClosed || event is ReceiverGone
                &&& !(event is Received) ==> *final(d) == *d
                &&& event matches WorkerEvent::Received(job) ==> (action matches
                    WorkerAction::Deliver(r) && r.produce_index == job.produce_index && r.camera
                    == job.pending.camera)
            },
{
}

/// What a worker delivers of a job is all that its detector found on the job's pictures.
pub proof fn a_worker_delivers_what_was_found<D: UnifiedDetector>()
    ensures
        forall|d: &mut D, job: DetectJob, action: WorkerAction<DetectResult>| #[trigger]
            call_ensures(
                single_worker_step::<D>,
                (d, WorkerEvent::Received(job)),
                action,
            ) ==> exists|outcomes: Seq<Result<Vec<Detection>, DetectorError>>|
                {
                    &&& outcomes.len() == job.pending@.len()
                    &&& action->Deliver_0.detections@ == #[trigger] all_findings(outcomes)
                    &&& forall|i: int|
                        0 <= i < job.pending@.len() ==> #[trigger] asked_of::<D>(
                            job.pending@,
                            outcomes,
                            i,
                        )
                },
        forall|d: &mut D, job: CameraJob, action: WorkerAction<CameraResult>| #[trigger]
            call_ensures(
                camera_worker_step::<D>,
                (d, WorkerEvent::Received(job)),
                action,
            ) ==> exists|
                c: &mut D,
                frame: DetectorFrame<'_>,
                outcome: Result<Vec<Detection>, DetectorError>,
            |
                {
                    &&& #[trigger] call_ensures(
                        D::detect,
                        (c, job.pending.camera, &frame),
                        outcome,
                    )
                    &&& shows(frame, job.pending)
                    &&& *c == *d
                    &&& *final(c) == *final(d)
                    &&& action->Deliver_0.detections@ == findings(outcome)
                },
{
    assert forall|d: &mut D, job: DetectJob, action: WorkerAction<DetectResult>| #[trigger]
        call_ensures(
            single_worker_step::<D>,
            (d, WorkerEvent::Received(job)),
            action,
        ) implies exists|outcomes: Seq<Result<Vec<Detection>, DetectorError>>|
        {
            &&& outcomes.len() == job.pending@.len()
            &&& action->Deliver_0.detections@ == #[trigger] all_findings(outcomes)
            &&& forall|i: int|
                0 <= i < job.pending@.len() ==> #[trigger] asked_of::<D>(job.pending@, outcomes, i)
        } by {
        let pictures = job.pending@;
        let (outcomes, states) = choose|
            outcomes: Seq<Result<Vec<Detection>, DetectorError>>,
            states: Seq<D>,
        |
            {
                &&& #[trigger] searched(pictures, outcomes, states)
                &&& states[0] == *d
                &&& states[pictures.len() as int] == *final(d)
                &&& crate::async_detect::frame_worker_does(
                    WorkerEvent::Received(job),
                    outcomes,
                    action,
                )
                &&& forall|
                    i: int,
                    camera: CameraId,
                    frame: DetectorFrame<'_>,
                    outcome: Result<Vec<Detection>, DetectorError>,
                | #[trigger]
                    shown(pictures, outcomes, i, camera, frame, outcome) ==> exists|c: &mut D|
                        {
                            &&& #[trigger] call_ensures(D::detect, (c, camera, &frame), outcome)
                            &&& *c == states[i]
                            &&& *final(c) == states[i + 1]
                        }
            };
        merged_is_flat(outcomes);
        assert forall|i: int| 0 <= i < pictures.len() implies #[trigger] asked_of::<D>(
            pictures,
            outcomes,
            i,
        ) by {
            assert(shown(
                pictures,
                outcomes,
                i,
                pictures[i].camera,
                pictures[i].spec_frame(),
                outcomes[i],
            ));
        }
    }
}

/// A job that could not be queued at once waits where the queue was full, and is lost where
/// the worker is gone. A queue holds one job at least, and one that two workers share twice
/// as many reports.
pub proof fn a_full_queue_makes_the_submitter_wait(
    outcome: SendOutcome,
    action: SendAction,
    requested: usize,
    depth: usize,
    shared: usize,
)
    requires
        call_ensures(after_try_send, (outcome,), action),
        call_ensures(queue_depth, (requested,), depth),
        call_ensures(shared_depth, (depth,), shared),
    ensures
        action is Finished <==> outcome is Sent,
        action is SendBlocking <==> outcome is Full,
        action is DropJob <==> outcome is Disconnected,
        depth >= 1,
        requested >= 1 ==> depth == requested,
        requested == 0 ==> depth == 1,
        shared == depth + depth,
{
}

} // verus!
