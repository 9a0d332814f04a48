//! From tracked objects to a pose of the virtual camera.

use crate::calibration::Calibration;
use crate::scalar::{Scalar, Wide};
use crate::world::{MappedDetection, TrackState, TrackedEntity, ViewportPosition, WorldState};
use vstd::prelude::*;

verus! {

/// The bits of 75.0, the field of view of a pose that names none.
pub const DEFAULT_FOV_DEGREES: u32 = 0x4296_0000;

/// A pitch limit, and the same limit moved inward by half the vertical field of
/// view, where the view's edge would touch it.
#[derive(Clone, Copy, Debug, PartialEq, Eq, Structural)]
pub struct PitchBound {
    pub raw: Scalar,
    pub margined: Scalar,
}

/// The arithmetic of limits, which is done on numbers.
pub trait PanMath {
    /// Half of a field of view, from degrees to radians.
    fn half_view(&self, fov_degrees: Scalar) -> Scalar;

    fn sum(&self, a: Scalar, b: Scalar) -> Scalar;

    fn difference(&self, a: Scalar, b: Scalar) -> Scalar;
}

/// The field of view in degrees that a pose is limited by.
pub fn effective_fov(fov_degrees: Option<Scalar>) -> (fov: Scalar)
    ensures
        fov == limiting_fov(fov_degrees),
{
    match fov_degrees {
        Some(f) => f,
        None => Scalar { bits: DEFAULT_FOV_DEGREES },
    }
}

/// The pitch under the limits (top, bottom): within both margined limits where
/// they leave room, else within the limits themselves; limits that contradict
/// each other hold nothing.
pub open spec fn limited_pitch(
    pitch: Scalar,
    limits: (Option<PitchBound>, Option<PitchBound>),
) -> Scalar {
    match limits {
        (Some(top), Some(bottom)) => if !bottom.raw.at_most(top.raw) {
            pitch
        } else if bottom.margined.at_most(top.margined) {
            pitch.spec_clamp(bottom.margined, top.margined)
        } else {
            pitch.spec_clamp(bottom.raw, top.raw)
        },
        (Some(top), None) => pitch.spec_min(top.margined),
        (None, Some(bottom)) => pitch.spec_max(bottom.margined),
        (None, None) => pitch,
    }
}

/// `bounds` are the limits (top, bottom) with the margins of a view of which half
/// is `half`.
pub open spec fn margined<M: PanMath>(
    math: M,
    half: Scalar,
    limits: (Option<Scalar>, Option<Scalar>),
    bounds: (Option<PitchBound>, Option<PitchBound>),
) -> bool {
    &&& match limits.0 {
        Some(top) => bounds.0 matches Some(b) && b.raw == top && call_ensures(
            M::difference,
            (&math, top, half),
            b.margined,
        ),
        None => bounds.0 is None,
    }
    &&& match limits.1 {
        Some(bottom) => bounds.1 matches Some(b) && b.raw == bottom && call_ensures(
            M::sum,
            (&math, bottom, half),
            b.margined,
        ),
        None => bounds.1 is None,
    }
}

/// `bounds` are the limits of a pose with the given field of view.
pub open spec fn bounds_of<M: PanMath>(
    math: M,
    fov_degrees: Option<Scalar>,
    limits: (Option<Scalar>, Option<Scalar>),
    bounds: (Option<PitchBound>, Option<PitchBound>),
) -> bool {
    exists|half: Scalar|
        {
            &&& #[trigger] call_ensures(M::half_view, (&math, limiting_fov(fov_degrees)), half)
            &&& margined(math, half, limits, bounds)
        }
}

fn pitch_bounds<M: PanMath>(
    fov_degrees: Option<Scalar>,
    limits: (Option<Scalar>, Option<Scalar>),
    math: &M,
) -> (bounds: (Option<PitchBound>, Option<PitchBound>))
    ensures
        bounds_of(*math, fov_degrees, limits, bounds),
{
    let half: Scalar = math.half_view(effective_fov(fov_degrees));
    let top: Option<PitchBound> = match limits.0 {
        Some(raw) => Some(PitchBound { raw, margined: math.difference(raw, half) }),
        None => None,
    };
    let bottom: Option<PitchBound> = match limits.1 {
        Some(raw) => Some(PitchBound { raw, margined: math.sum(raw, half) }),
        None => None,
    };
    (top, bottom)
}

/// A pitch under limits (top, bottom) that the edge of the view shall not pass.
pub fn clamp_pitch_to_limits<M: PanMath>(
    pitch: Scalar,
    fov_degrees: Option<Scalar>,
    limits: (Option<Scalar>, Option<Scalar>),
    math: &M,
) -> (r: Scalar)
    ensures
        exists|bounds: (Option<PitchBound>, Option<PitchBound>)|
            {
                &&& #[trigger] bounds_of(*math, fov_degrees, limits, bounds)
                &&& r == limited_pitch(pitch, bounds)
            },
{
    clamp_to_bounds(pitch, pitch_bounds(fov_degrees, limits, math))
}

fn clamp_to_bounds(pitch: Scalar, bounds: (Option<PitchBound>, Option<PitchBound>)) -> (r: Scalar)
    ensures
        r == limited_pitch(pitch, bounds),
{
    match bounds {
        (Some(top), Some(bottom)) => {
            if !bottom.raw.le(top.raw) {
                pitch
            } else if bottom.margined.le(top.margined) {
                pitch.clamp(bottom.margined, top.margined)
            } else {
                pitch.clamp(bottom.raw, top.raw)
            }
        },
        (Some(top), None) => pitch.min(top.margined),
        (None, Some(bottom)) => pitch.max(bottom.margined),
        (None, None) => pitch,
    }
}

/// What a panner sees beside the world.
#[derive(Clone, Copy, Debug)]
pub struct PanContext<'a> {
    pub frame_index: u64,
    pub timestamp_ms: Wide,
    pub previous_position: ViewportPosition,
    pub calibration: &'a Calibration,
}

/// Something the pipeline reports to an observer.
#[derive(Clone, Debug)]
pub enum PipelineEvent {
    WorldState {
        frame_index: u64,
        timestamp_ms: Wide,
        players: Vec<TrackedEntity>,
        ball: Option<TrackedEntity>,
    },
    PanDecision { frame_index: u64, pose: ViewportPosition },
    PannerDebug { frame_index: u64, text: String },
}

/// Decides where the virtual camera looks.
pub trait Panner: Send {
    fn decide(&mut self, world: &WorldState, ctx: &PanContext<'_>) -> ViewportPosition;

    /// Like `decide`, with the worlds of the frames to come. A panner that does
    /// not look ahead decides on the present alone.
    fn decide_with_lookahead(
        &mut self,
        world: &WorldState,
        future: &[WorldState],
        ctx: &PanContext<'_>,
    ) -> (position: ViewportPosition)
        default_ensures
            exists|c: &mut Self|
                {
                    &&& #[trigger] call_ensures(Self::decide, (c, world, ctx), position)
                    &&& &*c == &*old(self)
                    &&& &*final(c) == &*final(self)
                },
    {
        self.decide(world, ctx)
    }

    fn debug_event(&self, frame_index: u64) -> (event: Option<PipelineEvent>)
        default_ensures
            event is None,
    {
        None
    }

    fn reset(&mut self)
        default_ensures
            &*final(self) == &*old(self),
    {
    }
}

/// Turns detections into tracked objects.
pub trait Tracker: Send {
    fn update(&mut self, detections: &[MappedDetection], timestamp_ms: Wide) -> Vec<TrackedEntity>;

    fn observe_world(&mut self, world: &WorldState)
        default_ensures
            &*final(self) == &*old(self),
    {
    }
}

/// What one frame's dispatch works on.
#[derive(Clone, Copy)]
pub struct DispatchContext<'a> {
    pub detections: &'a [MappedDetection],
    pub calibration: &'a Calibration,
    pub frame_index: u64,
    pub timestamp_ms: Wide,
    /// The highest and the lowest pitch that the view may show.
    pub pitch_limit: (Option<Scalar>, Option<Scalar>),
}

#[derive(Clone, Copy, Debug, PartialEq, Eq, Structural)]
pub struct DispatchResult {
    pub pose: ViewportPosition,
    pub active_tracks: u32,
    pub ball_present: bool,
}

/// The first of some objects, if there are any.
pub open spec fn first_of(entities: Seq<TrackedEntity>) -> Option<TrackedEntity> {
    if entities.len() > 0 {
        Some(entities[0])
    } else {
        None
    }
}

/// The first of a ball tracker's objects.
pub fn first_entity(entities: &Vec<TrackedEntity>) -> (first: Option<TrackedEntity>)
    ensures
        first == first_of(entities@),
{
    if entities.len() > 0 {
        Some(entities[0])
    } else {
        None
    }
}

/// Runs the trackers, the players' before the ball's, which first sees the
/// players. Each tracker is asked once, about this frame's detections; the
/// ball is the first object of its tracker.
pub fn dispatch_detect_only<T: Tracker, U: Tracker>(
    player_tracker: Option<&mut T>,
    ball_tracker: Option<&mut U>,
    ctx: &DispatchContext<'_>,
) -> (world: WorldState)
    ensures
        player_tracker is None ==> world.players@.len() == 0,
        player_tracker matches Some(t) ==> exists|c: &mut T, players: Vec<TrackedEntity>|
            {
                &&& #[trigger] call_ensures(
                    T::update,
                    (c, ctx.detections, ctx.timestamp_ms),
                    players,
                )
                &&& *c == *t
                &&& *final(c) == *final(t)
                &&& world.players@ == players@
            },
        ball_tracker is None ==> world.ball is None,
        ball_tracker matches Some(t) ==> exists|
            c: &mut U,
            d: &mut U,
            seen: WorldState,
            balls: Vec<TrackedEntity>,
        |
            {
                &&& #[trigger] call_ensures(U::observe_world, (c, &seen), ())
                &&& #[trigger] call_ensures(
                    U::update,
                    (d, ctx.detections, ctx.timestamp_ms),
                    balls,
                )
                &&& *c == *t
                &&& *final(c) == *d
                &&& *final(d) == *final(t)
                &&& seen.players@ == world.players@
                &&& seen.ball is None
                &&& world.ball == first_of(balls@)
            },
{
    let mut world: WorldState = WorldState::default();
    match player_tracker {
        Some(t) => {
            world.players = t.update(ctx.detections, ctx.timestamp_ms);
        },
        None => {},
    }
    match ball_tracker {
        Some(t) => {
            t.observe_world(&world);
            let balls: Vec<TrackedEntity> = t.update(ctx.detections, ctx.timestamp_ms);
            world.ball = first_entity(&balls);
        },
        None => {},
    }
    world
}

/// A ball counts as present unless its track is lost.
pub open spec fn ball_counts(ball: Option<TrackedEntity>) -> bool {
    match ball {
        Some(b) => b.state != TrackState::Lost,
        None => false,
    }
}

/// The result for a world in which the panner decided on `decided`.
pub open spec fn dispatched(
    world: WorldState,
    decided: ViewportPosition,
    bounds: (Option<PitchBound>, Option<PitchBound>),
) -> DispatchResult {
    DispatchResult {
        pose: ViewportPosition { pitch: limited_pitch(decided.pitch, bounds), ..decided },
        active_tracks: world.players@.len() as u32,
        ball_present: ball_counts(world.ball),
    }
}

/// Limits the decided pose and counts what was tracked.
pub fn finish_dispatch<M: PanMath>(
    world: &WorldState,
    decided: ViewportPosition,
    limits: (Option<Scalar>, Option<Scalar>),
    math: &M,
) -> (result: DispatchResult)
    ensures
        exists|bounds: (Option<PitchBound>, Option<PitchBound>)|
            {
                &&& #[trigger] bounds_of(*math, decided.fov_degrees, limits, bounds)
                &&& result == dispatched(*world, decided, bounds)
            },
{
    let bounds: (Option<PitchBound>, Option<PitchBound>) = pitch_bounds(
        decided.fov_degrees,
        limits,
        math,
    );
    let ball_present: bool = match world.ball {
        Some(b) => b.state != TrackState::Lost,
        None => false,
    };
    DispatchResult {
        pose: ViewportPosition {
            yaw: decided.yaw,
            pitch: clamp_to_bounds(decided.pitch, bounds),
            fov_degrees: decided.fov_degrees,
        },
        active_tracks: world.players.len() as u32,
        ball_present,
    }
}

/// `event` reports on the tracked world.
pub open spec fn reports_world(
    event: PipelineEvent,
    ctx: DispatchContext<'_>,
    world: WorldState,
) -> bool {
    event matches PipelineEvent::WorldState { frame_index, timestamp_ms, players, ball }
        && frame_index == ctx.frame_index && timestamp_ms == ctx.timestamp_ms && players@
        == world.players@ && ball == world.ball
}

/// The report on the tracked world.
pub fn world_event(ctx: &DispatchContext<'_>, world: &WorldState) -> (event: PipelineEvent)
    ensures
        reports_world(event, *ctx, *world),
{
    let copy: WorldState = world.clone();
    PipelineEvent::WorldState {
        frame_index: ctx.frame_index,
        timestamp_ms: ctx.timestamp_ms,
        players: copy.players,
        ball: copy.ball,
    }
}

/// What a panner is told of a frame, apart from the world.
pub open spec fn pan_context<'a>(
    ctx: DispatchContext<'a>,
    previous_position: ViewportPosition,
) -> PanContext<'a> {
    PanContext {
        frame_index: ctx.frame_index,
        timestamp_ms: ctx.timestamp_ms,
        previous_position,
        calibration: ctx.calibration,
    }
}

/// The field of view that a pose is limited by.
pub open spec fn limiting_fov(fov_degrees: Option<Scalar>) -> Scalar {
    match fov_degrees {
        Some(f) => f,
        None => Scalar { bits: DEFAULT_FOV_DEGREES },
    }
}

/// Takes the reports on a frame as they come.
pub trait PipelineEventSink {
    fn emit(&mut self, event: PipelineEvent);
}

/// Lets the panner decide on a world, and limits its pose.
fn decide<P: Panner, M: PanMath>(
    panner: &mut P,
    world: &WorldState,
    previous_position: ViewportPosition,
    ctx: &DispatchContext<'_>,
    math: &M,
) -> (result: DispatchResult)
    ensures
        exists|
            asked: &mut P,
            future: &[WorldState],
            decided: ViewportPosition,
            bounds: (Option<PitchBound>, Option<PitchBound>),
        |
            {
                &&& #[trigger] call_ensures(
                    P::decide_with_lookahead,
                    (asked, world, future, &pan_context(*ctx, previous_position)),
                    decided,
                )
                &&& *asked == *old(panner)
                &&& *final(asked) == *final(panner)
                &&& future@.len() == 0
                &&& bounds_of(*math, decided.fov_degrees, ctx.pitch_limit, bounds)
                &&& result == #[trigger] dispatched(*world, decided, bounds)
            },
{
    let pan_ctx = PanContext {
        frame_index: ctx.frame_index,
        timestamp_ms: ctx.timestamp_ms,
        previous_position,
        calibration: ctx.calibration,
    };
    let no_future: Vec<WorldState> = Vec::new();
    let decided: ViewportPosition = panner.decide_with_lookahead(
        world,
        no_future.as_slice(),
        &pan_ctx,
    );
    finish_dispatch(world, decided, ctx.pitch_limit, math)
}

/// One frame of the immediate mode: track, decide, limit. The reports on the way go
/// to `event_sink`, where there is one: the world before the panner decides on it,
/// then the decision, and what the panner has to say of it, if anything.
pub fn dispatch<P: Panner, T: Tracker, U: Tracker, K: PipelineEventSink, M: PanMath>(
    panner: Option<&mut P>,
    player_tracker: Option<&mut T>,
    ball_tracker: Option<&mut U>,
    previous_panner_pose: &mut ViewportPosition,
    event_sink: Option<&mut K>,
    ctx: &DispatchContext<'_>,
    math: &M,
) -> (result: Option<DispatchResult>)
    ensures
        panner is None <==> result is None,
        result is None ==> {
            &&& *final(previous_panner_pose) == *old(previous_panner_pose)
            &&& player_tracker matches Some(t) ==> *final(t) == *t
            &&& ball_tracker matches Some(t) ==> *final(t) == *t
            &&& event_sink matches Some(k) ==> *final(k) == *k
        },
        result matches Some(r) ==> (panner matches Some(p) && {
            &&& *final(previous_panner_pose) == r.pose
            &&& exists|
                world: WorldState,
                asked: &mut P,
                future: &[WorldState],
                decided: ViewportPosition,
                bounds: (Option<PitchBound>, Option<PitchBound>),
            |
                {
                    &&& player_tracker is None ==> world.players@.len() == 0
                    &&& player_tracker matches Some(t) ==> exists|
                        c: &mut T,
                        players: Vec<TrackedEntity>,
                    |
                        {
                            &&& #[trigger] call_ensures(
                                T::update,
                                (c, ctx.detections, ctx.timestamp_ms),
                                players,
                            )
                            &&& *c == *t
                            &&& *final(c) == *final(t)
                            &&& world.players@ == players@
                        }
                    &&& ball_tracker is None ==> world.ball is None
                    &&& ball_tracker matches Some(t) ==> exists|
                        c: &mut U,
                        d: &mut U,
                        seen: WorldState,
                        balls: Vec<TrackedEntity>,
                    |
                        {
                            &&& #[trigger] call_ensures(U::observe_world, (c, &seen), ())
                            &&& #[trigger] call_ensures(
                                U::update,
                                (d, ctx.detections, ctx.timestamp_ms),
                                balls,
                            )
                            &&& *c == *t
                            &&& *final(c) == *d
                            &&& *final(d) == *final(t)
                            &&& seen.players@ == world.players@
                            &&& seen.ball is None
                            &&& world.ball == first_of(balls@)
                        }
                    &&& #[trigger] call_ensures(
                        P::decide_with_lookahead,
                        (
                            asked,
                            &world,
                            future,
                            &pan_context(*ctx, *old(previous_panner_pose)),
                        ),
                        decided,
                    )
                    &&& *asked == *p
                    &&& *final(asked) == *final(p)
                    &&& future@.len() == 0
                    &&& bounds_of(*math, decided.fov_degrees, ctx.pitch_limit, bounds)
                    &&& r == #[trigger] dispatched(world, decided, bounds)
                    &&& event_sink matches Some(k) ==> exists|
                        c: &mut K,
                        d: &mut K,
                        seen: PipelineEvent,
                        debug: Option<PipelineEvent>,
                    |
                        {
                            &&& #[trigger] call_ensures(K::emit, (c, seen), ())
                            &&& #[trigger] call_ensures(
                                K::emit,
                                (
                                    d,
                                    PipelineEvent::PanDecision {
                                        frame_index: ctx.frame_index,
                                        pose: r.pose,
                                    },
                                ),
                                (),
                            )
                            &&& #[trigger] call_ensures(
                                P::debug_event,
                                (&*final(p), ctx.frame_index),
                                debug,
                            )
                            &&& reports_world(seen, *ctx, world)
                            &&& *c == *k
                            &&& *final(c) == *d
                            &&& match debug {
                                None => *final(d) == *final(k),
                                Some(e) => exists|g: &mut K|
                                    {
                                        &&& #[trigger] call_ensures(K::emit, (g, e), ())
                                        &&& *g == *final(d)
                                        &&& *final(g) == *final(k)
                                    },
                            }
                        }
                }
        }),
{
    let panner = match panner {
        Some(p) => p,
        None => {
            return None;
        },
    };
    let world: WorldState = dispatch_detect_only(player_tracker, ball_tracker, ctx);
    let previous: ViewportPosition = *previous_panner_pose;
    match event_sink {
        Some(sink) => {
            sink.emit(world_event(ctx, &world));
            let result: DispatchResult = decide(panner, &world, previous, ctx, math);
            *previous_panner_pose = result.pose;
            sink.emit(
                PipelineEvent::PanDecision { frame_index: ctx.frame_index, pose: result.pose },
            );
            let debug: Option<PipelineEvent> = panner.debug_event(ctx.frame_index);
            match debug {
                Some(e) => {
                    sink.emit(e);
                },
                None => {},
            }
            Some(result)
        },
        None => {
            let result: DispatchResult = decide(panner, &world, previous, ctx, math);
            *previous_panner_pose = result.pose;
            Some(result)
        },
    }
}

/// With both limits in order, and their margined forms no wider than they are,
/// no pitch leaves them.
pub proof fn limited_pitch_respects_limits(pitch: Scalar, top: PitchBound, bottom: PitchBound)
    requires
        !pitch.spec_is_nan(),
        bottom.raw.at_most(top.raw),
        bottom.margined.at_most(top.margined) ==> bottom.raw.at_most(bottom.margined)
            && top.margined.at_most(top.raw),
    ensures
        bottom.raw.at_most(limited_pitch(pitch, (Some(top), Some(bottom)))),
        limited_pitch(pitch, (Some(top), Some(bottom))).at_most(top.raw),
{
}

/// Limits whose bottom lies above their top restrict nothing.
pub proof fn inverted_limits_pass_through(pitch: Scalar, top: PitchBound, bottom: PitchBound)
    requires
        top.raw.below(bottom.raw),
    ensures
        limited_pitch(pitch, (Some(top), Some(bottom))) == pitch,
{
}

/// A limited pitch is not moved again.
pub proof fn limiting_is_idempotent(
    pitch: Scalar,
    limits: (Option<PitchBound>, Option<PitchBound>),
)
    ensures
        limited_pitch(limited_pitch(pitch, limits), limits) == limited_pitch(pitch, limits),
{
}

} // verus!
