//! Where the view may look, and what is made of a frame's detections.

use crate::panner::{
    clamp_pitch_to_limits, dispatch, dispatch_detect_only, finish_dispatch, world_event,
    DispatchContext, DispatchResult, PanContext, PanMath, Panner, PipelineEvent,
    PipelineEventSink, PitchBound, Tracker,
};
use crate::scalar::Scalar;
use crate::world::{TrackedEntity, ViewportPosition, WorldState};
use vstd::prelude::*;

verus! {

/// Half of a field of view, which is 75 degrees where none is given.
pub open spec fn is_half_of<M: PanMath>(math: M, fov: Option<Scalar>, half: Scalar) -> bool {
    match fov {
        Some(f) => call_ensures(M::half_view, (&math, f), half),
        None => call_ensures(M::half_view, (&math, Scalar { bits: 0x4296_0000 }), half),
    }
}

/// `held` is a pitch under a top and a bottom limit. The edges of the view stay within both
/// where they leave room for it, else its middle does; limits in the wrong order hold
/// nothing. With one limit, that edge of the view stays within it; with none, the pitch is
/// as it was.
pub open spec fn is_limited<M: PanMath>(
    math: M,
    pitch: Scalar,
    half: Scalar,
    top: Option<Scalar>,
    bottom: Option<Scalar>,
    held: Scalar,
) -> bool {
    match (top, bottom) {
        (None, None) => held == pitch,
        (Some(t), None) => exists|under: Scalar|
            {
                &&& #[trigger] call_ensures(M::difference, (&math, t, half), under)
                &&& held == pitch || held == under
                &&& !pitch.spec_is_nan() && !under.spec_is_nan() ==> held.at_most(under)
                    && held.at_most(pitch)
                &&& pitch.spec_is_nan() ==> held == under
            },
        (None, Some(b)) => exists|over: Scalar|
            {
                &&& #[trigger] call_ensures(M::sum, (&math, b, half), over)
                &&& held == pitch || held == over
                &&& !pitch.spec_is_nan() && !over.spec_is_nan() ==> over.at_most(held)
                    && pitch.at_most(held)
                &&& pitch.spec_is_nan() ==> held == over
            },
        (Some(t), Some(b)) => exists|under: Scalar, over: Scalar|
            {
                &&& #[trigger] call_ensures(M::difference, (&math, t, half), under)
                &&& #[trigger] call_ensures(M::sum, (&math, b, half), over)
                &&& !b.at_most(t) ==> held == pitch
                &&& b.at_most(t) && over.at_most(under) ==> is_between(pitch, over, under, held)
                &&& b.at_most(t) && !over.at_most(under) ==> is_between(pitch, b, t, held)
            },
    }
}

/// `held` is the nearest to a number between two others.
pub open spec fn is_between(x: Scalar, low: Scalar, high: Scalar, held: Scalar) -> bool {
    &&& x.below(low) ==> held == low
    &&& high.below(x) ==> held == high
    &&& !x.below(low) && !high.below(x) ==> held == x
}

proof fn limited_is_limited<M: PanMath>(
    math: M,
    pitch: Scalar,
    fov: Option<Scalar>,
    limits: (Option<Scalar>, Option<Scalar>),
    bounds: (Option<PitchBound>, Option<PitchBound>),
) -> (half: Scalar)
    requires
        crate::panner::bounds_of(math, fov, limits, bounds),
    ensures
        is_half_of(math, fov, half),
        is_limited(
            math,
            pitch,
            half,
            limits.0,
            limits.1,
            crate::panner::limited_pitch(pitch, bounds),
        ),
{
    let half = choose|half: Scalar|
        {
            &&& #[trigger] call_ensures(
                M::half_view,
                (&math, crate::panner::limiting_fov(fov)),
                half,
            )
            &&& crate::panner::margined(math, half, limits, bounds)
        };
    let held = crate::panner::limited_pitch(pitch, bounds);
    match (bounds.0, bounds.1) {
        (Some(t), Some(b)) => {
            assert(call_ensures(M::difference, (&math, t.raw, half), t.margined));
            assert(call_ensures(M::sum, (&math, b.raw, half), b.margined));
        },
        (Some(t), None) => {
            assert(call_ensures(M::difference, (&math, t.raw, half), t.margined));
        },
        (None, Some(b)) => {
            assert(call_ensures(M::sum, (&math, b.raw, half), b.margined));
        },
        (None, None) => {},
    }
    half
}

/// A view does not show what is above the top limit or below the bottom one.
pub proof fn a_view_stays_within_its_limits<M: PanMath>(
    math: M,
    pitch: Scalar,
    fov: Option<Scalar>,
    limits: (Option<Scalar>, Option<Scalar>),
    held: Scalar,
) -> (half: Scalar)
    requires
        call_ensures(clamp_pitch_to_limits::<M>, (pitch, fov, limits, &math), held),
    ensures
        is_half_of(math, fov, half),
        is_limited(math, pitch, half, limits.0, limits.1, held),
{
    let bounds = choose|bounds: (Option<PitchBound>, Option<PitchBound>)|
        {
            &&& #[trigger] crate::panner::bounds_of(math, fov, limits, bounds)
            &&& held == crate::panner::limited_pitch(pitch, bounds)
        };
    limited_is_limited(math, pitch, fov, limits, bounds)
}

/// What is made of a world and a decision: the decision's yaw and field of view, its pitch
/// within the limits, the number of players, and whether there is a ball that is not lost.
pub open spec fn is_result_of<M: PanMath>(
    math: M,
    world: WorldState,
    decided: ViewportPosition,
    limits: (Option<Scalar>, Option<Scalar>),
    r: DispatchResult,
) -> bool {
    &&& r.pose.yaw == decided.yaw
    &&& r.pose.fov_degrees == decided.fov_degrees
    &&& exists|half: Scalar|
        {
            &&& #[trigger] is_half_of(math, decided.fov_degrees, half)
            &&& is_limited(math, decided.pitch, half, limits.0, limits.1, r.pose.pitch)
        }
    &&& r.active_tracks == world.players@.len() as u32
    &&& r.ball_present <==> (world.ball matches Some(b) && !(b.state is Lost))
}

pub proof fn a_decision_is_limited<M: PanMath>(
    math: M,
    world: WorldState,
    decided: ViewportPosition,
    limits: (Option<Scalar>, Option<Scalar>),
    r: DispatchResult,
)
    requires
        call_ensures(finish_dispatch::<M>, (&world, decided, limits, &math), r),
    ensures
        is_result_of(math, world, decided, limits, r),
{
    let bounds = choose|bounds: (Option<PitchBound>, Option<PitchBound>)|
        {
            &&& #[trigger] crate::panner::bounds_of(math, decided.fov_degrees, limits, bounds)
            &&& r == crate::panner::dispatched(world, decided, bounds)
        };
    let half = limited_is_limited(math, decided.pitch, decided.fov_degrees, limits, bounds);
}

/// A report on a world says of which frame it is, when that was, and all that was tracked.
pub proof fn a_world_is_reported_whole(
    ctx: DispatchContext<'_>,
    world: WorldState,
    event: PipelineEvent,
)
    requires
        call_ensures(world_event, (&ctx, &world), event),
    ensures
        is_report_on(event, ctx, world),
{
}

pub open spec fn is_report_on(
    event: PipelineEvent,
    ctx: DispatchContext<'_>,
    world: WorldState,
) -> bool {
    match event {
        PipelineEvent::WorldState { frame_index, timestamp_ms, players, ball } => {
            &&& frame_index == ctx.frame_index
            &&& timestamp_ms == ctx.timestamp_ms
            &&& players@ == world.players@
            &&& ball == world.ball
        },
        _ => false,
    }
}

/// Each tracker is asked of this frame's detections. The ball's tracker has seen the players
/// before, and the ball is the first of what it finds. Without a tracker nothing is tracked.
pub proof fn the_world_is_what_the_trackers_find<T: Tracker, U: Tracker>()
    ensures
        forall|
            t: Option<&mut T>,
            u: Option<&mut U>,
            ctx: &DispatchContext<'_>,
            world: WorldState,
        | #[trigger]
            call_ensures(dispatch_detect_only::<T, U>, (t, u, ctx), world) ==> {
                &&& t is None ==> world.players@.len() == 0
                &&& u is None ==> world.ball is None
                &&& t matches Some(tracker) ==> exists|c: &mut T, said: Vec<TrackedEntity>|
                    {
                        &&& #[trigger] call_ensures(
                            T::update,
                            (c, ctx.detections, ctx.timestamp_ms),
                            said,
                        )
                        &&& *c == *tracker
                        &&& *final(c) == *final(tracker)
                        &&& world.players@ == said@
                    }
                &&& u matches Some(tracker) ==> exists|
                    c: &mut U,
                    d: &mut U,
                    seen: WorldState,
                    said: Vec<TrackedEntity>,
                |
                    {
                        &&& #[trigger] call_ensures(U::observe_world, (c, &seen), ())
                        &&& #[trigger] call_ensures(
                            U::update,
                            (d, ctx.detections, ctx.timestamp_ms),
                            said,
                        )
                        &&& *c == *tracker
                        &&& *final(c) == *d
                        &&& *final(d) == *final(tracker)
                        &&& seen.players@ == world.players@
                        &&& said@.len() == 0 ==> world.ball is None
                        &&& said@.len() > 0 ==> world.ball == Some(said@[0])
                    }
            },
{
}

/// A frame is decided on by the panner, on the world that was tracked, from the pose before
/// and without a future; what it decides is limited and is the pose before of the next
/// frame. Without a panner nothing happens.
pub proof fn a_frame_is_decided_on_by_the_panner<
    P: Panner,
    T: Tracker,
    U: Tracker,
    K: PipelineEventSink,
    M: PanMath,
>(math: M)
    ensures
        forall|
            p: Option<&mut P>,
            t: Option<&mut T>,
            u: Option<&mut U>,
            pose: &mut ViewportPosition,
            k: Option<&mut K>,
            ctx: &DispatchContext<'_>,
            r: Option<DispatchResult>,
        | #[trigger]
            call_ensures(dispatch::<P, T, U, K, M>, (p, t, u, pose, k, ctx, &math), r) ==> {
                &&& r is Some <==> p is Some
                &&& r is None ==> *final(pose) == *pose
                &&& r matches Some(result) ==> {
                    &&& *final(pose) == result.pose
                    &&& exists|
                        asked: &mut P,
                        world: WorldState,
                        future: &[WorldState],
                        told: PanContext<'_>,
                        decided: ViewportPosition,
                    |
                        {
                            &&& #[trigger] call_ensures(
                                P::decide_with_lookahead,
                                (asked, &world, future, &told),
                                decided,
                            )
                            &&& *asked == *(p->0)
                            &&& future@.len() == 0
                            &&& told.frame_index == ctx.frame_index
                            &&& told.timestamp_ms == ctx.timestamp_ms
                            &&& told.previous_position == *pose
                            &&& told.calibration == ctx.calibration
                            &&& t is None ==> world.players@.len() == 0
                            &&& u is None ==> world.ball is None
                            &&& is_result_of(math, world, decided, ctx.pitch_limit, result)
                        }
                }
            },
{
    assert forall|
        p: Option<&mut P>,
        t: Option<&mut T>,
        u: Option<&mut U>,
        pose: &mut ViewportPosition,
        k: Option<&mut K>,
        ctx: &DispatchContext<'_>,
        r: Option<DispatchResult>,
    |
        #[trigger] call_ensures(
            dispatch::<P, T, U, K, M>,
            (p, t, u, pose, k, ctx, &math),
            r,
        ) && r is Some implies exists|
        asked: &mut P,
        world: WorldState,
        future: &[WorldState],
        told: PanContext<'_>,
        decided: ViewportPosition,
    |
        {
            &&& #[trigger] call_ensures(
                P::decide_with_lookahead,
                (asked, &world, future, &told),
                decided,
            )
            &&& *asked == *(p->0)
            &&& future@.len() == 0
            &&& told.frame_index == ctx.frame_index
            &&& told.timestamp_ms == ctx.timestamp_ms
            &&& told.previous_position == *pose
            &&& told.calibration == ctx.calibration
            &&& t is None ==> world.players@.len() == 0
            &&& u is None ==> world.ball is None
            &&& is_result_of(math, world, decided, ctx.pitch_limit, r->0)
        } by {
        let (world, asked, future, decided, bounds) = choose|
            world: WorldState,
            asked: &mut P,
            future: &[WorldState],
            decided: ViewportPosition,
            bounds: (Option<PitchBound>, Option<PitchBound>),
        |
            {
                &&& t is None ==> world.players@.len() == 0
                &&& u is None ==> world.ball is None
                &&& #[trigger] call_ensures(
                    P::decide_with_lookahead,
                    (asked, &world, future, &crate::panner::pan_context(*ctx, *pose)),
                    decided,
                )
                &&& *asked == *(p->0)
                &&& future@.len() == 0
                &&& crate::panner::bounds_of(math, decided.fov_degrees, ctx.pitch_limit, bounds)
                &&& r->0 == #[trigger] crate::panner::dispatched(world, decided, bounds)
            };
        let half = limited_is_limited(
            math,
            decided.pitch,
            decided.fov_degrees,
            ctx.pitch_limit,
            bounds,
        );
        let told = crate::panner::pan_context(*ctx, *pose);
        assert(is_result_of(math, world, decided, ctx.pitch_limit, r->0));
    }
}

/// Where there is a sink, it is told of the frame's world first and then of the pose that was
/// decided on, as it was limited. Without a panner nobody is told and no tracker is asked.
pub proof fn a_decision_is_reported_after_its_world<
    P: Panner,
    T: Tracker,
    U: Tracker,
    K: PipelineEventSink,
    M: PanMath,
>(math: M)
    ensures
        forall|
            p: Option<&mut P>,
            t: Option<&mut T>,
            u: Option<&mut U>,
            pose: &mut ViewportPosition,
            k: Option<&mut K>,
            ctx: &DispatchContext<'_>,
            r: Option<DispatchResult>,
        | #[trigger]
            call_ensures(dispatch::<P, T, U, K, M>, (p, t, u, pose, k, ctx, &math), r) ==> {
                &&& r is None ==> {
                    &&& t matches Some(tracker) ==> *final(tracker) == *tracker
                    &&& u matches Some(tracker) ==> *final(tracker) == *tracker
                    &&& k matches Some(sink) ==> *final(sink) == *sink
                }
                &&& r is Some && k is Some ==> exists|
                    c: &mut K,
                    d: &mut K,
                    world: WorldState,
                    seen: PipelineEvent,
                |
                    {
                        &&& #[trigger] call_ensures(K::emit, (c, seen), ())
                        &&& #[trigger] call_ensures(
                            K::emit,
                            (
                                d,
                                PipelineEvent::PanDecision {
                                    frame_index: ctx.frame_index,
                                    pose: r->0.pose,
                                },
                            ),
                            (),
                        )
                        &&& *c == *(k->0)
                        &&& *final(c) == *d
                        &&& #[trigger] is_report_on(seen, *ctx, world)
                        &&& t is None ==> world.players@.len() == 0
                        &&& u is None ==> world.ball is None
                        &&& r->0.active_tracks == world.players@.len() as u32
                        &&& r->0.ball_present <==> (world.ball matches Some(b) && !(
                        b.state is Lost))
                    }
            },
{
    assert forall|
        p: Option<&mut P>,
        t: Option<&mut T>,
        u: Option<&mut U>,
        pose: &mut ViewportPosition,
        k: Option<&mut K>,
        ctx: &DispatchContext<'_>,
        r: Option<DispatchResult>,
    |
        #[trigger] call_ensures(
            dispatch::<P, T, U, K, M>,
            (p, t, u, pose, k, ctx, &math),
            r,
        ) && r is Some && k is Some implies exists|
        c: &mut K,
        d: &mut K,
        world: WorldState,
        seen: PipelineEvent,
    |
        {
            &&& #[trigger] call_ensures(K::emit, (c, seen), ())
            &&& #[trigger] call_ensures(
                K::emit,
                (
                    d,
                    PipelineEvent::PanDecision { frame_index: ctx.frame_index, pose: r->0.pose },
                ),
                (),
            )
            &&& *c == *(k->0)
            &&& *final(c) == *d
            &&& #[trigger] is_report_on(seen, *ctx, world)
            &&& t is None ==> world.players@.len() == 0
            &&& u is None ==> world.ball is None
            &&& r->0.active_tracks == world.players@.len() as u32
            &&& r->0.ball_present <==> (world.ball matches Some(b) && !(b.state is Lost))
        } by {
        let (world, asked, future, decided, bounds, c, d, seen) = choose|
            world: WorldState,
            asked: &mut P,
            future: &[WorldState],
            decided: ViewportPosition,
            bounds: (Option<PitchBound>, Option<PitchBound>),
            c: &mut K,
            d: &mut K,
            seen: PipelineEvent,
        |
            {
                &&& t is None ==> world.players@.len() == 0
                &&& u is None ==> world.ball is None
                &&& #[trigger] call_ensures(
                    P::decide_with_lookahead,
                    (asked, &world, future, &crate::panner::pan_context(*ctx, *pose)),
                    decided,
                )
                &&& r->0 == #[trigger] crate::panner::dispatched(world, decided, bounds)
                &&& #[trigger] call_ensures(K::emit, (c, seen), ())
                &&& #[trigger] call_ensures(
                    K::emit,
                    (
                        d,
                        PipelineEvent::PanDecision {
                            frame_index: ctx.frame_index,
                            pose: r->0.pose,
                        },
                    ),
                    (),
                )
                &&& crate::panner::reports_world(seen, *ctx, world)
                &&& *c == *(k->0)
                &&& *final(c) == *d
            };
        assert(is_report_on(seen, *ctx, world));
    }
}

} // verus!
