//! The look-ahead window: decoded frames that wait to be shown while later
//! ones are already being analysed.

use crate::scalar::Wide;
use crate::world::{MappedDetection, WorldState};
use std::collections::VecDeque;
use vstd::prelude::*;

verus! {

/// Tight planes of one camera, luma and interleaved chroma.
#[derive(Debug)]
pub struct Nv12Data {
    pub y: Vec<u8>,
    pub uv: Vec<u8>,
}

#[derive(Debug)]
pub struct Nv12FramePair {
    pub left: Nv12Data,
    pub right: Nv12Data,
}

/// Tight planes of one camera, luma and two chroma planes.
#[derive(Debug)]
pub struct YuvData {
    pub y: Vec<u8>,
    pub u: Vec<u8>,
    pub v: Vec<u8>,
}

#[derive(Debug)]
pub struct YuvFramePair {
    pub left: YuvData,
    pub right: YuvData,
}

/// A pair of decoded camera images.
#[derive(Debug)]
pub enum StereoFrame {
    Yuv420p(YuvFramePair),
    Nv12(Nv12FramePair),
    /// The images never left the GPU; the slots say where they are.
    GpuResident { left_slot: u8, right_slot: u8 },
}

/// The world at a frame, or the number under which its detection was submitted.
pub enum PendingWorldState {
    Ready(WorldState),
    Pending(u64),
}

impl PendingWorldState {
    pub open spec fn resolved(self, fallback: WorldState) -> WorldState {
        match self {
            PendingWorldState::Ready(ws) => ws,
            PendingWorldState::Pending(_) => fallback,
        }
    }

    /// The world at this frame, or `fallback` while it is not known.
    pub fn resolved_or(&self, fallback: &WorldState) -> (w: WorldState)
        ensures
            w.same(self.resolved(*fallback)),
    {
        match self {
            PendingWorldState::Ready(ws) => ws.clone(),
            PendingWorldState::Pending(_) => fallback.clone(),
        }
    }
}

pub struct BufferedFrame {
    pub frame: StereoFrame,
    pub world_state: PendingWorldState,
    pub detections: Vec<MappedDetection>,
    pub elapsed_ms: Wide,
    pub decode_nanos: u64,
    pub vram_slot: Option<usize>,
}

/// A queue of at most `capacity` frames.
pub struct FrameBuffer {
    frames: VecDeque<BufferedFrame>,
    capacity: usize,
    last_resolved: WorldState,
}

impl FrameBuffer {
    /// The waiting frames, oldest first.
    pub closed spec fn frames(self) -> Seq<BufferedFrame> {
        self.frames@
    }

    pub closed spec fn capacity(self) -> nat {
        self.capacity as nat
    }

    /// The world that stands in for those not known yet.
    pub closed spec fn fallback(self) -> WorldState {
        self.last_resolved
    }

    /// No more frames wait than the buffer was made for.
    pub open spec fn wf(self) -> bool {
        self.frames().len() <= self.capacity()
    }

    pub fn new(capacity: usize) -> (b: FrameBuffer)
        ensures
            b.wf(),
            b.frames() == Seq::<BufferedFrame>::empty(),
            b.capacity() == capacity,
            b.fallback().ball is None,
            b.fallback().players@.len() == 0,
    {
        FrameBuffer {
            frames: VecDeque::with_capacity(capacity),
            capacity,
            last_resolved: WorldState::default(),
        }
    }

    pub fn set_last_resolved(&mut self, ws: WorldState)
        requires
            old(self).wf(),
        ensures
            final(self).wf(),
            final(self).frames() == old(self).frames(),
            final(self).capacity() == old(self).capacity(),
            final(self).fallback() == ws,
    {
        self.last_resolved = ws;
    }

    pub fn len(&self) -> (n: usize)
        ensures
            n == self.frames().len(),
    {
        self.frames.len()
    }

    pub fn is_full(&self) -> (r: bool)
        ensures
            r == (self.frames().len() >= self.capacity()),
    {
        self.frames.len() >= self.capacity
    }

    pub fn is_empty(&self) -> (r: bool)
        ensures
            r == (self.frames().len() == 0),
    {
        self.frames.len() == 0
    }

    /// Adds the newest frame. The buffer must not be full.
    pub fn push(&mut self, frame: BufferedFrame)
        requires
            old(self).frames().len() < old(self).capacity(),
        ensures
            final(self).wf(),
            final(self).frames() == old(self).frames().push(frame),
            final(self).capacity() == old(self).capacity(),
            final(self).fallback() == old(self).fallback(),
    {
        self.frames.push_back(frame);
    }

    /// Removes the oldest frame.
    pub fn pop(&mut self) -> (frame: Option<BufferedFrame>)
        requires
            old(self).wf(),
        ensures
            final(self).wf(),
            final(self).capacity() == old(self).capacity(),
            final(self).fallback() == old(self).fallback(),
            old(self).frames().len() == 0 ==> frame is None && final(self).frames() == old(
                self,
            ).frames(),
            old(self).frames().len() > 0 ==> frame == Some(old(self).frames()[0])
                && final(self).frames() == old(self).frames().drop_first(),
    {
        self.frames.pop_front()
    }

    /// The world at each waiting frame, oldest first; a frame whose world is not
    /// known yet shows the last one that was.
    pub fn future_world_states(&self) -> (worlds: Vec<WorldState>)
        ensures
            worlds@.len() == self.frames().len(),
            forall|i: int|
                0 <= i < worlds@.len() ==> (#[trigger] worlds@[i]).same(
                    self.frames()[i].world_state.resolved(self.fallback()),
                ),
    {
        let mut worlds: Vec<WorldState> = Vec::new();
        let mut i: usize = 0;
        while i < self.frames.len()
            invariant
                i <= self.frames@.len(),
                worlds@.len() == i,
                forall|k: int|
                    0 <= k < i ==> (#[trigger] worlds@[k]).same(
                        self.frames@[k].world_state.resolved(self.last_resolved),
                    ),
            decreases self.frames@.len() - i,
        {
            worlds.push(self.frames[i].world_state.resolved_or(&self.last_resolved));
            i += 1;
        }
        worlds
    }
}

/// A push of a frame, or a pop.
pub enum BufferEvent {
    Push(BufferedFrame),
    Pop,
}

/// The frames that wait after some events on an empty buffer, and those that
/// were popped on the way, in order.
pub open spec fn traffic(events: Seq<BufferEvent>) -> (Seq<BufferedFrame>, Seq<BufferedFrame>)
    decreases events.len(),
{
    if events.len() == 0 {
        (Seq::empty(), Seq::empty())
    } else {
        let (waiting, popped) = traffic(events.drop_last());
        match events.last() {
            BufferEvent::Push(frame) => (waiting.push(frame), popped),
            BufferEvent::Pop => if waiting.len() == 0 {
                (waiting, popped)
            } else {
                (waiting.drop_first(), popped.push(waiting[0]))
            },
        }
    }
}

pub open spec fn pushed(events: Seq<BufferEvent>) -> Seq<BufferedFrame>
    decreases events.len(),
{
    if events.len() == 0 {
        Seq::empty()
    } else {
        match events.last() {
            BufferEvent::Push(frame) => pushed(events.drop_last()).push(frame),
            BufferEvent::Pop => pushed(events.drop_last()),
        }
    }
}

/// Frames leave in the order in which they came, none lost and none twice.
pub proof fn frames_leave_in_order(events: Seq<BufferEvent>)
    ensures
        traffic(events).1 + traffic(events).0 == pushed(events),
    decreases events.len(),
{
    if events.len() > 0 {
        frames_leave_in_order(events.drop_last());
    }
}

} // verus!
