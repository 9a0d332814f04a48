//! What the trackers know of the field, and where the virtual camera looks.

use crate::async_detect::CameraId;
use crate::scalar::{Scalar, ZERO};
use vstd::prelude::*;

verus! {

#[derive(Clone, Copy, Debug, PartialEq, Eq, Structural)]
pub enum TrackState {
    Tracking,
    Lost,
}

/// One object that a tracker follows, in world angles.
#[derive(Clone, Copy, Debug, PartialEq, Eq, Structural)]
pub struct TrackedEntity {
    pub id: u64,
    pub class_id: u16,
    pub yaw: Scalar,
    pub pitch: Scalar,
    pub confidence: Scalar,
    pub state: TrackState,
    pub age_frames: u32,
    pub origin: CameraId,
}

/// A detection mapped to world angles.
#[derive(Clone, Copy, Debug, PartialEq, Eq, Structural)]
pub struct MappedDetection {
    pub yaw: Scalar,
    pub pitch: Scalar,
    pub confidence: Scalar,
    pub class_id: u16,
    pub camera: CameraId,
}

/// Where the virtual camera looks; without a field of view of its own, the
/// configured one holds.
#[derive(Clone, Copy, Debug, PartialEq, Eq, Structural)]
pub struct ViewportPosition {
    pub yaw: Scalar,
    pub pitch: Scalar,
    pub fov_degrees: Option<Scalar>,
}

impl Default for ViewportPosition {
    fn default() -> (p: ViewportPosition)
        ensures
            p.yaw == (Scalar { bits: ZERO }),
            p.pitch == (Scalar { bits: ZERO }),
            p.fov_degrees is None,
    {
        ViewportPosition {
            yaw: Scalar { bits: ZERO },
            pitch: Scalar { bits: ZERO },
            fov_degrees: None,
        }
    }
}

/// The tracked ball and players at one frame.
#[derive(Debug)]
pub struct WorldState {
    pub ball: Option<TrackedEntity>,
    pub players: Vec<TrackedEntity>,
}

impl WorldState {
    /// The two describe the same world.
    pub open spec fn same(self, other: WorldState) -> bool {
        self.ball == other.ball && self.players@ == other.players@
    }
}

impl Default for WorldState {
    fn default() -> (w: WorldState)
        ensures
            w.ball is None,
            w.players@ == Seq::<TrackedEntity>::empty(),
    {
        WorldState { ball: None, players: Vec::new() }
    }
}

impl Clone for WorldState {
    fn clone(&self) -> (w: WorldState)
        ensures
            w.same(*self),
    {
        let players: Vec<TrackedEntity> = self.players.clone();
        WorldState { ball: self.ball, players }
    }
}

} // verus!
