//! Gathering the colour of the seam band on the device: where to look, and the
//! life of the one readback that is under way.

use crate::bytes::{bytes_to_words, encodes, words_to_bytes};
use crate::scalar::Scalar;
use vstd::prelude::*;

verus! {

/// The most positions that are read of one camera.
pub const MAX_SAMPLES_PER_CAMERA: u32 = 2048;

/// The bytes of the position buffer: two words for each position of each camera.
pub const COORDS_BYTES: u64 = 32768;

/// The bytes of the sample buffer: four words for each position of each camera.
pub const SAMPLES_BYTES: u64 = 65536;

/// Where the right camera's positions start in the position buffer.
pub const RIGHT_COORDS_OFFSET: u64 = 16384;

/// The positions that one group of the gather shader reads.
pub const WORKGROUP_SIZE: u32 = 64;

#[derive(Clone, Copy, Debug, PartialEq, Eq, Structural)]
pub enum Readback {
    Idle,
    Submitted,
    Mapping,
}

/// Everything that the positions depend on.
#[derive(Clone, Copy, Debug)]
pub struct PositionKey {
    pub band_width: Scalar,
    pub grid_cols: u32,
    pub grid_rows: u32,
    pub seam_offset: Scalar,
    pub blend_flip_direction: bool,
    pub input_width: u32,
    pub input_height: u32,
    pub flip_180: (bool, bool),
}

impl PositionKey {
    /// The keys give the same positions. A width or an offset that is not a
    /// number matches nothing.
    pub open spec fn matches_key(self, other: PositionKey) -> bool {
        &&& self.band_width.equals(other.band_width)
        &&& self.grid_cols == other.grid_cols
        &&& self.grid_rows == other.grid_rows
        &&& self.seam_offset.equals(other.seam_offset)
        &&& self.blend_flip_direction == other.blend_flip_direction
        &&& self.input_width == other.input_width
        &&& self.input_height == other.input_height
        &&& self.flip_180 == other.flip_180
    }

    pub fn same_positions(&self, other: &PositionKey) -> (r: bool)
        ensures
            r == self.matches_key(*other),
    {
        self.band_width.eq_number(other.band_width) && self.grid_cols == other.grid_cols
            && self.grid_rows == other.grid_rows && self.seam_offset.eq_number(other.seam_offset)
            && self.blend_flip_direction == other.blend_flip_direction && self.input_width
            == other.input_width && self.input_height == other.input_height && self.flip_180.0
            == other.flip_180.0 && self.flip_180.1 == other.flip_180.1
    }
}

/// Where a coordinate lands when the picture is turned by 180 degrees.
pub open spec fn mirrored(coord: u32, size: u32) -> u32 {
    if coord + 1 <= size {
        (size - 1 - coord) as u32
    } else {
        0
    }
}

/// The positions in a picture of `width` by `height` that is turned by 180
/// degrees.
pub fn mirrored_180(positions: &[[u32; 2]], width: u32, height: u32) -> (out: Vec<[u32; 2]>)
    requires
        forall|i: int|
            0 <= i < positions@.len() ==> (#[trigger] positions@[i])[0] < u32::MAX
                && positions@[i][1] < u32::MAX,
    ensures
        out@.len() == positions@.len(),
        forall|i: int|
            0 <= i < out@.len() ==> (#[trigger] out@[i])[0] == mirrored(positions@[i][0], width)
                && out@[i][1] == mirrored(positions@[i][1], height),
{
    let mut out: Vec<[u32; 2]> = Vec::new();
    let mut i: usize = 0;
    while i < positions.len()
        invariant
            i <= positions@.len(),
            forall|k: int|
                0 <= k < positions@.len() ==> (#[trigger] positions@[k])[0] < u32::MAX
                    && positions@[k][1] < u32::MAX,
            out@.len() == i,
            forall|k: int|
                0 <= k < i ==> (#[trigger] out@[k])[0] == mirrored(positions@[k][0], width)
                    && out@[k][1] == mirrored(positions@[k][1], height),
        decreases positions@.len() - i,
    {
        let p: [u32; 2] = positions[i];
        let turned: [u32; 2] = [width.saturating_sub(1 + p[0]), height.saturating_sub(1 + p[1])];
        out.push(turned);
        i += 1;
    }
    out
}

/// A position turned twice is where it was.
pub proof fn turning_twice_restores(coord: u32, size: u32)
    requires
        coord < size,
    ensures
        mirrored(mirrored(coord, size), size) == coord,
        mirrored(coord, size) < size,
{
}

/// Positions as words, x before y.
pub open spec fn position_words(positions: Seq<[u32; 2]>) -> Seq<u32> {
    Seq::new(2 * positions.len(), |i: int| positions[i / 2][i % 2])
}

/// The first positions, as many as there is room for.
pub open spec fn kept(positions: Seq<[u32; 2]>) -> Seq<[u32; 2]> {
    if positions.len() <= MAX_SAMPLES_PER_CAMERA {
        positions
    } else {
        positions.take(MAX_SAMPLES_PER_CAMERA as int)
    }
}

/// What is written to the device when the positions change.
pub struct PositionUpload {
    pub left_coords: Vec<u8>,
    /// To be written at `RIGHT_COORDS_OFFSET`.
    pub right_coords: Vec<u8>,
    pub left_params: Vec<u8>,
    pub right_params: Vec<u8>,
}

/// How many groups of the shader run for each camera.
#[derive(Clone, Copy, Debug, PartialEq, Eq, Structural)]
pub struct GatherDispatch {
    pub left_groups: u32,
    pub right_groups: u32,
}

/// What to do for a readback that is under way.
#[derive(Clone, Copy, Debug, PartialEq, Eq, Structural)]
pub enum TakeAction {
    Nothing,
    RequestMap,
    PollMap,
}

/// What came of polling the mapping.
pub enum MapPoll<'a> {
    NotYet,
    Failed,
    Ready(&'a [u8]),
}

/// The samples of the left and of the right camera.
pub struct GatheredSamples {
    pub left: Vec<[Scalar; 4]>,
    pub right: Vec<[Scalar; 4]>,
}

/// `samples` are `count` groups of four words from the `start`-th group on.
pub open spec fn sampled(
    words: Seq<u32>,
    start: int,
    count: nat,
    samples: Seq<[Scalar; 4]>,
) -> bool {
    &&& samples.len() == count
    &&& forall|i: int, k: int|
        0 <= i < count && 0 <= k < 4 ==> (#[trigger] samples[i][k]).bits == words[4 * (start + i)
            + k]
}

/// `s` are the samples that a gather left in `data`.
pub open spec fn gathered_from(g: BandGather, data: Seq<u8>, s: GatheredSamples) -> bool {
    exists|words: Seq<u32>|
        {
            &&& #[trigger] encodes(words, data)
            &&& sampled(words, 0, g.left_count as nat, s.left@)
            &&& sampled(words, MAX_SAMPLES_PER_CAMERA as int, g.right_count as nat, s.right@)
        }
}

fn words_of(positions: &[[u32; 2]]) -> (words: Vec<u32>)
    ensures
        words@ == position_words(kept(positions@)),
{
    let limit: usize = MAX_SAMPLES_PER_CAMERA as usize;
    let n: usize = if positions.len() < limit {
        positions.len()
    } else {
        limit
    };
    let mut words: Vec<u32> = Vec::new();
    let mut i: usize = 0;
    while i < n
        invariant
            i <= n,
            n <= positions@.len(),
            n == kept(positions@).len(),
            words@.len() == 2 * i,
            forall|k: int|
                0 <= k < 2 * i ==> #[trigger] words@[k] == positions@[k / 2][k % 2],
        decreases n - i,
    {
        let p: [u32; 2] = positions[i];
        words.push(p[0]);
        words.push(p[1]);
        i += 1;
    }
    words
}

fn samples_of(words: &Vec<u32>, start: usize, count: u32) -> (samples: Vec<[Scalar; 4]>)
    requires
        start <= MAX_SAMPLES_PER_CAMERA,
        count <= MAX_SAMPLES_PER_CAMERA,
        words@.len() == 4 * 2 * MAX_SAMPLES_PER_CAMERA,
    ensures
        sampled(words@, start as int, count as nat, samples@),
{
    let mut samples: Vec<[Scalar; 4]> = Vec::new();
    let mut i: usize = 0;
    while i < count as usize
        invariant
            start <= MAX_SAMPLES_PER_CAMERA,
            i <= count <= MAX_SAMPLES_PER_CAMERA,
            words@.len() == 4 * 2 * MAX_SAMPLES_PER_CAMERA,
            sampled(words@, start as int, i as nat, samples@),
        decreases count - i,
    {
        let at: usize = 4 * (start + i);
        let s: [Scalar; 4] = [
            Scalar { bits: words[at] },
            Scalar { bits: words[at + 1] },
            Scalar { bits: words[at + 2] },
            Scalar { bits: words[at + 3] },
        ];
        samples.push(s);
        i += 1;
    }
    samples
}

/// The gather's state: the positions that the device holds, and the readback
/// that is under way, of which there is never more than one.
pub struct BandGather {
    pub left_count: u32,
    pub right_count: u32,
    pub uploaded_for: Option<PositionKey>,
    pub state: Readback,
}

impl BandGather {
    pub open spec fn wf(self) -> bool {
        self.left_count <= MAX_SAMPLES_PER_CAMERA && self.right_count <= MAX_SAMPLES_PER_CAMERA
    }

    pub fn new() -> (g: BandGather)
        ensures
            g.wf(),
            g.left_count == 0,
            g.right_count == 0,
            g.uploaded_for is None,
            g.state == Readback::Idle,
    {
        BandGather { left_count: 0, right_count: 0, uploaded_for: None, state: Readback::Idle }
    }

    /// The parameters of one camera's gather: where its positions start, how
    /// many there are, and two words of padding.
    pub fn params_bytes(base: u32, count: u32) -> (bytes: Vec<u8>)
        ensures
            encodes(seq![base, count, 0u32, 0u32], bytes@),
    {
        let words: [u32; 4] = [base, count, 0, 0];
        words_to_bytes(words.as_slice())
    }

    /// The device holds the positions of this key.
    pub fn positions_current(&self, key: &PositionKey) -> (r: bool)
        ensures
            r == (self.uploaded_for matches Some(k) && k.matches_key(*key)),
    {
        match &self.uploaded_for {
            Some(k) => k.same_positions(key),
            None => false,
        }
    }

    /// Takes new positions, and says what to write to the device. Positions
    /// beyond the first `MAX_SAMPLES_PER_CAMERA` are dropped.
    pub fn set_positions(
        &mut self,
        left: &[[u32; 2]],
        right: &[[u32; 2]],
        key: PositionKey,
    ) -> (upload: PositionUpload)
        requires
            old(self).wf(),
        ensures
            final(self).wf(),
            final(self).left_count == kept(left@).len(),
            final(self).right_count == kept(right@).len(),
            final(self).uploaded_for == Some(key),
            final(self).state == old(self).state,
            encodes(position_words(kept(left@)), upload.left_coords@),
            encodes(position_words(kept(right@)), upload.right_coords@),
            encodes(seq![0u32, final(self).left_count, 0u32, 0u32], upload.left_params@),
            encodes(
                seq![MAX_SAMPLES_PER_CAMERA, final(self).right_count, 0u32, 0u32],
                upload.right_params@,
            ),
    {
        let left_words: Vec<u32> = words_of(left);
        let right_words: Vec<u32> = words_of(right);
        self.left_count = (left_words.len() / 2) as u32;
        self.right_count = (right_words.len() / 2) as u32;
        self.uploaded_for = Some(key);
        PositionUpload {
            left_coords: words_to_bytes(left_words.as_slice()),
            right_coords: words_to_bytes(right_words.as_slice()),
            left_params: BandGather::params_bytes(0, self.left_count),
            right_params: BandGather::params_bytes(MAX_SAMPLES_PER_CAMERA, self.right_count),
        }
    }

    pub fn is_idle(&self) -> (r: bool)
        ensures
            r == (self.state == Readback::Idle),
    {
        self.state == Readback::Idle
    }

    /// Starts a gather, unless a camera has no positions.
    pub fn dispatch(&mut self) -> (plan: Option<GatherDispatch>)
        requires
            old(self).wf(),
        ensures
            final(self).wf(),
            final(self).left_count == old(self).left_count,
            final(self).right_count == old(self).right_count,
            final(self).uploaded_for == old(self).uploaded_for,
            plan is None <==> old(self).left_count == 0 || old(self).right_count == 0,
            plan is None ==> final(self).state == old(self).state,
            plan matches Some(p) ==> {
                &&& final(self).state == Readback::Submitted
                &&& p.left_groups == (old(self).left_count + 63) / 64
                &&& p.right_groups == (old(self).right_count + 63) / 64
            },
    {
        if self.left_count == 0 || self.right_count == 0 {
            return None;
        }
        self.state = Readback::Submitted;
        Some(
            GatherDispatch {
                left_groups: (self.left_count + (WORKGROUP_SIZE - 1)) / WORKGROUP_SIZE,
                right_groups: (self.right_count + (WORKGROUP_SIZE - 1)) / WORKGROUP_SIZE,
            },
        )
    }

    /// The next step towards the samples: a submitted gather is mapped, a
    /// mapping is polled.
    pub fn begin_take(&mut self) -> (action: TakeAction)
        ensures
            action == match old(self).state {
                Readback::Idle => TakeAction::Nothing,
                Readback::Submitted => TakeAction::RequestMap,
                Readback::Mapping => TakeAction::PollMap,
            },
            *final(self) == (BandGather {
                state: if old(self).state == Readback::Submitted {
                    Readback::Mapping
                } else {
                    old(self).state
                },
                ..*old(self)
            }),
    {
        match self.state {
            Readback::Idle => TakeAction::Nothing,
            Readback::Submitted => {
                self.state = Readback::Mapping;
                TakeAction::RequestMap
            },
            Readback::Mapping => TakeAction::PollMap,
        }
    }

    /// Takes what came of polling. A mapping that failed ends the readback
    /// without samples.
    pub fn finish_take(&mut self, poll: MapPoll<'_>) -> (samples: Option<GatheredSamples>)
        requires
            old(self).wf(),
            old(self).state == Readback::Mapping,
            poll matches MapPoll::Ready(data) ==> data@.len() == SAMPLES_BYTES,
        ensures
            *final(self) == (BandGather {
                state: if poll is NotYet {
                    Readback::Mapping
                } else {
                    Readback::Idle
                },
                ..*old(self)
            }),
            samples is Some <==> poll is Ready,
            samples matches Some(s) ==> (poll matches MapPoll::Ready(data) && gathered_from(
                *old(self),
                data@,
                s,
            )),
    {
        match poll {
            MapPoll::NotYet => None,
            MapPoll::Failed => {
                self.state = Readback::Idle;
                None
            },
            MapPoll::Ready(data) => {
                self.state = Readback::Idle;
                let words: Vec<u32> = bytes_to_words(data);
                Some(self.split_words(&words))
            },
        }
    }

    /// The samples that the words of a gather hold.
    pub fn split_words(&self, words: &Vec<u32>) -> (s: GatheredSamples)
        requires
            self.wf(),
            words@.len() == 4 * 2 * MAX_SAMPLES_PER_CAMERA,
        ensures
            sampled(words@, 0, self.left_count as nat, s.left@),
            sampled(
                words@,
                MAX_SAMPLES_PER_CAMERA as int,
                self.right_count as nat,
                s.right@,
            ),
    {
        GatheredSamples {
            left: samples_of(words, 0, self.left_count),
            right: samples_of(words, MAX_SAMPLES_PER_CAMERA as usize, self.right_count),
        }
    }
}

/// The two cameras' positions do not overlap in the buffers, and both fit.
pub proof fn cameras_share_the_buffers(left_count: u32, right_count: u32)
    requires
        left_count <= MAX_SAMPLES_PER_CAMERA,
        right_count <= MAX_SAMPLES_PER_CAMERA,
    ensures
        left_count * 8 <= RIGHT_COORDS_OFFSET,
        RIGHT_COORDS_OFFSET + right_count * 8 <= COORDS_BYTES,
        left_count * 16 <= MAX_SAMPLES_PER_CAMERA * 16,
        MAX_SAMPLES_PER_CAMERA * 16 + right_count * 16 <= SAMPLES_BYTES,
{
}

} // verus!
