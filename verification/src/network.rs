//! The road network: directed segments, recorded macros and the edit cursor.

use vstd::prelude::*;
use crate::fixed::COORD_MAX;
use crate::frame::{lemma_identity_rotation, Orientation, Pose};
use crate::vector::{Point3, V3};

verus! {

/// Most segments that a network holds: four mesh vertices for each of them can
/// still be numbered by a `u32`.
pub const MAX_SEGMENTS: usize = 0x4000_0000;

/// A directed straight piece of road from `a` to `b`. `up` is the orientation
/// reference of the piece, usually the up vector of the vehicle that drove it; it
/// need not have unit length.
#[derive(Clone, Copy, PartialEq, Eq, Structural, Debug)]
pub struct Segment {
    pub a: Point3,
    pub b: Point3,
    pub up: Point3,
}

impl Segment {
    /// The segment has a direction (`a` and `b` differ) and its three vectors are
    /// within [`COORD_MAX`].
    pub open spec fn wf(&self) -> bool {
        &&& self.a@ != self.b@
        &&& self.a@.within(COORD_MAX as int)
        &&& self.b@.within(COORD_MAX as int)
        &&& self.up@.within(COORD_MAX as int)
    }

    /// The vector from `a` to `b`.
    pub open spec fn direction(&self) -> V3 {
        self.b@.minus(self.a@)
    }

    /// Whether the segment is well formed.
    pub fn is_well_formed(&self) -> (ok: bool)
        ensures
            ok == self.wf(),
    {
        self.a != self.b && self.a.in_bounds(COORD_MAX) && self.b.in_bounds(COORD_MAX)
            && self.up.in_bounds(COORD_MAX)
    }
}

/// Every segment of the sequence is well formed.
pub open spec fn segments_wf(segments: Seq<Segment>) -> bool {
    forall|i: int| 0 <= i < segments.len() ==> (#[trigger] segments[i]).wf()
}

/// Whether every segment of the list is well formed.
pub fn segments_are_well_formed(segments: &Vec<Segment>) -> (ok: bool)
    ensures
        ok == segments_wf(segments@),
{
    let mut i: usize = 0;
    while i < segments.len()
        invariant
            i <= segments.len(),
            forall|j: int| 0 <= j < i ==> (#[trigger] segments@[j]).wf(),
        decreases segments.len() - i,
    {
        if !segments[i].is_well_formed() {
            return false;
        }
        i += 1;
    }
    true
}

/// A copy of the list.
pub fn copy_segments(segments: &Vec<Segment>) -> (copy: Vec<Segment>)
    ensures
        copy@ == segments@,
{
    let mut copy: Vec<Segment> = Vec::new();
    let mut i: usize = 0;
    while i < segments.len()
        invariant
            i <= segments.len(),
            copy@ == segments@.subrange(0, i as int),
        decreases segments.len() - i,
    {
        copy.push(segments[i]);
        assert(copy@ =~= segments@.subrange(0, i + 1));
        i += 1;
    }
    assert(segments@.subrange(0, i as int) =~= segments@);
    copy
}

/// A recorded run of segments that can be laid down again elsewhere. Its
/// coordinates are those of the world at the time of recording; on replay they are
/// read as offsets in the frame of the driven entity.
#[derive(Clone, Debug, PartialEq, Eq)]
pub struct Macro {
    pub road_segments: Vec<Segment>,
}

impl Default for Macro {
    /// The macro without segments.
    fn default() -> (recorded: Macro)
        ensures
            recorded.road_segments@.len() == 0,
    {
        Macro { road_segments: Vec::new() }
    }
}

/// What [`RoadNetwork::append_segment`] did.
#[derive(Clone, Copy, PartialEq, Eq, Structural, Debug)]
pub enum AppendOutcome {
    /// The network had no cursor: the position became the cursor, and no segment
    /// was added.
    CursorPlaced,
    /// A segment from the cursor to the position was added, and the position became
    /// the cursor.
    SegmentAdded,
    /// The position is the cursor itself, so the segment would have no direction, or
    /// the network is full. Nothing changed.
    Rejected,
}

/// `out` is `segment` carried into a frame: its end points are rotated and then
/// moved by `translation`; `up`, a direction, is rotated only.
pub open spec fn is_transform_of(
    out: Segment,
    segment: Segment,
    orientation: Orientation,
    translation: V3,
) -> bool {
    &&& out.a@ == orientation.rotated(segment.a@).plus(translation)
    &&& out.b@ == orientation.rotated(segment.b@).plus(translation)
    &&& out.up@ == orientation.rotated(segment.up@)
}

/// `segment` carried into the frame is a well-formed segment.
pub open spec fn transform_is_wf(segment: Segment, orientation: Orientation, translation: V3) -> bool {
    let a = orientation.rotated(segment.a@).plus(translation);
    let b = orientation.rotated(segment.b@).plus(translation);
    let up = orientation.rotated(segment.up@);
    &&& a != b
    &&& a.within(COORD_MAX as int)
    &&& b.within(COORD_MAX as int)
    &&& up.within(COORD_MAX as int)
}

/// Carries a segment from the frame in which it was recorded into the frame given
/// by `orientation` and `translation`.
pub fn transform_segment(segment: &Segment, orientation: &Orientation, translation: Point3) -> (out:
    Segment)
    requires
        segment.a@.within(COORD_MAX as int),
        segment.b@.within(COORD_MAX as int),
        segment.up@.within(COORD_MAX as int),
        orientation.wf(),
        translation@.within(COORD_MAX as int),
    ensures
        is_transform_of(out, *segment, *orientation, translation@),
        out.wf() == transform_is_wf(*segment, *orientation, translation@),
{
    let a = orientation.rotate(segment.a).plus(translation);
    let b = orientation.rotate(segment.b).plus(translation);
    let up = orientation.rotate(segment.up);
    Segment { a, b, up }
}

/// Carried into a frame that is not turned, a segment is only moved: its end points
/// by `translation`, its `up` not at all.
pub proof fn lemma_transform_by_identity(
    out: Segment,
    segment: Segment,
    orientation: Orientation,
    translation: V3,
)
    requires
        orientation.is_identity(),
        is_transform_of(out, segment, orientation, translation),
    ensures
        out.a@ == segment.a@.plus(translation),
        out.b@ == segment.b@.plus(translation),
        out.up == segment.up,
{
    lemma_identity_rotation(orientation, segment.a@);
    lemma_identity_rotation(orientation, segment.b@);
    lemma_identity_rotation(orientation, segment.up@);
}

/// Where the driven entity belongs after a replay: at the end of the last segment
/// that was laid, looking along it.
#[derive(Clone, Copy, PartialEq, Eq, Structural, Debug)]
pub struct EntityTarget {
    /// The end point of the last segment.
    pub position: Point3,
    /// The direction of the last segment, of length one unit.
    pub forward: Point3,
    /// The orientation reference of the last segment.
    pub up: Point3,
}

impl EntityTarget {
    /// The target is at the end of the last segment of `road` and looks along it;
    /// its forward vector is one unit long.
    pub open spec fn is_end_of(&self, road: Seq<Segment>) -> bool {
        &&& road.len() > 0
        &&& self.position == road.last().b
        &&& self.forward@ == road.last().direction().normalized()
        &&& self.forward@.is_unit()
        &&& self.up == road.last().up
    }
}

/// What [`RoadNetwork::replay_macro`] did.
#[derive(Clone, Copy, PartialEq, Eq, Structural, Debug)]
pub enum ReplayOutcome {
    /// No macro has been recorded. Nothing changed.
    NoMacro,
    /// A segment of the macro leaves the world or loses its direction in the new
    /// frame, or the network would hold too many segments. Nothing changed.
    Rejected,
    /// The segments of the macro were added. The target is `None` only where the
    /// macro was empty.
    Replayed(Option<EntityTarget>),
}

/// The road: its segments in the order in which they were laid, the recorded
/// macros, and the edit cursor from which the next segment will start.
#[derive(Clone, Debug, PartialEq, Eq)]
pub struct RoadNetwork {
    pub last_position: Option<Point3>,
    pub road_segments: Vec<Segment>,
    pub macros: Vec<Macro>,
}

impl Default for RoadNetwork {
    /// The empty network.
    fn default() -> (network: RoadNetwork)
        ensures
            network.last_position is None,
            network.road_segments@.len() == 0,
            network.macros@.len() == 0,
            network.wf(),
    {
        RoadNetwork::new()
    }
}

impl RoadNetwork {
    /// The cursor is within [`COORD_MAX`], every segment of the road and of the
    /// macros is well formed, and the road has at most [`MAX_SEGMENTS`] segments.
    pub open spec fn wf(&self) -> bool {
        &&& self.last_position matches Some(p) ==> p@.within(COORD_MAX as int)
        &&& segments_wf(self.road_segments@)
        &&& self.road_segments@.len() <= MAX_SEGMENTS
        &&& forall|i: int|
            0 <= i < self.macros@.len() ==> segments_wf(
                (#[trigger] self.macros@[i]).road_segments@,
            )
    }

    /// The empty network: no cursor, no segment, no macro.
    pub fn new() -> (network: RoadNetwork)
        ensures
            network.last_position is None,
            network.road_segments@.len() == 0,
            network.macros@.len() == 0,
            network.wf(),
    {
        RoadNetwork { last_position: None, road_segments: Vec::new(), macros: Vec::new() }
    }

    /// Whether the network is well formed. A network that was built elsewhere, for
    /// instance read from a file, is checked with this before it is used.
    pub fn is_well_formed(&self) -> (ok: bool)
        ensures
            ok == self.wf(),
    {
        let cursor_ok = match self.last_position {
            Some(p) => p.in_bounds(COORD_MAX),
            None => true,
        };
        if !cursor_ok || self.road_segments.len() > MAX_SEGMENTS || !segments_are_well_formed(
            &self.road_segments,
        ) {
            return false;
        }
        let mut i: usize = 0;
        while i < self.macros.len()
            invariant
                i <= self.macros.len(),
                forall|j: int|
                    0 <= j < i ==> segments_wf((#[trigger] self.macros@[j]).road_segments@),
            decreases self.macros.len() - i,
        {
            if !segments_are_well_formed(&self.macros[i].road_segments) {
                return false;
            }
            i += 1;
        }
        true
    }

    /// What [`RoadNetwork::append_segment`] does at `position`: without a cursor it
    /// places the cursor; it rejects a segment that would have no direction and one
    /// more than [`MAX_SEGMENTS`]; and else it adds a segment.
    pub open spec fn append_outcome(&self, position: Point3) -> AppendOutcome {
        match self.last_position {
            None => AppendOutcome::CursorPlaced,
            Some(start) => if start == position || self.road_segments@.len() >= MAX_SEGMENTS {
                AppendOutcome::Rejected
            } else {
                AppendOutcome::SegmentAdded
            },
        }
    }

    /// `after` is this network after [`RoadNetwork::append_segment`] at `position`
    /// with `up`.
    pub open spec fn is_appended(&self, after: RoadNetwork, position: Point3, up: Point3) -> bool {
        &&& after.macros == self.macros
        &&& match self.append_outcome(position) {
            AppendOutcome::CursorPlaced => {
                &&& after.last_position == Some(position)
                &&& after.road_segments@ == self.road_segments@
            },
            AppendOutcome::Rejected => after == *self,
            AppendOutcome::SegmentAdded => {
                &&& after.last_position == Some(position)
                &&& after.road_segments@ == self.road_segments@.push(
                    Segment { a: self.last_position->0, b: position, up },
                )
            },
        }
    }

    /// Lays the next point of the road at `position`.
    ///
    /// Without a cursor the position only becomes the cursor. With a cursor a
    /// segment from the cursor to the position is added, with `up` for its
    /// orientation, and the position becomes the new cursor. A segment without
    /// direction is not added, and neither is one more than [`MAX_SEGMENTS`].
    pub fn append_segment(&mut self, position: Point3, up: Point3) -> (outcome: AppendOutcome)
        requires
            old(self).wf(),
            position@.within(COORD_MAX as int),
            up@.within(COORD_MAX as int),
        ensures
            final(self).wf(),
            outcome == old(self).append_outcome(position),
            old(self).is_appended(*final(self), position, up),
    {
        match self.last_position {
            None => {
                self.last_position = Some(position);
                AppendOutcome::CursorPlaced
            },
            Some(start) => {
                if start == position || self.road_segments.len() >= MAX_SEGMENTS {
                    AppendOutcome::Rejected
                } else {
                    self.last_position = Some(position);
                    self.road_segments.push(Segment { a: start, b: position, up });
                    AppendOutcome::SegmentAdded
                }
            },
        }
    }

    /// The most recently recorded macro can be laid down in the frame of `pose`.
    pub open spec fn replay_fits(&self, pose: Pose) -> bool {
        let recorded = self.macros@.last().road_segments@;
        &&& self.road_segments@.len() + recorded.len() <= MAX_SEGMENTS
        &&& forall|i: int|
            0 <= i < recorded.len() ==> transform_is_wf(
                #[trigger] recorded[i],
                pose.orientation,
                pose.position@,
            )
    }

    /// `after` is this network with the most recently recorded macro laid down in the
    /// frame of `pose`: the road as it was, followed by the segments of the macro,
    /// each carried into that frame.
    pub open spec fn is_replay_of(&self, after: RoadNetwork, pose: Pose) -> bool {
        let recorded = self.macros@.last().road_segments@;
        let before = self.road_segments@.len() as int;
        let road = after.road_segments@;
        &&& after.macros == self.macros
        &&& after.last_position == self.last_position
        &&& road.len() == before + recorded.len()
        &&& road.subrange(0, before) == self.road_segments@
        &&& forall|i: int|
            0 <= i < recorded.len() ==> is_transform_of(
                #[trigger] road[before + i],
                recorded[i],
                pose.orientation,
                pose.position@,
            )
    }

    /// `after` is this network after [`RoadNetwork::replay_macro`] in the frame of
    /// `pose`, and `outcome` is what the replay answered.
    pub open spec fn is_replayed(&self, after: RoadNetwork, pose: Pose, outcome: ReplayOutcome) -> bool {
        if self.macros@.len() == 0 {
            outcome == ReplayOutcome::NoMacro && after == *self
        } else if !self.replay_fits(pose) {
            outcome == ReplayOutcome::Rejected && after == *self
        } else {
            &&& self.is_replay_of(after, pose)
            &&& outcome matches ReplayOutcome::Replayed(target)
            &&& match target {
                None => self.macros@.last().road_segments@.len() == 0,
                Some(t) => self.macros@.last().road_segments@.len() > 0 && t.is_end_of(
                    after.road_segments@,
                ),
            }
        }
    }

    /// Lays the most recently recorded macro down again in the frame of `pose`:
    /// each of its segments, carried into that frame, is added to the road, in
    /// order. Either all of them are added or none.
    #[verifier::loop_isolation(false)]
    pub fn replay_macro(&mut self, pose: &Pose) -> (outcome: ReplayOutcome)
        requires
            old(self).wf(),
            pose.wf(),
        ensures
            final(self).wf(),
            old(self).is_replayed(*final(self), *pose, outcome),
    {
        if self.macros.len() == 0 {
            return ReplayOutcome::NoMacro;
        }
        let recorded = copy_segments(&self.macros[self.macros.len() - 1].road_segments);
        if recorded.len() > MAX_SEGMENTS - self.road_segments.len() {
            return ReplayOutcome::Rejected;
        }
        let mut staged: Vec<Segment> = Vec::new();
        let mut i: usize = 0;
        while i < recorded.len()
            invariant
                i <= recorded.len(),
                staged@.len() == i,
                segments_wf(staged@),
                forall|j: int|
                    0 <= j < i ==> is_transform_of(
                        #[trigger] staged@[j],
                        recorded@[j],
                        pose.orientation,
                        pose.position@,
                    ),
                forall|j: int|
                    0 <= j < i ==> transform_is_wf(
                        #[trigger] recorded@[j],
                        pose.orientation,
                        pose.position@,
                    ),
            decreases recorded.len() - i,
        {
            let out = transform_segment(&recorded[i], &pose.orientation, pose.position);
            if !out.is_well_formed() {
                return ReplayOutcome::Rejected;
            }
            staged.push(out);
            i += 1;
        }
        let target = if staged.len() == 0 {
            None
        } else {
            let last = staged[staged.len() - 1];
            Some(
                EntityTarget {
                    position: last.b,
                    forward: last.b.minus(last.a).normalized(),
                    up: last.up,
                },
            )
        };
        let ghost before = self.road_segments@.len() as int;
        self.road_segments.append(&mut staged);
        proof {
            let road = self.road_segments@;
            assert(road.subrange(0, before) =~= old(self).road_segments@);
            assert forall|k: int| 0 <= k < road.len() implies (#[trigger] road[k]).wf() by {
                if k >= before {
                    assert(road[k] == road[before + (k - before)]);
                }
            }
        }
        ReplayOutcome::Replayed(target)
    }

    /// `after` is this network after [`RoadNetwork::reset`].
    pub open spec fn is_reset(&self, after: RoadNetwork) -> bool {
        &&& after.road_segments@.len() == 0
        &&& after.last_position == Some(Point3 { x: 0, y: 0, z: 0 })
        &&& after.macros == self.macros
    }

    /// Clears the road and puts the cursor at the origin. The macros stay.
    pub fn reset(&mut self)
        requires
            old(self).wf(),
        ensures
            final(self).wf(),
            old(self).is_reset(*final(self)),
    {
        self.road_segments.clear();
        self.last_position = Some(Point3::zero());
    }

    /// `after` is this network after [`RoadNetwork::record_macro`].
    pub open spec fn is_recorded(&self, after: RoadNetwork) -> bool {
        &&& after.last_position == self.last_position
        &&& after.road_segments == self.road_segments
        &&& after.macros@.len() == self.macros@.len() + 1
        &&& after.macros@.last().road_segments@ == self.road_segments@
        &&& after.macros@.drop_last() == self.macros@
    }

    /// Records the road as it is now as one more macro. The road stays.
    pub fn record_macro(&mut self)
        requires
            old(self).wf(),
        ensures
            final(self).wf(),
            old(self).is_recorded(*final(self)),
    {
        let recorded = Macro { road_segments: copy_segments(&self.road_segments) };
        self.macros.push(recorded);
        assert(self.macros@.drop_last() =~= old(self).macros@);
    }
}

} // verus!
