//! The nearest point of the road: a search through every segment, in order.
//!
//! The search is linear on purpose. Its answer depends on the order of the
//! segments: of several segments at the same distance the first one is found.

use vstd::prelude::*;
use crate::fixed::COORD_MAX;
use crate::geometry::{capped_projection, closest_point_on_segment_capped};
use crate::network::{segments_wf, RoadNetwork, Segment};
use crate::vector::{Point3, V3};

verus! {

/// `p` lifted by `height` along the world's y axis.
pub open spec fn lifted(p: V3, height: int) -> V3 {
    V3 { x: p.x, y: p.y + height, z: p.z }
}

/// The point of the lifted segment that is nearest to `position`, if the
/// perpendicular from `position` meets the segment.
pub open spec fn candidate_of(segment: Segment, position: V3, height: int) -> Option<V3> {
    capped_projection(lifted(segment.a@, height), lifted(segment.b@, height), position)
}

/// The square of the distance from `position` to the candidate of `segment`.
pub open spec fn gap_sq(segment: Segment, position: V3, height: int) -> int {
    candidate_of(segment, position, height).unwrap().minus(position).norm_sq()
}

/// Segment `i` has the nearest candidate: none before it is as near, and none after
/// it is nearer.
pub open spec fn is_nearest(segments: Seq<Segment>, position: V3, height: int, i: int) -> bool {
    &&& 0 <= i < segments.len()
    &&& candidate_of(segments[i], position, height) is Some
    &&& forall|j: int|
        0 <= j < segments.len() && candidate_of(#[trigger] segments[j], position, height)
            is Some ==> if j < i {
            gap_sq(segments[j], position, height) > gap_sq(segments[i], position, height)
        } else {
            gap_sq(segments[j], position, height) >= gap_sq(segments[i], position, height)
        }
}

/// No segment has a candidate.
pub open spec fn no_candidate(segments: Seq<Segment>, position: V3, height: int) -> bool {
    forall|j: int|
        0 <= j < segments.len() ==> candidate_of(#[trigger] segments[j], position, height)
            is None
}

/// The nearest point of the road to a position.
#[derive(Clone, Copy, PartialEq, Eq, Structural, Debug)]
pub struct NearestPoint {
    /// The place of the segment in the road.
    pub index: usize,
    /// The point of the lifted segment that is nearest to the position.
    pub point: Point3,
    /// The square of the distance from the position to that point.
    pub distance_sq: u128,
}

/// `p` lifted by `height` along the world's y axis.
fn lift(p: Point3, height: i64) -> (r: Point3)
    requires
        p@.within(COORD_MAX as int),
        -COORD_MAX <= height <= COORD_MAX,
    ensures
        r@ == lifted(p@, height as int),
        r@.within(2 * COORD_MAX),
{
    Point3 { x: p.x, y: p.y + height, z: p.z }
}

/// `found` describes the nearest candidate among `segments`; `None` stands for no
/// candidate at all.
pub open spec fn is_search_result(
    found: Option<NearestPoint>,
    segments: Seq<Segment>,
    position: V3,
    height: int,
) -> bool {
    match found {
        Some(nearest) => {
            &&& is_nearest(segments, position, height, nearest.index as int)
            &&& candidate_of(segments[nearest.index as int], position, height) == Some(
                nearest.point@,
            )
            &&& nearest.distance_sq == gap_sq(segments[nearest.index as int], position, height)
        },
        None => no_candidate(segments, position, height),
    }
}

/// One step of the search: `found` is the result for the segments seen so far, and
/// `next` is the result for those and one segment more, if it takes the new
/// segment where the new segment has a candidate that is nearer than the one found,
/// and else stays as it is.
proof fn lemma_search_step(
    found: Option<NearestPoint>,
    next: Option<NearestPoint>,
    seen: Seq<Segment>,
    segment: Segment,
    position: V3,
    height: int,
)
    requires
        is_search_result(found, seen, position, height),
        match candidate_of(segment, position, height) {
            Some(point) => if found is None || gap_sq(segment, position, height)
                < found->0.distance_sq {
                &&& next matches Some(nearest)
                &&& nearest.index == seen.len()
                &&& nearest.point@ == point
                &&& nearest.distance_sq == gap_sq(segment, position, height)
            } else {
                next == found
            },
            None => next == found,
        },
    ensures
        is_search_result(next, seen.push(segment), position, height),
{
    let grown = seen.push(segment);
    assert forall|j: int| 0 <= j < seen.len() implies #[trigger] grown[j] == seen[j] by {}
    assert(grown[seen.len() as int] == segment);
    match next {
        Some(nearest) => {
            let k = nearest.index as int;
            assert forall|j: int|
                0 <= j < grown.len() && candidate_of(#[trigger] grown[j], position, height)
                    is Some implies if j < k {
                gap_sq(grown[j], position, height) > gap_sq(grown[k], position, height)
            } else {
                gap_sq(grown[j], position, height) >= gap_sq(grown[k], position, height)
            } by {
                if j < seen.len() {
                    assert(candidate_of(seen[j], position, height) is Some);
                }
            }
        },
        None => {
            assert forall|j: int| 0 <= j < grown.len() implies candidate_of(
                #[trigger] grown[j],
                position,
                height,
            ) is None by {
                if j < seen.len() {
                    assert(candidate_of(seen[j], position, height) is None);
                }
            }
        },
    }
}

/// Finds the segment whose lifted centre line comes nearest to `position`, by
/// looking at every segment in order. Of several segments at the same distance the
/// first is found. `None` means that the perpendicular from `position` meets no
/// segment.
pub fn nearest_segment(road_network: &RoadNetwork, position: Point3, float_height: i64) -> (found:
    Option<NearestPoint>)
    requires
        road_network.wf(),
        position@.within(COORD_MAX as int),
        -COORD_MAX <= float_height <= COORD_MAX,
    ensures
        is_search_result(found, road_network.road_segments@, position@, float_height as int),
        found matches Some(nearest) ==> nearest.point@.within(2 * COORD_MAX),
{
    let segments = &road_network.road_segments;
    let mut best: Option<NearestPoint> = None;
    let mut index: usize = 0;
    while index < segments.len()
        invariant
            index <= segments.len(),
            segments_wf(segments@),
            position@.within(COORD_MAX as int),
            -COORD_MAX <= float_height <= COORD_MAX,
            is_search_result(best, segments@.take(index as int), position@, float_height as int),
            best matches Some(nearest) ==> nearest.point@.within(2 * COORD_MAX),
        decreases segments.len() - index,
    {
        let segment = segments[index];
        let start = lift(segment.a, float_height);
        let end = lift(segment.b, float_height);
        let ghost before = best;
        if let Some(point) = closest_point_on_segment_capped(start, end, position) {
            let distance_sq = point.minus(position).norm_sq();
            let nearer = match best {
                Some(nearest) => distance_sq < nearest.distance_sq,
                None => true,
            };
            if nearer {
                best = Some(NearestPoint { index, point, distance_sq });
            }
        }
        proof {
            lemma_search_step(
                before,
                best,
                segments@.take(index as int),
                segment,
                position@,
                float_height as int,
            );
            assert(segments@.take(index + 1) =~= segments@.take(index as int).push(segment));
        }
        index += 1;
    }
    assert(segments@.take(index as int) =~= segments@);
    best
}

/// At most one segment has the nearest candidate.
pub proof fn lemma_nearest_is_unique(
    segments: Seq<Segment>,
    position: V3,
    height: int,
    i: int,
    j: int,
)
    requires
        is_nearest(segments, position, height, i),
        is_nearest(segments, position, height, j),
    ensures
        i == j,
{
    if i < j {
        assert(candidate_of(segments[i], position, height) is Some);
        assert(candidate_of(segments[j], position, height) is Some);
    } else if j < i {
        assert(candidate_of(segments[i], position, height) is Some);
        assert(candidate_of(segments[j], position, height) is Some);
    }
}

/// Of two segments at the same distance the one that comes first in the road wins:
/// the later one is never the nearest.
pub proof fn lemma_tie_goes_to_lower_index(
    segments: Seq<Segment>,
    position: V3,
    height: int,
    i: int,
    j: int,
)
    requires
        0 <= i < j < segments.len(),
        candidate_of(segments[i], position, height) is Some,
        candidate_of(segments[j], position, height) is Some,
        gap_sq(segments[i], position, height) == gap_sq(segments[j], position, height),
    ensures
        !is_nearest(segments, position, height, j),
{
}

} // verus!
