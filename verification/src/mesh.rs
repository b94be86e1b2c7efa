//! The road as a ribbon of triangles.
//!
//! Every segment becomes one flat quad of two triangles. The near edge of the quad
//! is perpendicular to the segment itself, the far edge to the segment that follows,
//! so that consecutive quads share an edge direction and the ribbon has no gaps.

use vstd::prelude::*;
use crate::fixed::{lemma_product_bound, lemma_trunc_div_of_multiple_bound, UNIT};
use crate::direction::{lemma_cross_of_stretched, lemma_normalized_length, lemma_normalized_scale};
use crate::geometry::{face_normal, has_area, lemma_triangle_normal_is_unit, triangle_normal};
use crate::network::{segments_wf, RoadNetwork, Segment, MAX_SEGMENTS};
use crate::vector::{lemma_norm_sq_sign, Point3, V3};

verus! {

/// Half the width of the ribbon: one and a half world units.
pub const ROAD_HALF_WIDTH: i64 = 1500;

/// The direction to the right of a segment for one who travels along it with `up`
/// overhead.
pub open spec fn right_of(segment: Segment) -> V3 {
    segment.direction().cross(segment.up@).normalized()
}

/// The direction of the far edge of quad `i`: to the right of the next segment, or
/// of the segment itself where it is the last.
pub open spec fn far_right_of(segments: Seq<Segment>, i: int) -> V3 {
    if i + 1 < segments.len() {
        right_of(segments[i + 1])
    } else {
        right_of(segments[i])
    }
}

/// Corner `k` of quad `i`: near left, near right, far left, far right.
pub open spec fn quad_corner(segments: Seq<Segment>, i: int, k: int) -> V3 {
    let segment = segments[i];
    let near = right_of(segment);
    let far = far_right_of(segments, i);
    if k == 0 {
        segment.a@.plus(near.negated().scaled(ROAD_HALF_WIDTH as int))
    } else if k == 1 {
        segment.a@.plus(near.scaled(ROAD_HALF_WIDTH as int))
    } else if k == 2 {
        segment.b@.plus(far.negated().scaled(ROAD_HALF_WIDTH as int))
    } else {
        segment.b@.plus(far.scaled(ROAD_HALF_WIDTH as int))
    }
}

/// The normal of quad `i`: that of the triangle of its first three corners.
pub open spec fn quad_normal(segments: Seq<Segment>, i: int) -> V3 {
    triangle_normal(
        quad_corner(segments, i, 0),
        quad_corner(segments, i, 1),
        quad_corner(segments, i, 2),
    )
}

/// The corner of a quad at which vertex `k` of its two triangles lies: the
/// triangles are the corners 0, 1, 2 and 2, 1, 3.
pub open spec fn triangle_corner(k: int) -> int {
    if k == 0 {
        0
    } else if k == 1 || k == 4 {
        1
    } else if k == 2 || k == 3 {
        2
    } else {
        3
    }
}

/// How a mesh is drawn: its one flat colour, and which of its sides are seen.
#[derive(Clone, Copy, PartialEq, Eq, Structural, Debug)]
pub struct RoadMaterial {
    /// The red part of the colour, in thousandths.
    pub red: i64,
    /// The green part of the colour, in thousandths.
    pub green: i64,
    /// The blue part of the colour, in thousandths.
    pub blue: i64,
    /// Whether the faces are lit from both sides.
    pub double_sided: bool,
    /// Whether faces that look away from the viewer are left out.
    pub cull_back_faces: bool,
}

impl RoadMaterial {
    /// The material of the road: one flat colour, lit from both sides, and no face
    /// left out, so that the ribbon is seen from above and from below.
    pub open spec fn is_road_material(&self) -> bool {
        &&& self.red == 900
        &&& self.green == 500
        &&& self.blue == 300
        &&& self.double_sided
        &&& !self.cull_back_faces
    }

    /// The material of the road.
    pub fn road() -> (material: RoadMaterial)
        ensures
            material.is_road_material(),
    {
        RoadMaterial { red: 900, green: 500, blue: 300, double_sided: true, cull_back_faces: false }
    }
}

/// A triangle list: positions and normals vertex by vertex, three indices into them
/// for each triangle, and the material in which the triangles are drawn.
#[derive(Clone, Debug, PartialEq, Eq)]
pub struct RoadMesh {
    pub positions: Vec<Point3>,
    pub normals: Vec<Point3>,
    pub indices: Vec<u32>,
    pub material: RoadMaterial,
}

impl RoadMesh {
    /// The mesh is the ribbon of the first `count` of the segments: four vertices
    /// and six indices for each segment, in order, in the material of the road.
    pub open spec fn is_ribbon_prefix(&self, segments: Seq<Segment>, count: int) -> bool {
        &&& self.material.is_road_material()
        &&& self.positions@.len() == 4 * count
        &&& self.normals@.len() == 4 * count
        &&& self.indices@.len() == 6 * count
        &&& forall|j: int|
            0 <= j < 4 * count ==> (#[trigger] self.positions@[j])@ == quad_corner(
                segments,
                j / 4,
                j % 4,
            )
        &&& forall|j: int|
            0 <= j < 4 * count ==> (#[trigger] self.normals@[j])@ == quad_normal(segments, j / 4)
        &&& forall|j: int|
            0 <= j < 6 * count ==> (#[trigger] self.indices@[j]) == 4 * (j / 6) + triangle_corner(
                j % 6,
            )
    }

    /// The mesh is the ribbon of the segments.
    pub open spec fn is_ribbon_of(&self, segments: Seq<Segment>) -> bool {
        self.is_ribbon_prefix(segments, segments.len() as int)
    }
}

/// The direction to the right of a segment is one unit long, however long the
/// segment and its `up` are, unless `up` points along the segment or is zero.
pub proof fn lemma_right_of_is_unit(segment: Segment)
    requires
        segment.direction().cross(segment.up@) != V3::zero(),
    ensures
        right_of(segment).is_unit(),
{
    lemma_normalized_length(segment.direction().cross(segment.up@));
}

/// `scaled` is `segment` with its `up` stretched by `k`.
pub open spec fn is_up_scaled(scaled: Segment, segment: Segment, k: int) -> bool {
    &&& scaled.a == segment.a
    &&& scaled.b == segment.b
    &&& scaled.up@ == segment.up@.times(k)
}

/// Every segment of `scaled` is the segment of `segments` at the same place with
/// its `up` stretched by `k`.
pub open spec fn are_up_scaled(scaled: Seq<Segment>, segments: Seq<Segment>, k: int) -> bool {
    &&& scaled.len() == segments.len()
    &&& forall|i: int|
        0 <= i < segments.len() ==> is_up_scaled(#[trigger] scaled[i], segments[i], k)
}

/// The length of `up` does not matter to the direction to the right, up to
/// rounding: with `up` stretched by a positive factor the direction changes by at
/// most one step in each component.
pub proof fn lemma_right_of_up_scaled(scaled: Segment, segment: Segment, k: int)
    requires
        k > 0,
        is_up_scaled(scaled, segment, k),
    ensures
        right_of(scaled).minus(right_of(segment)).within(1),
{
    let d = segment.direction();
    let up = segment.up@;
    let c = d.cross(up);
    lemma_cross_of_stretched(d, up, k);
    if c == V3::zero() {
        assert(0 * k == 0);
        lemma_norm_sq_sign(c);
    } else {
        lemma_normalized_scale(c, k);
    }
}

/// The step from the centre line to the edge changes by at most two steps in each
/// component where the direction changes by at most one.
proof fn lemma_edge_offset_steady(n: V3, m: V3)
    requires
        n.minus(m).within(1),
    ensures
        n.scaled(ROAD_HALF_WIDTH as int).minus(m.scaled(ROAD_HALF_WIDTH as int)).within(2),
        n.negated().scaled(ROAD_HALF_WIDTH as int).minus(
            m.negated().scaled(ROAD_HALF_WIDTH as int),
        ).within(2),
{
}

/// The length of `up` does not matter to the ribbon, up to rounding: with every
/// `up` stretched by the same positive factor, every corner of every quad moves by
/// at most two steps in each component.
pub proof fn lemma_corners_of_up_scaled(
    scaled: Seq<Segment>,
    segments: Seq<Segment>,
    k: int,
    i: int,
    corner: int,
)
    requires
        k > 0,
        are_up_scaled(scaled, segments, k),
        0 <= i < segments.len(),
    ensures
        quad_corner(scaled, i, corner).minus(quad_corner(segments, i, corner)).within(2),
{
    lemma_right_of_up_scaled(scaled[i], segments[i], k);
    lemma_edge_offset_steady(right_of(scaled[i]), right_of(segments[i]));
    if i + 1 < segments.len() {
        lemma_right_of_up_scaled(scaled[i + 1], segments[i + 1], k);
    }
    lemma_edge_offset_steady(far_right_of(scaled, i), far_right_of(segments, i));
}

/// The normal of a quad with an area is one unit long.
pub proof fn lemma_quad_normal_is_unit(segments: Seq<Segment>, i: int)
    requires
        has_area(
            quad_corner(segments, i, 0),
            quad_corner(segments, i, 1),
            quad_corner(segments, i, 2),
        ),
    ensures
        quad_normal(segments, i).is_unit(),
{
    lemma_triangle_normal_is_unit(
        quad_corner(segments, i, 0),
        quad_corner(segments, i, 1),
        quad_corner(segments, i, 2),
    );
}

/// Where a segment starts at the end of the one before it, their quads meet: the
/// far edge of the first quad is the near edge of the second.
pub proof fn lemma_quads_share_an_edge(segments: Seq<Segment>, i: int)
    requires
        0 <= i,
        i + 1 < segments.len(),
        segments[i].b == segments[i + 1].a,
    ensures
        quad_corner(segments, i, 2) == quad_corner(segments, i + 1, 0),
        quad_corner(segments, i, 3) == quad_corner(segments, i + 1, 1),
{
}

/// The direction to the right of a segment.
fn segment_right(segment: &Segment) -> (right: Point3)
    requires
        segment.wf(),
    ensures
        right@ == right_of(*segment),
        right@.within(UNIT as int),
{
    segment.b.minus(segment.a).cross(segment.up).normalized()
}

/// The step from the centre line to the edge of the ribbon in the direction `dir`.
fn edge_offset(dir: Point3) -> (offset: Point3)
    requires
        dir@.within(UNIT as int),
    ensures
        offset@ == dir@.scaled(ROAD_HALF_WIDTH as int),
        offset@.within(ROAD_HALF_WIDTH as int),
{
    proof {
        lemma_product_bound(dir.x as int, 1500, 1000, 1500);
        lemma_product_bound(dir.y as int, 1500, 1000, 1500);
        lemma_product_bound(dir.z as int, 1500, 1000, 1500);
        lemma_trunc_div_of_multiple_bound(dir.x * 1500, 1000, 1500);
        lemma_trunc_div_of_multiple_bound(dir.y * 1500, 1000, 1500);
        lemma_trunc_div_of_multiple_bound(dir.z * 1500, 1000, 1500);
    }
    dir.scaled(ROAD_HALF_WIDTH)
}

/// Builds the ribbon of the road: for each segment a quad of half-width
/// [`ROAD_HALF_WIDTH`] around its centre line, flat shaded, in one colour and seen
/// from both sides.
pub fn build_road_network(road_network: &RoadNetwork) -> (mesh: RoadMesh)
    requires
        road_network.wf(),
    ensures
        mesh.is_ribbon_of(road_network.road_segments@),
        mesh.material.is_road_material(),
        mesh.positions@.len() == 4 * road_network.road_segments@.len(),
        mesh.normals@.len() == 4 * road_network.road_segments@.len(),
        mesh.indices@.len() == 6 * road_network.road_segments@.len(),
{
    let segments = &road_network.road_segments;
    let len: usize = segments.len();
    let mut mesh = RoadMesh {
        positions: Vec::new(),
        normals: Vec::new(),
        indices: Vec::new(),
        material: RoadMaterial::road(),
    };
    let mut index: usize = 0;
    while index < len
        invariant
            index <= len,
            len == segments@.len(),
            len <= MAX_SEGMENTS,
            segments_wf(segments@),
            mesh.is_ribbon_prefix(segments@, index as int),
        decreases len - index,
    {
        let segment = segments[index];
        let right = segment_right(&segment);
        let left = right.negated();
        let mut next_right = right;
        if index + 1 < len {
            next_right = segment_right(&segments[index + 1]);
        }
        let next_left = next_right.negated();

        let near_left = segment.a.plus(edge_offset(left));
        let near_right = segment.a.plus(edge_offset(right));
        let far_left = segment.b.plus(edge_offset(next_left));
        let far_right = segment.b.plus(edge_offset(next_right));
        let normal = face_normal(near_left, near_right, far_left);
        let base: u32 = (index as u32) * 4;

        let ghost before = mesh;
        mesh.positions.push(near_left);
        mesh.positions.push(near_right);
        mesh.positions.push(far_left);
        mesh.positions.push(far_right);
        mesh.normals.push(normal);
        mesh.normals.push(normal);
        mesh.normals.push(normal);
        mesh.normals.push(normal);
        mesh.indices.push(base);
        mesh.indices.push(base + 1);
        mesh.indices.push(base + 2);
        mesh.indices.push(base + 2);
        mesh.indices.push(base + 1);
        mesh.indices.push(base + 3);
        proof {
            let i = index as int;
            assert forall|j: int| 0 <= j < 4 * (i + 1) implies (#[trigger] mesh.positions@[j])@
                == quad_corner(segments@, j / 4, j % 4) by {
                if j < 4 * i {
                    assert(mesh.positions@[j] == before.positions@[j]);
                }
            }
            assert forall|j: int| 0 <= j < 4 * (i + 1) implies (#[trigger] mesh.normals@[j])@
                == quad_normal(segments@, j / 4) by {
                if j < 4 * i {
                    assert(mesh.normals@[j] == before.normals@[j]);
                }
            }
            assert forall|j: int| 0 <= j < 6 * (i + 1) implies (#[trigger] mesh.indices@[j]) == 4
                * (j / 6) + triangle_corner(j % 6) by {
                if j < 6 * i {
                    assert(mesh.indices@[j] == before.indices@[j]);
                }
            }
        }
        index += 1;
    }
    mesh
}

} // verus!
