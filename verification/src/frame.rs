//! The frame of a body: where it is and how it is turned.

use vstd::prelude::*;
use crate::fixed::{
    divide, lemma_product_bound, lemma_trunc_div_exact, lemma_trunc_div_of_multiple_bound,
    trunc_div, COORD_MAX, SPAN_MAX, UNIT,
};
use crate::vector::{Point3, V3};

verus! {

/// A rotation, given by the images of the three coordinate axes: the body's own
/// x, y and z axes in world coordinates, each of length [`UNIT`].
#[derive(Clone, Copy, PartialEq, Eq, Structural, Debug)]
pub struct Orientation {
    pub x_axis: Point3,
    pub y_axis: Point3,
    pub z_axis: Point3,
}

impl Orientation {
    /// No component of an axis exceeds [`UNIT`] in magnitude.
    pub open spec fn wf(&self) -> bool {
        &&& self.x_axis@.within(UNIT as int)
        &&& self.y_axis@.within(UNIT as int)
        &&& self.z_axis@.within(UNIT as int)
    }

    /// The image of `v`: the axes weighted by the components of `v`.
    pub open spec fn rotated(&self, v: V3) -> V3 {
        self.x_axis@.times(v.x).plus(self.y_axis@.times(v.y)).plus(self.z_axis@.times(v.z)).over(
            UNIT as int,
        )
    }

    /// The direction in which the body looks: its negative z axis.
    pub open spec fn forward_dir(&self) -> V3 {
        self.z_axis@.negated()
    }

    /// The direction of the body's top: its y axis.
    pub open spec fn up_dir(&self) -> V3 {
        self.y_axis@
    }

    /// The axes of the body are those of the world.
    pub open spec fn is_identity(&self) -> bool {
        &&& self.x_axis@ == V3 { x: UNIT as int, y: 0, z: 0 }
        &&& self.y_axis@ == V3 { x: 0, y: UNIT as int, z: 0 }
        &&& self.z_axis@ == V3 { x: 0, y: 0, z: UNIT as int }
    }

    /// The rotation that turns nothing.
    pub fn identity() -> (o: Orientation)
        ensures
            o.wf(),
            o.is_identity(),
    {
        Orientation {
            x_axis: Point3 { x: UNIT, y: 0, z: 0 },
            y_axis: Point3 { x: 0, y: UNIT, z: 0 },
            z_axis: Point3 { x: 0, y: 0, z: UNIT },
        }
    }

    /// Whether the orientation is well formed.
    pub fn is_well_formed(&self) -> (ok: bool)
        ensures
            ok == self.wf(),
    {
        self.x_axis.in_bounds(UNIT) && self.y_axis.in_bounds(UNIT) && self.z_axis.in_bounds(UNIT)
    }

    /// The direction in which the body looks.
    pub fn forward(&self) -> (f: Point3)
        requires
            self.wf(),
        ensures
            f@ == self.forward_dir(),
            f@.within(UNIT as int),
    {
        self.z_axis.negated()
    }

    /// The direction of the body's top.
    pub fn up(&self) -> (u: Point3)
        ensures
            u@ == self.up_dir(),
    {
        self.y_axis
    }

    /// The image of `v` under the rotation.
    pub fn rotate(&self, v: Point3) -> (r: Point3)
        requires
            self.wf(),
            v@.within(SPAN_MAX as int),
        ensures
            r@ == self.rotated(v@),
            r@.within(3 * SPAN_MAX),
            v@.within(COORD_MAX as int) ==> r@.within(3 * COORD_MAX),
    {
        let x = rotate_component(self.x_axis.x, self.y_axis.x, self.z_axis.x, v);
        let y = rotate_component(self.x_axis.y, self.y_axis.y, self.z_axis.y, v);
        let z = rotate_component(self.x_axis.z, self.y_axis.z, self.z_axis.z, v);
        Point3 { x, y, z }
    }
}

/// One component of a rotated vector: the row `(ex, ey, ez)` applied to `v`.
fn rotate_component(ex: i64, ey: i64, ez: i64, v: Point3) -> (r: i64)
    requires
        -UNIT <= ex <= UNIT,
        -UNIT <= ey <= UNIT,
        -UNIT <= ez <= UNIT,
        v@.within(SPAN_MAX as int),
    ensures
        r == trunc_div(ex * v.x + ey * v.y + ez * v.z, UNIT as int),
        -3 * SPAN_MAX <= r <= 3 * SPAN_MAX,
        v@.within(COORD_MAX as int) ==> -3 * COORD_MAX <= r <= 3 * COORD_MAX,
{
    proof {
        lemma_product_bound(ex as int, v.x as int, 1000, 2_000_000_000);
        lemma_product_bound(ey as int, v.y as int, 1000, 2_000_000_000);
        lemma_product_bound(ez as int, v.z as int, 1000, 2_000_000_000);
    }
    let sum: i64 = ex * v.x + ey * v.y + ez * v.z;
    let q: i128 = divide(sum as i128, UNIT as i128);
    proof {
        lemma_trunc_div_of_multiple_bound(sum as int, 1000, 6_000_000_000);
        if v@.within(COORD_MAX as int) {
            lemma_product_bound(ex as int, v.x as int, 1000, 100_000_000);
            lemma_product_bound(ey as int, v.y as int, 1000, 100_000_000);
            lemma_product_bound(ez as int, v.z as int, 1000, 100_000_000);
            lemma_trunc_div_of_multiple_bound(sum as int, 1000, 300_000_000);
        }
    }
    q as i64
}

/// The identity rotation leaves every vector as it is.
pub proof fn lemma_identity_rotation(o: Orientation, v: V3)
    requires
        o.is_identity(),
    ensures
        o.rotated(v) == v,
{
    lemma_trunc_div_exact(v.x, 1000);
    lemma_trunc_div_exact(v.y, 1000);
    lemma_trunc_div_exact(v.z, 1000);
    assert(1000 * v.x + 0 * v.y + 0 * v.z == v.x * 1000);
    assert(0 * v.x + 1000 * v.y + 0 * v.z == v.y * 1000);
    assert(0 * v.x + 0 * v.y + 1000 * v.z == v.z * 1000);
}

/// Where a body is and how it is turned.
#[derive(Clone, Copy, PartialEq, Eq, Structural, Debug)]
pub struct Pose {
    pub position: Point3,
    pub orientation: Orientation,
}

impl Pose {
    /// The position is within [`COORD_MAX`] and the orientation is well formed.
    pub open spec fn wf(&self) -> bool {
        &&& self.position@.within(COORD_MAX as int)
        &&& self.orientation.wf()
    }

    /// Whether the pose is well formed.
    pub fn is_well_formed(&self) -> (ok: bool)
        ensures
            ok == self.wf(),
    {
        self.position.in_bounds(COORD_MAX) && self.orientation.is_well_formed()
    }
}

} // verus!
