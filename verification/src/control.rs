//! The control law and its arithmetic: a proportional correction with damping, and
//! the rotation error between two directions.

use vstd::prelude::*;
use crate::fixed::{
    divide, lemma_product_bound, lemma_trunc_div_of_multiple_bound, trunc_div, COORD_MAX, SPAN_MAX,
    UNIT, UNIT_SQ,
};
use crate::projection::{lateral_part, lemma_projection_bound};
use crate::vector::{lemma_norm_sq_sign, Point3, V3};

verus! {

/// Largest magnitude of a gain, a weight or a fraction: a thousand, in thousandths.
pub const GAIN_MAX: i64 = 1_000_000;

/// Largest magnitude of a gain that was scaled by a weight.
pub const WEIGHTED_GAIN_MAX: i64 = 1_000_000_000;

/// Largest magnitude of a component of what [`apply_control`] returns.
pub const CONTROL_MAX: i64 = 4_000_000_000_000_000;

/// The correction of a proportional controller with damping: the error `delta`
/// times the gain `p`, plus the rate of change `rate` times the gain `r`. The gains
/// are fixed-point numbers; `r` is usually negative.
pub open spec fn control(delta: V3, rate: V3, p: int, r: int) -> V3 {
    delta.times(p).plus(rate.times(r)).over(UNIT as int)
}

/// A gain scaled by the weight of a body.
pub open spec fn weighted(gain: int, weight: int) -> int {
    trunc_div(gain * weight, UNIT as int)
}

/// The rotation error between the direction `actual` of a body and the direction
/// of `target`: the negated cross product of the two unit vectors, taken at
/// `fraction` of its strength.
pub open spec fn alignment_error(target: V3, actual: V3, fraction: int) -> V3 {
    target.normalized().cross(actual).negated().times(fraction).over(UNIT_SQ as int)
}

/// The correction `(delta * p + rate * r)` of a proportional controller with
/// damping: `delta` is the error, `rate` its rate of change, `p` and `r` the gains.
pub fn apply_control(delta: Point3, rate: Point3, p: i64, r: i64) -> (correction: Point3)
    requires
        delta@.within(SPAN_MAX as int),
        rate@.within(SPAN_MAX as int),
        -WEIGHTED_GAIN_MAX <= p <= WEIGHTED_GAIN_MAX,
        -WEIGHTED_GAIN_MAX <= r <= WEIGHTED_GAIN_MAX,
    ensures
        correction@ == control(delta@, rate@, p as int, r as int),
        correction@.within(CONTROL_MAX as int),
{
    Point3 {
        x: control_component(delta.x, rate.x, p, r),
        y: control_component(delta.y, rate.y, p, r),
        z: control_component(delta.z, rate.z, p, r),
    }
}

/// One component of [`apply_control`].
fn control_component(delta: i64, rate: i64, p: i64, r: i64) -> (c: i64)
    requires
        -SPAN_MAX <= delta <= SPAN_MAX,
        -SPAN_MAX <= rate <= SPAN_MAX,
        -WEIGHTED_GAIN_MAX <= p <= WEIGHTED_GAIN_MAX,
        -WEIGHTED_GAIN_MAX <= r <= WEIGHTED_GAIN_MAX,
    ensures
        c == trunc_div(delta * p + rate * r, UNIT as int),
        -CONTROL_MAX <= c <= CONTROL_MAX,
{
    proof {
        lemma_product_bound(delta as int, p as int, 2_000_000_000, 1_000_000_000);
        lemma_product_bound(rate as int, r as int, 2_000_000_000, 1_000_000_000);
        lemma_trunc_div_of_multiple_bound(delta * p + rate * r, 1000, 4_000_000_000_000_000);
    }
    let sum: i64 = delta * p + rate * r;
    divide(sum as i128, UNIT as i128) as i64
}

/// A gain scaled by the weight of a body.
pub(crate) fn weighted_gain(gain: i64, weight: i64) -> (g: i64)
    requires
        -GAIN_MAX <= gain <= GAIN_MAX,
        -GAIN_MAX <= weight <= GAIN_MAX,
    ensures
        g == weighted(gain as int, weight as int),
        -WEIGHTED_GAIN_MAX <= g <= WEIGHTED_GAIN_MAX,
{
    proof {
        lemma_product_bound(gain as int, weight as int, 1_000_000, 1_000_000);
        lemma_trunc_div_of_multiple_bound(gain * weight, 1000, 1_000_000_000);
    }
    divide((gain * weight) as i128, UNIT as i128) as i64
}

/// The rotation error between the direction `actual` of a body and the direction
/// of `target`.
pub(crate) fn alignment(target: Point3, actual: Point3, fraction: i64) -> (error: Point3)
    requires
        actual@.within(UNIT as int),
        -GAIN_MAX <= fraction <= GAIN_MAX,
    ensures
        error@ == alignment_error(target@, actual@, fraction as int),
        error@.within(2 * GAIN_MAX),
{
    let unit = target.normalized();
    proof {
        lemma_product_bound(unit.y as int, actual.z as int, 1000, 1000);
        lemma_product_bound(unit.z as int, actual.y as int, 1000, 1000);
        lemma_product_bound(unit.z as int, actual.x as int, 1000, 1000);
        lemma_product_bound(unit.x as int, actual.z as int, 1000, 1000);
        lemma_product_bound(unit.x as int, actual.y as int, 1000, 1000);
        lemma_product_bound(unit.y as int, actual.x as int, 1000, 1000);
    }
    let twist = unit.cross(actual).negated();
    Point3 {
        x: alignment_component(twist.x, fraction),
        y: alignment_component(twist.y, fraction),
        z: alignment_component(twist.z, fraction),
    }
}

/// One component of [`alignment`].
fn alignment_component(twist: i64, fraction: i64) -> (c: i64)
    requires
        -2 * UNIT_SQ <= twist <= 2 * UNIT_SQ,
        -GAIN_MAX <= fraction <= GAIN_MAX,
    ensures
        c == trunc_div(twist * fraction, UNIT_SQ as int),
        -2 * GAIN_MAX <= c <= 2 * GAIN_MAX,
{
    proof {
        lemma_product_bound(twist as int, fraction as int, 2_000_000, 1_000_000);
        lemma_trunc_div_of_multiple_bound(twist * fraction, 1_000_000, 2_000_000);
    }
    divide((twist * fraction) as i128, UNIT_SQ as i128) as i64
}

/// The part of `v` that is perpendicular to `d`.
pub(crate) fn remove_projection(v: Point3, d: Point3) -> (rest: Point3)
    requires
        d@ != V3::zero(),
        d@.within(2 * COORD_MAX),
        v@.within(CONTROL_MAX as int),
    ensures
        rest@ == lateral_part(v@, d@),
        rest@.within(4 * CONTROL_MAX),
{
    let along: i128 = v.dot(d);
    let len_sq_wide: u128 = d.norm_sq();
    proof {
        lemma_norm_sq_sign(d@);
        lemma_product_bound(d.x as int, d.x as int, 200_000_000, 200_000_000);
        lemma_product_bound(d.y as int, d.y as int, 200_000_000, 200_000_000);
        lemma_product_bound(d.z as int, d.z as int, 200_000_000, 200_000_000);
        lemma_product_bound(v.x as int, d.x as int, 4_000_000_000_000_000, 200_000_000);
        lemma_product_bound(v.y as int, d.y as int, 4_000_000_000_000_000, 200_000_000);
        lemma_product_bound(v.z as int, d.z as int, 4_000_000_000_000_000, 200_000_000);
        lemma_projection_bound(v@, d@, 4_000_000_000_000_000);
    }
    let len_sq: i128 = len_sq_wide as i128;
    Point3 {
        x: lateral_component(v.x, d.x, along, len_sq),
        y: lateral_component(v.y, d.y, along, len_sq),
        z: lateral_component(v.z, d.z, along, len_sq),
    }
}

/// One component of [`remove_projection`].
fn lateral_component(v: i64, d: i64, along: i128, len_sq: i128) -> (c: i64)
    requires
        -CONTROL_MAX <= v <= CONTROL_MAX,
        -2 * COORD_MAX <= d <= 2 * COORD_MAX,
        -2_400_000_000_000_000_000_000_000 <= along <= 2_400_000_000_000_000_000_000_000,
        len_sq > 0,
        -3 * CONTROL_MAX <= trunc_div(d * along, len_sq as int) <= 3 * CONTROL_MAX,
    ensures
        c == v - trunc_div(d * along, len_sq as int),
{
    proof {
        lemma_product_bound(
            d as int,
            along as int,
            200_000_000,
            2_400_000_000_000_000_000_000_000,
        );
    }
    let q: i128 = divide((d as i128) * along, len_sq);
    ((v as i128) - q) as i64
}

} // verus!
