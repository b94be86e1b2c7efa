//! Projection onto a segment and the normal of a triangle.

use vstd::prelude::*;
use crate::fixed::{
    divide, lemma_product_bound, lemma_trunc_div_exact, lemma_trunc_div_remainder, trunc_div,
    SPAN_MAX,
};
use crate::projection::{
    lateral_part, lemma_lateral_part_is_perpendicular, nearly_perpendicular, projection,
};
use crate::direction::{
    lemma_normalized_length, lemma_normalized_of_opposite, lemma_normalized_stays_perpendicular,
};
use crate::vector::{lemma_norm_sq_sign, point_is, Point3, V3};

verus! {

/// The foot of the perpendicular from `p` on the line through `a` and `b`, where it
/// falls between `a` and `b`; `None` where it falls before `a` or after `b`.
///
/// With `d = b - a`, the foot is `a + d * t` for `t = (p - a).d / d.d`; it is kept
/// for `0 <= t <= 1` and never moved to an end point.
pub open spec fn capped_projection(a: V3, b: V3, p: V3) -> Option<V3> {
    let d = b.minus(a);
    let along = p.minus(a).dot(d);
    if along < 0 || along > d.norm_sq() {
        None
    } else {
        Some(a.plus(projection(p.minus(a), d)))
    }
}

/// `q` lies in the box spanned by `a` and `b`: each of its components lies between
/// the same components of `a` and `b`.
pub open spec fn in_box(q: V3, a: V3, b: V3) -> bool {
    &&& a.x <= q.x <= b.x || b.x <= q.x <= a.x
    &&& a.y <= q.y <= b.y || b.y <= q.y <= a.y
    &&& a.z <= q.z <= b.z || b.z <= q.z <= a.z
}

/// The capped projection on a segment lies in the box spanned by its end points.
pub proof fn lemma_projection_in_box(a: V3, b: V3, p: V3)
    requires
        a != b,
    ensures
        capped_projection(a, b, p) matches Some(q) ==> in_box(q, a, b),
{
    let d = b.minus(a);
    let along = p.minus(a).dot(d);
    let len_sq = d.norm_sq();
    lemma_norm_sq_sign(d);
    if 0 <= along <= len_sq {
        lemma_fraction_of_component(d.x, along, len_sq);
        lemma_fraction_of_component(d.y, along, len_sq);
        lemma_fraction_of_component(d.z, along, len_sq);
    }
}

/// A quotient `c * t / l` with `0 <= t <= l` lies between zero and `c`.
proof fn lemma_fraction_of_component(c: int, t: int, l: int)
    requires
        0 <= t <= l,
        l > 0,
    ensures
        c >= 0 ==> 0 <= trunc_div(c * t, l) <= c,
        c <= 0 ==> c <= trunc_div(c * t, l) <= 0,
{
    let q = trunc_div(c * t, l);
    lemma_trunc_div_remainder(c * t, l);
    if c >= 0 {
        assert(0 <= c * t <= c * l) by (nonlinear_arith)
            requires c >= 0, 0 <= t <= l;
        assert(0 <= q <= c) by (nonlinear_arith)
            requires l > 0, 0 <= c * t <= c * l, 0 <= c * t - q * l < l;
    } else {
        assert(c * l <= c * t <= 0) by (nonlinear_arith)
            requires c <= 0, 0 <= t <= l;
        assert(c <= q <= 0) by (nonlinear_arith)
            requires l > 0, c * l <= c * t <= 0, -l < c * t - q * l <= 0;
    }
}

/// The squared length of a vector within [`SPAN_MAX`] is positive unless the vector
/// is zero, and is at most three times the square of [`SPAN_MAX`].
pub proof fn lemma_span_norm_sq(v: V3)
    requires
        v.within(SPAN_MAX as int),
    ensures
        0 <= v.norm_sq() <= 12_000_000_000_000_000_000,
        v != V3::zero() ==> v.norm_sq() > 0,
{
    lemma_product_bound(v.x, v.x, 2_000_000_000, 2_000_000_000);
    lemma_product_bound(v.y, v.y, 2_000_000_000, 2_000_000_000);
    lemma_product_bound(v.z, v.z, 2_000_000_000, 2_000_000_000);
    lemma_norm_sq_sign(v);
}

/// One coordinate of the foot of the perpendicular: `a + c * t / l`, where `c` is
/// the segment's extent along this axis.
fn foot_component(a: i64, b: i64, t: i128, l: i128) -> (r: i64)
    requires
        -SPAN_MAX <= b - a <= SPAN_MAX,
        0 <= t <= l,
        0 < l <= 12_000_000_000_000_000_000,
    ensures
        r == a + trunc_div((b - a) * t, l as int),
{
    let c: i128 = (b as i128) - (a as i128);
    proof {
        lemma_product_bound(c as int, t as int, 2_000_000_000, 12_000_000_000_000_000_000);
        lemma_fraction_of_component(c as int, t as int, l as int);
    }
    let q: i128 = divide(c * t, l);
    ((a as i128) + q) as i64
}

/// The closest point to `p` on the segment from `a` to `b`, or `None` if the
/// perpendicular from `p` meets the line through `a` and `b` outside the segment.
pub fn closest_point_on_segment_capped(a: Point3, b: Point3, p: Point3) -> (r: Option<Point3>)
    requires
        a@ != b@,
        b@.minus(a@).within(SPAN_MAX as int),
        p@.minus(a@).within(SPAN_MAX as int),
    ensures
        point_is(r, capped_projection(a@, b@, p@)),
        r matches Some(q) ==> in_box(q@, a@, b@),
{
    proof {
        lemma_projection_in_box(a@, b@, p@);
    }
    let d = b.minus(a);
    let v = p.minus(a);
    let along: i128 = v.dot(d);
    let len_sq_wide: u128 = d.norm_sq();
    proof {
        lemma_span_norm_sq(d@);
    }
    let len_sq: i128 = len_sq_wide as i128;
    if along < 0 || along > len_sq {
        None
    } else {
        let q = Point3 {
            x: foot_component(a.x, b.x, along, len_sq),
            y: foot_component(a.y, b.y, along, len_sq),
            z: foot_component(a.z, b.z, along, len_sq),
        };
        Some(q)
    }
}

/// The normal of the triangle `a`, `b`, `c`, by the right-hand rule: the
/// direction of `(b - a) x (c - a)`, one unit long. A triangle without area has the
/// zero vector for its normal.
pub open spec fn triangle_normal(a: V3, b: V3, c: V3) -> V3 {
    b.minus(a).cross(c.minus(a)).normalized()
}

/// The triangle has an area: its corners do not lie on one line.
pub open spec fn has_area(a: V3, b: V3, c: V3) -> bool {
    b.minus(a).cross(c.minus(a)) != V3::zero()
}

/// The normal of the triangle `a`, `b`, `c`; it depends on the winding order. For a
/// triangle with an area it is one unit long, whatever the size of the triangle.
pub fn face_normal(a: Point3, b: Point3, c: Point3) -> (n: Point3)
    requires
        b@.minus(a@).within(SPAN_MAX as int),
        c@.minus(a@).within(SPAN_MAX as int),
    ensures
        n@ == triangle_normal(a@, b@, c@),
        has_area(a@, b@, c@) ==> n@.is_unit(),
        !has_area(a@, b@, c@) ==> n@ == V3::zero(),
{
    b.minus(a).cross(c.minus(a)).normalized()
}

/// The normal of a triangle with an area is one unit long: its squared length is at
/// most the square of one unit and falls short of it by at most 3466.
pub proof fn lemma_triangle_normal_is_unit(a: V3, b: V3, c: V3)
    requires
        has_area(a, b, c),
    ensures
        triangle_normal(a, b, c).is_unit(),
{
    lemma_normalized_length(b.minus(a).cross(c.minus(a)));
}

/// The normal of a triangle with an area is perpendicular to the sides of the
/// triangle, up to rounding.
pub proof fn lemma_triangle_normal_is_perpendicular(a: V3, b: V3, c: V3)
    requires
        has_area(a, b, c),
    ensures
        nearly_perpendicular(triangle_normal(a, b, c), b.minus(a)),
        nearly_perpendicular(triangle_normal(a, b, c), c.minus(a)),
{
    let e = b.minus(a);
    let f = c.minus(a);
    lemma_cross_is_perpendicular(e, f);
    assert(e != V3::zero() && f != V3::zero()) by {
        if e == V3::zero() || f == V3::zero() {
            assert(e.cross(f) == V3::zero()) by (nonlinear_arith)
                requires
                    e == V3::zero() || f == V3::zero(),
                    e.cross(f) == (V3 {
                        x: e.y * f.z - e.z * f.y,
                        y: e.z * f.x - e.x * f.z,
                        z: e.x * f.y - e.y * f.x,
                    });
        }
    }
    lemma_normalized_stays_perpendicular(e.cross(f), e);
    lemma_normalized_stays_perpendicular(e.cross(f), f);
}

/// The cross product of two vectors is perpendicular to both.
pub proof fn lemma_cross_is_perpendicular(e: V3, f: V3)
    ensures
        e.cross(f).dot(e) == 0,
        e.cross(f).dot(f) == 0,
{
    lemma_triple_product(e.x, e.y, e.z, f.x, f.y, f.z);
}

/// The two scalar triple products with a repeated vector vanish.
proof fn lemma_triple_product(ex: int, ey: int, ez: int, fx: int, fy: int, fz: int)
    ensures
        (ey * fz - ez * fy) * ex + (ez * fx - ex * fz) * ey + (ex * fy - ey * fx) * ez == 0,
        (ey * fz - ez * fy) * fx + (ez * fx - ex * fz) * fy + (ex * fy - ey * fx) * fz == 0,
{
    lemma_difference_times(ey * fz, ez * fy, ex);
    lemma_difference_times(ez * fx, ex * fz, ey);
    lemma_difference_times(ex * fy, ey * fx, ez);
    lemma_outer_factors_swap(ey, fz, ex);
    lemma_outer_factors_swap(ez, fy, ex);
    lemma_outer_factors_swap(ez, fx, ey);
    lemma_difference_times(ey * fz, ez * fy, fx);
    lemma_difference_times(ez * fx, ex * fz, fy);
    lemma_difference_times(ex * fy, ey * fx, fz);
    lemma_last_factors_swap(ey, fz, fx);
    lemma_last_factors_swap(ez, fy, fx);
    lemma_last_factors_swap(ex, fz, fy);
}

/// `(a - b) * c` is `a * c - b * c`.
proof fn lemma_difference_times(a: int, b: int, c: int)
    by (nonlinear_arith)
    ensures
        (a - b) * c == a * c - b * c,
{
}

/// `(a * b) * c` is `(c * b) * a`.
proof fn lemma_outer_factors_swap(a: int, b: int, c: int)
    by (nonlinear_arith)
    ensures
        (a * b) * c == (c * b) * a,
{
}

/// `(a * b) * c` is `(a * c) * b`.
proof fn lemma_last_factors_swap(a: int, b: int, c: int)
    by (nonlinear_arith)
    ensures
        (a * b) * c == (a * c) * b,
{
}

/// The normal of a triangle turns over with the winding order.
pub proof fn lemma_triangle_normal_turns_over(a: V3, b: V3, c: V3)
    ensures
        triangle_normal(a, c, b) == triangle_normal(a, b, c).negated(),
{
    let e = b.minus(a);
    let f = c.minus(a);
    assert(f.cross(e) == e.cross(f).negated()) by (nonlinear_arith)
        requires
            f.cross(e) == (V3 {
                x: f.y * e.z - f.z * e.y,
                y: f.z * e.x - f.x * e.z,
                z: f.x * e.y - f.y * e.x,
            }),
            e.cross(f).negated() == (V3 {
                x: -(e.y * f.z - e.z * f.y),
                y: -(e.z * f.x - e.x * f.z),
                z: -(e.x * f.y - e.y * f.x),
            });
    lemma_normalized_of_opposite(e.cross(f));
}

/// A point of the segment is its own projection: for `p = a + (b - a) * num / den`
/// with `0 <= num / den <= 1`, the capped projection of `p` is `p`, exactly.
pub proof fn lemma_point_on_segment_is_its_projection(a: V3, b: V3, p: V3, num: int, den: int)
    requires
        a != b,
        den > 0,
        0 <= num <= den,
        p.minus(a).times(den) == b.minus(a).times(num),
    ensures
        capped_projection(a, b, p) == Some(p),
{
    let d = b.minus(a);
    let v = p.minus(a);
    let along = v.dot(d);
    let l = d.norm_sq();
    lemma_norm_sq_sign(d);
    lemma_parameter_of_point_on_line(d, v, num, den);
    assert(0 <= along <= l) by (nonlinear_arith)
        requires den * along == num * l, den > 0, 0 <= num <= den, l > 0;
    lemma_trunc_div_exact(v.x, l);
    lemma_trunc_div_exact(v.y, l);
    lemma_trunc_div_exact(v.z, l);
    assert(projection(v, d) == v);
    assert(a.plus(v) == p);
}

/// A point of the line through `a` and `b` that lies before `a` or after `b` has no
/// capped projection: for `p = a + (b - a) * num / den` with `num / den < 0` or
/// `num / den > 1`, the result is `None`.
pub proof fn lemma_point_beyond_segment_has_no_projection(
    a: V3,
    b: V3,
    p: V3,
    num: int,
    den: int,
)
    requires
        a != b,
        den > 0,
        num < 0 || num > den,
        p.minus(a).times(den) == b.minus(a).times(num),
    ensures
        capped_projection(a, b, p) is None,
{
    let d = b.minus(a);
    let v = p.minus(a);
    let along = v.dot(d);
    let l = d.norm_sq();
    lemma_norm_sq_sign(d);
    lemma_parameter_of_point_on_line(d, v, num, den);
    assert(along < 0 || along > l) by (nonlinear_arith)
        requires den * along == num * l, den > 0, num < 0 || num > den, l > 0;
}

/// For `v = d * num / den`: the dot product `v.d` is `d.d * num / den`, and every
/// component of `d` times `v.d` is the same component of `v` times `d.d`.
proof fn lemma_parameter_of_point_on_line(d: V3, v: V3, num: int, den: int)
    requires
        den > 0,
        v.times(den) == d.times(num),
    ensures
        den * v.dot(d) == num * d.norm_sq(),
        d.times(v.dot(d)) == v.times(d.norm_sq()),
{
    let along = v.dot(d);
    let l = d.norm_sq();
    assert(v.x * den == d.x * num);
    assert(v.y * den == d.y * num);
    assert(v.z * den == d.z * num);
    lemma_component_along(d.x, v.x, num, den);
    lemma_component_along(d.y, v.y, num, den);
    lemma_component_along(d.z, v.z, num, den);
    assert(den * along == den * (v.x * d.x) + den * (v.y * d.y) + den * (v.z * d.z))
        by (nonlinear_arith)
        requires along == v.x * d.x + v.y * d.y + v.z * d.z;
    assert(num * l == num * (d.x * d.x) + num * (d.y * d.y) + num * (d.z * d.z))
        by (nonlinear_arith)
        requires l == d.x * d.x + d.y * d.y + d.z * d.z;
    lemma_cancel(d.x, v.x, along, l, num, den);
    lemma_cancel(d.y, v.y, along, l, num, den);
    lemma_cancel(d.z, v.z, along, l, num, den);
}

/// From `v * den == d * num` follows `den * (v * d) == num * (d * d)`.
proof fn lemma_component_along(d: int, v: int, num: int, den: int)
    by (nonlinear_arith)
    requires
        v * den == d * num,
    ensures
        den * (v * d) == num * (d * d),
{
    assert(den * (v * d) == d * (v * den));
    assert(d * (d * num) == num * (d * d));
}

/// From `v * den == d * num` and `den * t == num * l` follows `d * t == v * l`.
proof fn lemma_cancel(d: int, v: int, t: int, l: int, num: int, den: int)
    by (nonlinear_arith)
    requires
        den > 0,
        v * den == d * num,
        den * t == num * l,
    ensures
        d * t == v * l,
{
    assert(den * (d * t) == d * (den * t));
    assert(d * (num * l) == (d * num) * l);
    assert((v * den) * l == den * (v * l));
    assert(den * (d * t) == den * (v * l));
}

/// The line from a point to its capped projection is perpendicular to the segment,
/// up to rounding.
pub proof fn lemma_projection_is_perpendicular(a: V3, b: V3, p: V3)
    requires
        a != b,
    ensures
        capped_projection(a, b, p) matches Some(q) ==> nearly_perpendicular(
            p.minus(q),
            b.minus(a),
        ),
{
    let d = b.minus(a);
    let v = p.minus(a);
    if capped_projection(a, b, p) is Some {
        let q = capped_projection(a, b, p)->0;
        assert(p.minus(q) == lateral_part(v, d));
        lemma_lateral_part_is_perpendicular(v, d);
    }
}

} // verus!
