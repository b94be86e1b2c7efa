//! The projection of a vector on a direction, and what is left of the vector
//! without it.

use vstd::prelude::*;
use crate::fixed::{
    abs, lemma_product_bound, lemma_sum_square, lemma_trunc_div_of_multiple_bound, lemma_trunc_div_remainder,
    trunc_div,
};
use crate::vector::{lemma_norm_sq_sign, V3};

verus! {

/// The projection of `v` on the direction `d`: the vector `d * (v.d / d.d)`, each
/// component rounded toward zero. It is meaningful for `d` other than zero.
pub open spec fn projection(v: V3, d: V3) -> V3 {
    d.times(v.dot(d)).over(d.norm_sq())
}

/// What is left of `v` when its projection on `d` is taken away: the part of `v`
/// that is perpendicular to `d`.
pub open spec fn lateral_part(v: V3, d: V3) -> V3 {
    v.minus(projection(v, d))
}

/// `v` is perpendicular to `d` up to rounding: the square of their dot product is
/// below three times the square of the length of `d`, so that the part of `v`
/// along the unit vector of `d` is shorter than the square root of three steps.
pub open spec fn nearly_perpendicular(v: V3, d: V3) -> bool {
    v.dot(d) * v.dot(d) < 3 * d.norm_sq()
}

/// The magnitude of a product is at most the sum of the two squares and whatever
/// is not negative.
proof fn lemma_cross_term(x: int, y: int, rest: int)
    by (nonlinear_arith)
    requires
        rest >= 0,
    ensures
        -(x * x + y * y + rest) <= x * y <= x * x + y * y + rest,
{
    assert((x - y) * (x - y) >= 0);
    assert((x + y) * (x + y) >= 0);
    assert((x - y) * (x - y) == x * x + y * y - 2 * (x * y));
    assert((x + y) * (x + y) == x * x + y * y + 2 * (x * y));
}

/// The magnitude of the product of two components of `d` is at most the square of
/// the length of `d`.
proof fn lemma_component_products(d: V3)
    ensures
        -d.norm_sq() <= d.x * d.x <= d.norm_sq(),
        -d.norm_sq() <= d.y * d.y <= d.norm_sq(),
        -d.norm_sq() <= d.z * d.z <= d.norm_sq(),
        -d.norm_sq() <= d.x * d.y <= d.norm_sq(),
        -d.norm_sq() <= d.y * d.z <= d.norm_sq(),
        -d.norm_sq() <= d.x * d.z <= d.norm_sq(),
{
    lemma_norm_sq_sign(d);
    assert(d.x * d.x >= 0 && d.y * d.y >= 0 && d.z * d.z >= 0) by (nonlinear_arith);
    lemma_cross_term(d.x, d.y, d.z * d.z);
    lemma_cross_term(d.y, d.z, d.x * d.x);
    lemma_cross_term(d.x, d.z, d.y * d.y);
}

/// `c * (x1 * y1 + x2 * y2 + x3 * y3)` written out term by term.
proof fn lemma_distribute(c: int, x1: int, y1: int, x2: int, y2: int, x3: int, y3: int)
    by (nonlinear_arith)
    ensures
        c * (x1 * y1 + x2 * y2 + x3 * y3) == (c * y1) * x1 + (c * y2) * x2 + (c * y3) * x3,
{
    assert(c * (x1 * y1) == (c * y1) * x1);
    assert(c * (x2 * y2) == (c * y2) * x2);
    assert(c * (x3 * y3) == (c * y3) * x3);
    assert(c * (x1 * y1 + x2 * y2 + x3 * y3) == c * (x1 * y1) + c * (x2 * y2) + c * (x3 * y3));
}

/// A sum of three products, each of a factor of magnitude at most `l` and a factor
/// of magnitude at most `m`, divided by `l`, has magnitude at most `3 * m`.
proof fn lemma_three_terms_bound(t1: int, t2: int, t3: int, v: V3, l: int, m: int)
    requires
        l > 0,
        m >= 0,
        v.within(m),
        -l <= t1 <= l,
        -l <= t2 <= l,
        -l <= t3 <= l,
    ensures
        -3 * m <= trunc_div(t1 * v.x + t2 * v.y + t3 * v.z, l) <= 3 * m,
{
    lemma_product_bound(t1, v.x, l, m);
    lemma_product_bound(t2, v.y, l, m);
    lemma_product_bound(t3, v.z, l, m);
    assert(3 * (l * m) == (3 * m) * l) by (nonlinear_arith);
    lemma_trunc_div_of_multiple_bound(t1 * v.x + t2 * v.y + t3 * v.z, l, 3 * m);
}

/// No component of the projection of `v` on `d` exceeds three times the largest
/// component of `v`.
pub proof fn lemma_projection_bound(v: V3, d: V3, m: int)
    requires
        d != V3::zero(),
        m >= 0,
        v.within(m),
    ensures
        projection(v, d).within(3 * m),
{
    let l = d.norm_sq();
    lemma_norm_sq_sign(d);
    lemma_component_products(d);
    lemma_distribute(d.x, v.x, d.x, v.y, d.y, v.z, d.z);
    lemma_distribute(d.y, v.x, d.x, v.y, d.y, v.z, d.z);
    lemma_distribute(d.z, v.x, d.x, v.y, d.y, v.z, d.z);
    assert(d.y * d.x == d.x * d.y && d.z * d.x == d.x * d.z && d.z * d.y == d.y * d.z)
        by (nonlinear_arith);
    lemma_three_terms_bound(d.x * d.x, d.x * d.y, d.x * d.z, v, l, m);
    lemma_three_terms_bound(d.y * d.x, d.y * d.y, d.y * d.z, v, l, m);
    lemma_three_terms_bound(d.z * d.x, d.z * d.y, d.z * d.z, v, l, m);
}

/// What is left of `v` without its projection on `d` is perpendicular to `d`, up to
/// rounding: its dot product with `d` is smaller in magnitude than the sum of the
/// magnitudes of the components of `d`.
pub proof fn lemma_lateral_part_is_perpendicular(v: V3, d: V3)
    requires
        d != V3::zero(),
    ensures
        -(abs(d.x) + abs(d.y) + abs(d.z)) < lateral_part(v, d).dot(d) < abs(d.x) + abs(d.y) + abs(
            d.z,
        ),
        nearly_perpendicular(lateral_part(v, d), d),
{
    let l = d.norm_sq();
    let k = v.dot(d);
    lemma_norm_sq_sign(d);
    let q = projection(v, d);
    let f = lateral_part(v, d);
    let along = f.dot(d);
    let rx = d.x * k - q.x * l;
    let ry = d.y * k - q.y * l;
    let rz = d.z * k - q.z * l;
    lemma_trunc_div_remainder(d.x * k, l);
    lemma_trunc_div_remainder(d.y * k, l);
    lemma_trunc_div_remainder(d.z * k, l);
    // l * along == rx * d.x + ry * d.y + rz * d.z
    lemma_remainder_term(d.x, k, q.x, l, rx);
    lemma_remainder_term(d.y, k, q.y, l, ry);
    lemma_remainder_term(d.z, k, q.z, l, rz);
    lemma_distribute(l, d.x, q.x, d.y, q.y, d.z, q.z);
    let qd = d.x * q.x + d.y * q.y + d.z * q.z;
    assert(along == k - qd) by (nonlinear_arith)
        requires
            along == (v.x - q.x) * d.x + (v.y - q.y) * d.y + (v.z - q.z) * d.z,
            k == v.x * d.x + v.y * d.y + v.z * d.z,
            qd == d.x * q.x + d.y * q.y + d.z * q.z;
    assert(l * along == l * k - l * qd) by (nonlinear_arith)
        requires along == k - qd;
    assert(l * k == (d.x * d.x) * k + (d.y * d.y) * k + (d.z * d.z) * k) by (nonlinear_arith)
        requires l == d.x * d.x + d.y * d.y + d.z * d.z;
    assert(l * along == rx * d.x + ry * d.y + rz * d.z);
    let s = abs(d.x) + abs(d.y) + abs(d.z);
    lemma_product_bound(rx, d.x, l - 1, abs(d.x));
    lemma_product_bound(ry, d.y, l - 1, abs(d.y));
    lemma_product_bound(rz, d.z, l - 1, abs(d.z));
    assert((l - 1) * abs(d.x) + (l - 1) * abs(d.y) + (l - 1) * abs(d.z) == (l - 1) * s)
        by (nonlinear_arith)
        requires s == abs(d.x) + abs(d.y) + abs(d.z);
    assert(s >= 1);
    assert(-s < along < s) by (nonlinear_arith)
        requires -((l - 1) * s) <= l * along <= (l - 1) * s, l >= 1, s >= 1;
    assert(along * along < s * s) by (nonlinear_arith)
        requires -s < along < s;
    lemma_sum_square(abs(d.x), abs(d.y), abs(d.z));
    assert(abs(d.x) * abs(d.x) == d.x * d.x) by (nonlinear_arith);
    assert(abs(d.y) * abs(d.y) == d.y * d.y) by (nonlinear_arith);
    assert(abs(d.z) * abs(d.z) == d.z * d.z) by (nonlinear_arith);
}

/// From the remainder `r = c * k - q * l` of a division: `(l * q) * c` is
/// `(c * c) * k - r * c`.
proof fn lemma_remainder_term(c: int, k: int, q: int, l: int, r: int)
    by (nonlinear_arith)
    requires
        r == c * k - q * l,
    ensures
        (l * q) * c == (c * c) * k - r * c,
{
    assert((q * l) * c == (c * k - r) * c);
    assert((c * k - r) * c == (c * c) * k - r * c);
    assert((l * q) * c == (q * l) * c);
}

} // verus!
