//! How exact a normalized vector is: its length, its components, and what becomes
//! of it when the vector is stretched.

use vstd::prelude::*;
use crate::fixed::{
    abs, is_floor_sqrt, lemma_floor_sqrt_dominates, lemma_floor_sqrt_exists,
    lemma_product_bound, lemma_sum_square, lemma_trunc_div_remainder, trunc_div, UNIT, UNIT_SQ,
};
use crate::projection::nearly_perpendicular;
use crate::vector::{lemma_norm_sq_sign, root_scale, scaled_length, unit_scale, V3};

verus! {

/// `q` is the component `c * UNIT / sqrt(n)` of a unit vector, cut to a whole
/// number of steps: it has the sign of `c` and lies within one step of the exact
/// value. `c` is a component of a vector and `n` the square of the vector's length.
pub open spec fn is_unit_component(q: int, c: int, n: int) -> bool {
    &&& c >= 0 ==> q >= 0
    &&& c <= 0 ==> q <= 0
    &&& (abs(q) + 1) * (abs(q) + 1) * n > c * c * UNIT_SQ
    &&& abs(q) >= 1 ==> (abs(q) - 1) * (abs(q) - 1) * n < c * c * UNIT_SQ
}

/// The magnitude of a quotient: `|q| * r <= |w| < (|q| + 1) * r`, and the quotient
/// has the sign of the numerator.
proof fn lemma_quotient_magnitude(w: int, r: int)
    requires
        r > 0,
    ensures
        abs(trunc_div(w, r)) * r <= abs(w) < (abs(trunc_div(w, r)) + 1) * r,
        w >= 0 ==> trunc_div(w, r) >= 0,
        w <= 0 ==> trunc_div(w, r) <= 0,
{
    lemma_trunc_div_remainder(w, r);
    let q = trunc_div(w, r);
    if w >= 0 {
        assert(q >= 0) by (nonlinear_arith)
            requires r > 0, 0 <= w - q * r < r, w >= 0;
        assert((q + 1) * r == q * r + r) by (nonlinear_arith);
    } else {
        assert(q <= 0) by (nonlinear_arith)
            requires r > 0, -r < w - q * r <= 0, w < 0;
        assert((-q) * r == -(q * r)) by (nonlinear_arith);
        assert((-q + 1) * r == -(q * r) + r) by (nonlinear_arith);
    }
}

/// Squaring keeps the order of numbers that are not negative.
proof fn lemma_square_order(a: int, b: int)
    by (nonlinear_arith)
    requires
        0 <= a,
    ensures
        a <= b ==> a * a <= b * b,
        a < b ==> a * a < b * b,
{
}

/// The order of two squares is that of their roots.
proof fn lemma_root_order(a: int, b: int)
    by (nonlinear_arith)
    requires
        0 <= a,
        0 <= b,
        a * a < b * b,
    ensures
        a < b,
{
}

/// A common positive factor can be taken out of a strict inequality.
proof fn lemma_cancel_factor(x: int, y: int, f: int)
    by (nonlinear_arith)
    requires
        f > 0,
        x * f < y * f,
    ensures
        x < y,
{
}

/// The squares `qq` of a quotient's magnitude, `qq1` of that plus one and `qq0` of
/// that minus one, against the square `aa` of the component, where the divisor `r`
/// is the floor of the root of `n * kk` and the numerator is `a * 1000 * k`.
proof fn lemma_component_squares(
    q: int,
    a: int,
    n: int,
    k: int,
    r: int,
)
    requires
        0 <= q <= 1000,
        0 <= a,
        k >= 1,
        r >= 1000,
        r * r <= n * (k * k) < (r + 1) * (r + 1),
        q * r <= a * (1000 * k) < (q + 1) * r,
    ensures
        (q * q) * (r * r) <= (a * a) * 1_000_000 * (k * k),
        (a * a) * 1_000_000 * (k * k) < ((q + 1) * (q + 1)) * (r * r),
        (q + 1) * (q + 1) * n > a * a * 1_000_000,
        q >= 1 ==> (q - 1) * (q - 1) * n < a * a * 1_000_000,
{
    let w = a * (1000 * k);
    let kk = k * k;
    assert(kk >= 1) by (nonlinear_arith)
        requires k >= 1, kk == k * k;
    assert(w * w == (a * a) * 1_000_000 * kk) by (nonlinear_arith)
        requires w == a * (1000 * k), kk == k * k;
    assert(w >= 0) by (nonlinear_arith)
        requires w == a * (1000 * k), a >= 0, k >= 1;
    assert(q * r >= 0) by (nonlinear_arith)
        requires q >= 0, r >= 0;
    lemma_square_order(q * r, w);
    lemma_square_order(w, (q + 1) * r);
    assert((q * r) * (q * r) == (q * q) * (r * r)) by (nonlinear_arith);
    assert(((q + 1) * r) * ((q + 1) * r) == ((q + 1) * (q + 1)) * (r * r)) by (nonlinear_arith);
    // upper: (q + 1)^2 * n * kk >= (q + 1)^2 * r^2 > w^2
    let x1 = (q + 1) * (q + 1);
    assert(x1 * (n * kk) >= x1 * (r * r)) by (nonlinear_arith)
        requires x1 >= 0, n * kk >= r * r;
    assert(x1 >= 0) by (nonlinear_arith)
        requires x1 == (q + 1) * (q + 1);
    assert(x1 * (n * kk) == (x1 * n) * kk) by (nonlinear_arith);
    assert((a * a) * 1_000_000 * kk == (a * a * 1_000_000) * kk) by (nonlinear_arith);
    lemma_cancel_factor(a * a * 1_000_000, x1 * n, kk);
    if q >= 1 {
        // lower: (q - 1)^2 * n * kk < ((q - 1) * (r + 1))^2 <= (q * r)^2 <= w^2
        let x0 = (q - 1) * (q - 1);
        assert((q - 1) * (r + 1) <= q * r) by (nonlinear_arith)
            requires q <= 1000, r >= 1000;
        assert((q - 1) * (r + 1) >= 0) by (nonlinear_arith)
            requires q >= 1, r >= 0;
        lemma_square_order((q - 1) * (r + 1), q * r);
        assert(((q - 1) * (r + 1)) * ((q - 1) * (r + 1)) == x0 * ((r + 1) * (r + 1)))
            by (nonlinear_arith)
            requires x0 == (q - 1) * (q - 1);
        assert(x0 >= 0) by (nonlinear_arith)
            requires x0 == (q - 1) * (q - 1);
        assert(w * w >= r * r) by (nonlinear_arith)
            requires w >= q * r, q >= 1, r >= 0;
        assert(x0 * (n * kk) < w * w) by (nonlinear_arith)
            requires
                x0 >= 0,
                n * kk < (r + 1) * (r + 1),
                x0 * ((r + 1) * (r + 1)) <= w * w,
                w * w >= r * r,
                r >= 1000,
                n * kk >= r * r,
        {
            if x0 == 0 {
                assert(x0 * (n * kk) == 0);
            } else {
                assert(x0 * (n * kk) < x0 * ((r + 1) * (r + 1)));
            }
        }
        assert(x0 * (n * kk) == (x0 * n) * kk) by (nonlinear_arith);
        lemma_cancel_factor(x0 * n, a * a * 1_000_000, kk);
    }
}

/// The root that a non-zero vector is divided by: it is the floor of the root of
/// the squared length times the square of [`root_scale`], and it is at least two to
/// the 32.
pub proof fn lemma_scaled_length(n: int)
    requires
        n >= 1,
    ensures
        root_scale(n) >= 1,
        unit_scale(n) == 1000 * root_scale(n),
        is_floor_sqrt(n * (root_scale(n) * root_scale(n)), scaled_length(n)),
        scaled_length(n) >= 0x1_0000_0000,
{
    let k = root_scale(n);
    assert(0x1_0000_0000 * 0x1_0000_0000 == 0x1_0000_0000_0000_0000) by (nonlinear_arith);
    let radicand = if n < 0x1_0000_0000_0000_0000 {
        n * 0x1_0000_0000_0000_0000
    } else {
        n
    };
    assert(n * (k * k) == radicand) by (nonlinear_arith)
        requires
            k == 0x1_0000_0000 && radicand == n * 0x1_0000_0000_0000_0000 || k == 1 && radicand
                == n,
    {
        assert(0x1_0000_0000 * 0x1_0000_0000 == 0x1_0000_0000_0000_0000);
    }
    lemma_floor_sqrt_exists(radicand);
    lemma_floor_sqrt_dominates(radicand, scaled_length(n), 0x1_0000_0000);
}

/// One component of a normalized vector: `c` is the component of the vector and
/// `n` the square of the vector's length.
proof fn lemma_normalized_component(c: int, n: int)
    requires
        n >= 1,
        c * c <= n,
    ensures
        ({
            let q = trunc_div(c * unit_scale(n), scaled_length(n));
            let r = scaled_length(n);
            let kk = root_scale(n) * root_scale(n);
            &&& -1000 <= q <= 1000
            &&& is_unit_component(q, c, n)
            &&& (q * q) * (r * r) <= (c * c) * 1_000_000 * kk
            &&& (c * c) * 1_000_000 * kk < ((abs(q) + 1) * (abs(q) + 1)) * (r * r)
        }),
{
    let k = root_scale(n);
    let r = scaled_length(n);
    let s = unit_scale(n);
    lemma_scaled_length(n);
    let a = abs(c);
    let w = c * s;
    let q = trunc_div(w, r);
    let big = abs(q);
    assert(a * a == c * c) by (nonlinear_arith)
        requires a == c || a == -c;
    assert(big * big == q * q) by (nonlinear_arith)
        requires big == q || big == -q;
    assert(abs(w) == a * (1000 * k)) by (nonlinear_arith)
        requires w == c * s, s == 1000 * k, k >= 1, a == abs(c);
    // a * k <= r
    assert((a * k) * (a * k) <= n * (k * k)) by (nonlinear_arith)
        requires a * a <= n, k >= 1;
    assert(a * k >= 0) by (nonlinear_arith)
        requires a >= 0, k >= 1;
    lemma_floor_sqrt_dominates(n * (k * k), r, a * k);
    lemma_quotient_magnitude(w, r);
    assert(big <= 1000) by (nonlinear_arith)
        requires big * r <= a * (1000 * k), a * k <= r, r > 0, big >= 0;
    lemma_component_squares(big, a, n, k, r);
}

/// No component of a normalized vector exceeds [`UNIT`] in magnitude.
pub proof fn lemma_normalized_within_unit(v: V3)
    ensures
        v.normalized().within(UNIT as int),
{
    lemma_norm_sq_sign(v);
    if v.norm_sq() != 0 {
        lemma_normalized_component(v.x, v.norm_sq());
        lemma_normalized_component(v.y, v.norm_sq());
        lemma_normalized_component(v.z, v.norm_sq());
    }
}

/// Every component of a normalized vector is that of the exact unit vector, cut to
/// whole steps.
pub proof fn lemma_normalized_components(v: V3)
    requires
        v != V3::zero(),
    ensures
        is_unit_component(v.normalized().x, v.x, v.norm_sq()),
        is_unit_component(v.normalized().y, v.y, v.norm_sq()),
        is_unit_component(v.normalized().z, v.z, v.norm_sq()),
{
    lemma_norm_sq_sign(v);
    lemma_normalized_component(v.x, v.norm_sq());
    lemma_normalized_component(v.y, v.norm_sq());
    lemma_normalized_component(v.z, v.norm_sq());
}

/// A normalized vector is one unit long: whatever the length of the vector it was
/// made from, its squared length is at most [`UNIT_SQ`] and falls short of it by at
/// most 3466, so that its length lies between 998.2 and 1000 steps.
pub proof fn lemma_normalized_length(v: V3)
    requires
        v != V3::zero(),
    ensures
        v.normalized().is_unit(),
{
    let n = v.norm_sq();
    lemma_norm_sq_sign(v);
    lemma_scaled_length(n);
    let r = scaled_length(n);
    let kk = root_scale(n) * root_scale(n);
    let u = v.normalized();
    lemma_normalized_component(v.x, n);
    lemma_normalized_component(v.y, n);
    lemma_normalized_component(v.z, n);
    let len = u.norm_sq();
    lemma_norm_sq_sign(u);
    let rr = r * r;
    let radicand = n * kk;
    // rr * len <= 1_000_000 * radicand < 1_000_000 * (r + 1)^2
    assert(rr * len <= 1_000_000 * radicand) by (nonlinear_arith)
        requires
            (u.x * u.x) * rr <= (v.x * v.x) * 1_000_000 * kk,
            (u.y * u.y) * rr <= (v.y * v.y) * 1_000_000 * kk,
            (u.z * u.z) * rr <= (v.z * v.z) * 1_000_000 * kk,
            len == u.x * u.x + u.y * u.y + u.z * u.z,
            n == v.x * v.x + v.y * v.y + v.z * v.z,
            radicand == n * kk,
    {
        assert(rr * len == (u.x * u.x) * rr + (u.y * u.y) * rr + (u.z * u.z) * rr);
        assert(1_000_000 * (n * kk) == (v.x * v.x) * 1_000_000 * kk + (v.y * v.y) * 1_000_000
            * kk + (v.z * v.z) * 1_000_000 * kk);
    }
    assert(len <= 1_000_000) by (nonlinear_arith)
        requires
            rr * len <= 1_000_000 * radicand,
            radicand < (r + 1) * (r + 1),
            rr == r * r,
            r >= 0x1_0000_0000,
            len >= 0,
    {
        if len >= 1_000_001 {
            assert(rr * len >= rr * 1_000_001);
            assert(1_000_000 * (r + 1) * (r + 1) == 1_000_000 * rr + 2_000_000 * r + 1_000_000);
            assert(rr >= 0x1_0000_0000 * r);
        }
    }
    // the squares of the magnitudes plus one add up to more than a million
    let ax = abs(u.x);
    let ay = abs(u.y);
    let az = abs(u.z);
    let above = (ax + 1) * (ax + 1) + (ay + 1) * (ay + 1) + (az + 1) * (az + 1);
    assert(above * rr > 1_000_000 * radicand) by (nonlinear_arith)
        requires
            (v.x * v.x) * 1_000_000 * kk < ((ax + 1) * (ax + 1)) * rr,
            (v.y * v.y) * 1_000_000 * kk < ((ay + 1) * (ay + 1)) * rr,
            (v.z * v.z) * 1_000_000 * kk < ((az + 1) * (az + 1)) * rr,
            above == (ax + 1) * (ax + 1) + (ay + 1) * (ay + 1) + (az + 1) * (az + 1),
            n == v.x * v.x + v.y * v.y + v.z * v.z,
            radicand == n * kk,
    {
        assert(above * rr == ((ax + 1) * (ax + 1)) * rr + ((ay + 1) * (ay + 1)) * rr + ((az + 1)
            * (az + 1)) * rr);
        assert(1_000_000 * (n * kk) == (v.x * v.x) * 1_000_000 * kk + (v.y * v.y) * 1_000_000
            * kk + (v.z * v.z) * 1_000_000 * kk);
    }
    assert(above > 1_000_000) by (nonlinear_arith)
        requires above * rr > 1_000_000 * radicand, radicand >= rr, rr == r * r, r >= 1;
    // the magnitudes add up to at most 1732
    lemma_sum_square(ax, ay, az);
    assert(ax * ax == u.x * u.x && ay * ay == u.y * u.y && az * az == u.z * u.z)
        by (nonlinear_arith)
        requires
            ax == u.x || ax == -u.x,
            ay == u.y || ay == -u.y,
            az == u.z || az == -u.z;
    let sum = ax + ay + az;
    assert(sum <= 1732) by (nonlinear_arith)
        requires sum * sum <= 3_000_000, sum >= 0;
    assert(above == len + 2 * sum + 3) by (nonlinear_arith)
        requires
            above == (ax + 1) * (ax + 1) + (ay + 1) * (ay + 1) + (az + 1) * (az + 1),
            len == ax * ax + ay * ay + az * az,
            sum == ax + ay + az;
}

/// Two whole numbers that are both the same component of the same unit vector
/// differ by at most one step.
pub proof fn lemma_unit_components_agree(q1: int, q2: int, c: int, n: int)
    requires
        n > 0,
        is_unit_component(q1, c, n),
        is_unit_component(q2, c, n),
    ensures
        -1 <= q1 - q2 <= 1,
{
    lemma_magnitudes_agree(abs(q1), abs(q2), c * c * UNIT_SQ, n);
    lemma_magnitudes_agree(abs(q2), abs(q1), c * c * UNIT_SQ, n);
}

/// From `(a - 1)^2 * n < y < (b + 1)^2 * n` follows `a <= b + 1`.
proof fn lemma_magnitudes_agree(a: int, b: int, y: int, n: int)
    requires
        n > 0,
        a >= 0,
        b >= 0,
        a >= 1 ==> (a - 1) * (a - 1) * n < y,
        y < (b + 1) * (b + 1) * n,
    ensures
        a <= b + 1,
{
    if a >= 1 {
        lemma_cancel_factor((a - 1) * (a - 1), (b + 1) * (b + 1), n);
        lemma_root_order(a - 1, b + 1);
    }
}

/// The components of a unit vector do not depend on the length of the vector: what
/// is a component for `c * k` in a vector of squared length `n * k * k` is one for
/// `c` in a vector of squared length `n`.
pub proof fn lemma_unit_component_scale(q: int, c: int, n: int, k: int)
    requires
        k > 0,
        is_unit_component(q, c * k, n * (k * k)),
    ensures
        is_unit_component(q, c, n),
{
    let kk = k * k;
    let big = abs(q);
    assert(kk > 0) by (nonlinear_arith)
        requires k > 0, kk == k * k;
    assert(c >= 0 ==> c * k >= 0) by (nonlinear_arith)
        requires k > 0;
    assert(c <= 0 ==> c * k <= 0) by (nonlinear_arith)
        requires k > 0;
    assert((c * k) * (c * k) * UNIT_SQ == (c * c * UNIT_SQ) * kk) by (nonlinear_arith)
        requires kk == k * k;
    assert((big + 1) * (big + 1) * (n * kk) == ((big + 1) * (big + 1) * n) * kk)
        by (nonlinear_arith);
    lemma_cancel_factor(c * c * UNIT_SQ, (big + 1) * (big + 1) * n, kk);
    if big >= 1 {
        assert((big - 1) * (big - 1) * (n * kk) == ((big - 1) * (big - 1) * n) * kk)
            by (nonlinear_arith);
        lemma_cancel_factor((big - 1) * (big - 1) * n, c * c * UNIT_SQ, kk);
    }
}

/// The square of a product is the product of the squares.
proof fn lemma_square_of_product(c: int, k: int)
    by (nonlinear_arith)
    ensures
        (c * k) * (c * k) == (c * c) * (k * k),
{
}

/// The direction of a vector does not depend on its length, up to rounding: a
/// vector and the same vector `k` times as long normalize to vectors that differ by
/// at most one step in each component.
pub proof fn lemma_normalized_scale(v: V3, k: int)
    requires
        v != V3::zero(),
        k > 0,
    ensures
        v.times(k).normalized().minus(v.normalized()).within(1),
{
    let n = v.norm_sq();
    let long = v.times(k);
    lemma_norm_sq_sign(v);
    lemma_norm_sq_sign(long);
    let kk = k * k;
    lemma_square_of_product(v.x, k);
    lemma_square_of_product(v.y, k);
    lemma_square_of_product(v.z, k);
    assert(n * kk == (v.x * v.x) * kk + (v.y * v.y) * kk + (v.z * v.z) * kk)
        by (nonlinear_arith)
        requires n == v.x * v.x + v.y * v.y + v.z * v.z;
    assert(long.norm_sq() == n * (k * k));
    assert(n * (k * k) > 0) by (nonlinear_arith)
        requires n > 0, k > 0;
    lemma_normalized_components(v);
    lemma_normalized_components(long);
    lemma_unit_component_scale(long.normalized().x, v.x, n, k);
    lemma_unit_component_scale(long.normalized().y, v.y, n, k);
    lemma_unit_component_scale(long.normalized().z, v.z, n, k);
    lemma_unit_components_agree(long.normalized().x, v.normalized().x, v.x, n);
    lemma_unit_components_agree(long.normalized().y, v.normalized().y, v.y, n);
    lemma_unit_components_agree(long.normalized().z, v.normalized().z, v.z, n);
}

/// The opposite vector has the opposite direction, exactly.
pub proof fn lemma_normalized_of_opposite(v: V3)
    ensures
        v.negated().normalized() == v.normalized().negated(),
{
    let n = v.norm_sq();
    let w = v.negated();
    assert(w.norm_sq() == n) by (nonlinear_arith)
        requires
            w.norm_sq() == (-v.x) * (-v.x) + (-v.y) * (-v.y) + (-v.z) * (-v.z),
            n == v.x * v.x + v.y * v.y + v.z * v.z;
    lemma_norm_sq_sign(v);
    if n != 0 {
        let s = unit_scale(n);
        let r = scaled_length(n);
        lemma_scaled_length(n);
        lemma_quotient_of_opposite(v.x * s, r);
        lemma_quotient_of_opposite(v.y * s, r);
        lemma_quotient_of_opposite(v.z * s, r);
        assert((-v.x) * s == -(v.x * s) && (-v.y) * s == -(v.y * s) && (-v.z) * s == -(v.z * s))
            by (nonlinear_arith);
    }
}

/// Cutting toward zero treats a number and its opposite alike.
proof fn lemma_quotient_of_opposite(w: int, r: int)
    requires
        r > 0,
    ensures
        trunc_div(-w, r) == -trunc_div(w, r),
{
    if w == 0 {
        assert(0int / r == 0) by (nonlinear_arith)
            requires r > 0;
    }
}

/// The cross product with a stretched vector is the stretched cross product.
pub proof fn lemma_cross_of_stretched(d: V3, v: V3, k: int)
    ensures
        d.cross(v.times(k)) == d.cross(v).times(k),
{
    lemma_stretched_difference(d.y, v.z, d.z, v.y, k);
    lemma_stretched_difference(d.z, v.x, d.x, v.z, k);
    lemma_stretched_difference(d.x, v.y, d.y, v.x, k);
}

/// `a * (b * k) - c * (d * k)` is `(a * b - c * d) * k`.
proof fn lemma_stretched_difference(a: int, b: int, c: int, d: int, k: int)
    by (nonlinear_arith)
    ensures
        a * (b * k) - c * (d * k) == (a * b - c * d) * k,
{
    assert(a * (b * k) == (a * b) * k);
    assert(c * (d * k) == (c * d) * k);
}

/// Normalizing keeps a vector perpendicular to what it was perpendicular to, up to
/// rounding: where `v` is exactly perpendicular to `e`, the normalized `v` is
/// nearly so.
pub proof fn lemma_normalized_stays_perpendicular(v: V3, e: V3)
    requires
        v.dot(e) == 0,
        e != V3::zero(),
    ensures
        nearly_perpendicular(v.normalized(), e),
{
    let n = v.norm_sq();
    let u = v.normalized();
    let along = u.dot(e);
    let sum = abs(e.x) + abs(e.y) + abs(e.z);
    lemma_norm_sq_sign(v);
    lemma_norm_sq_sign(e);
    lemma_sum_square(abs(e.x), abs(e.y), abs(e.z));
    assert(abs(e.x) * abs(e.x) == e.x * e.x && abs(e.y) * abs(e.y) == e.y * e.y && abs(e.z) * abs(
        e.z,
    ) == e.z * e.z) by (nonlinear_arith);
    assert(sum >= 1);
    if n == 0 {
        assert(along == 0) by (nonlinear_arith)
            requires along == 0 * e.x + 0 * e.y + 0 * e.z;
        assert(along * along == 0);
    } else {
        let s = unit_scale(n);
        let r = scaled_length(n);
        lemma_scaled_length(n);
        let rx = v.x * s - u.x * r;
        let ry = v.y * s - u.y * r;
        let rz = v.z * s - u.z * r;
        lemma_trunc_div_remainder(v.x * s, r);
        lemma_trunc_div_remainder(v.y * s, r);
        lemma_trunc_div_remainder(v.z * s, r);
        lemma_rounded_term(v.x, s, u.x, r, rx, e.x);
        lemma_rounded_term(v.y, s, u.y, r, ry, e.y);
        lemma_rounded_term(v.z, s, u.z, r, rz, e.z);
        lemma_factor_into_sum(r, u.x * e.x, u.y * e.y, u.z * e.z);
        lemma_factor_into_product(r, u.x, e.x);
        lemma_factor_into_product(r, u.y, e.y);
        lemma_factor_into_product(r, u.z, e.z);
        lemma_factor_into_sum(s, v.x * e.x, v.y * e.y, v.z * e.z);
        assert(s * 0 == 0);
        assert(r * along == -(rx * e.x + ry * e.y + rz * e.z));
        lemma_product_bound(rx, e.x, r - 1, abs(e.x));
        lemma_product_bound(ry, e.y, r - 1, abs(e.y));
        lemma_product_bound(rz, e.z, r - 1, abs(e.z));
        assert((r - 1) * abs(e.x) + (r - 1) * abs(e.y) + (r - 1) * abs(e.z) == (r - 1) * sum)
            by (nonlinear_arith)
            requires sum == abs(e.x) + abs(e.y) + abs(e.z);
        assert(-sum < along < sum) by (nonlinear_arith)
            requires -((r - 1) * sum) <= r * along <= (r - 1) * sum, r >= 1, sum >= 1;
        assert(along * along < sum * sum) by (nonlinear_arith)
            requires -sum < along < sum;
    }
}

/// `f * (a + b + c)` is `f * a + f * b + f * c`.
proof fn lemma_factor_into_sum(f: int, a: int, b: int, c: int)
    by (nonlinear_arith)
    ensures
        f * (a + b + c) == f * a + f * b + f * c,
{
}

/// `f * (a * b)` is `(a * f) * b`.
proof fn lemma_factor_into_product(f: int, a: int, b: int)
    by (nonlinear_arith)
    ensures
        f * (a * b) == (a * f) * b,
{
}

/// From the remainder `rem = c * s - q * r` of a division: `(q * r) * e` is
/// `s * (c * e) - rem * e`.
proof fn lemma_rounded_term(c: int, s: int, q: int, r: int, rem: int, e: int)
    by (nonlinear_arith)
    requires
        rem == c * s - q * r,
    ensures
        (q * r) * e == s * (c * e) - rem * e,
{
    assert((q * r) * e == (c * s - rem) * e);
    assert((c * s) * e == s * (c * e));
}

} // verus!
