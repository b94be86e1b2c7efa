//! Vectors of three fixed-point components.
//!
//! [`V3`] is the mathematical vector, with unbounded integer components; contracts
//! are stated over it. [`Point3`] is the machine vector, and `p@` is the `V3` it
//! stands for.

use vstd::prelude::*;
use crate::direction::{
    lemma_normalized_length, lemma_normalized_within_unit, lemma_scaled_length,
};
use crate::fixed::{
    divide, floor_sqrt, integer_sqrt, lemma_product_bound, trunc_div, SPAN_MAX, UNIT, UNIT_SQ,
    WIDE_MAX,
};

verus! {

/// A vector of three unbounded integers: the model of a [`Point3`].
pub struct V3 {
    pub x: int,
    pub y: int,
    pub z: int,
}

impl V3 {
    /// The zero vector.
    pub open spec fn zero() -> V3 {
        V3 { x: 0, y: 0, z: 0 }
    }

    /// The sum of two vectors.
    pub open spec fn plus(self, o: V3) -> V3 {
        V3 { x: self.x + o.x, y: self.y + o.y, z: self.z + o.z }
    }

    /// The difference of two vectors.
    pub open spec fn minus(self, o: V3) -> V3 {
        V3 { x: self.x - o.x, y: self.y - o.y, z: self.z - o.z }
    }

    /// The opposite vector.
    pub open spec fn negated(self) -> V3 {
        V3 { x: -self.x, y: -self.y, z: -self.z }
    }

    /// Every component multiplied by the integer `k`.
    pub open spec fn times(self, k: int) -> V3 {
        V3 { x: self.x * k, y: self.y * k, z: self.z * k }
    }

    /// Every component divided by `d`, rounded toward zero.
    pub open spec fn over(self, d: int) -> V3 {
        V3 { x: trunc_div(self.x, d), y: trunc_div(self.y, d), z: trunc_div(self.z, d) }
    }

    /// The vector multiplied by the fixed-point scalar `k`.
    pub open spec fn scaled(self, k: int) -> V3 {
        self.times(k).over(UNIT as int)
    }

    /// The dot product.
    pub open spec fn dot(self, o: V3) -> int {
        self.x * o.x + self.y * o.y + self.z * o.z
    }

    /// The cross product, by the right-hand rule.
    pub open spec fn cross(self, o: V3) -> V3 {
        V3 {
            x: self.y * o.z - self.z * o.y,
            y: self.z * o.x - self.x * o.z,
            z: self.x * o.y - self.y * o.x,
        }
    }

    /// The square of the Euclidean length.
    pub open spec fn norm_sq(self) -> int {
        self.dot(self)
    }

    /// No component exceeds `m` in magnitude.
    pub open spec fn within(self, m: int) -> bool {
        &&& -m <= self.x <= m
        &&& -m <= self.y <= m
        &&& -m <= self.z <= m
    }

    /// Every component is an `i64`.
    pub open spec fn representable(self) -> bool {
        &&& i64::MIN <= self.x <= i64::MAX
        &&& i64::MIN <= self.y <= i64::MAX
        &&& i64::MIN <= self.z <= i64::MAX
    }

    /// The direction of the vector as a vector of one [`UNIT`] length: every
    /// component has the sign of the vector's and lies within one step of the
    /// component of the exact unit vector. The zero vector has no direction and
    /// stays zero.
    ///
    /// The root of the squared length is taken at a precision of at least 32 bits:
    /// for a short vector the length is stretched by [`root_scale`] first, so that
    /// the floor of the root loses nothing that matters.
    pub open spec fn normalized(self) -> V3 {
        let n = self.norm_sq();
        if n == 0 {
            V3::zero()
        } else {
            self.times(unit_scale(n)).over(scaled_length(n))
        }
    }

    /// The vector is one [`UNIT`] long, or shorter by less than two steps: its
    /// squared length is at most [`UNIT_SQ`] and at least that less
    /// [`UNIT_SQ_SLACK`].
    pub open spec fn is_unit(self) -> bool {
        UNIT_SQ - UNIT_SQ_SLACK <= self.norm_sq() <= UNIT_SQ
    }
}

/// How far the squared length of a normalized vector may stay below [`UNIT_SQ`]:
/// what three components lose when each is cut by less than one step.
pub const UNIT_SQ_SLACK: i64 = 3_466;

/// The factor by which the length of a vector is stretched before the floor of its
/// root is taken, given the square `n` of the length: two to the 32 for a length
/// below two to the 32, and one for a longer one.
pub open spec fn root_scale(n: int) -> int {
    if n < 0x1_0000_0000_0000_0000 {
        0x1_0000_0000
    } else {
        1
    }
}

/// [`UNIT`] times [`root_scale`].
pub open spec fn unit_scale(n: int) -> int {
    if n < 0x1_0000_0000_0000_0000 {
        4_294_967_296_000
    } else {
        1_000
    }
}

/// The floor of the length times [`root_scale`], given the square `n` of the
/// length.
pub open spec fn scaled_length(n: int) -> int {
    if n < 0x1_0000_0000_0000_0000 {
        floor_sqrt(n * 0x1_0000_0000_0000_0000)
    } else {
        floor_sqrt(n)
    }
}

/// The square of the length is never negative, and zero only for the zero vector.
pub proof fn lemma_norm_sq_sign(v: V3)
    by (nonlinear_arith)
    ensures
        v.norm_sq() >= 0,
        v.x * v.x <= v.norm_sq(),
        v.y * v.y <= v.norm_sq(),
        v.z * v.z <= v.norm_sq(),
        v.norm_sq() == 0 <==> v == V3::zero(),
{
}

/// A point or a vector in space, component by component in thousandths of a world
/// unit.
#[derive(Clone, Copy, PartialEq, Eq, Structural, Debug)]
pub struct Point3 {
    pub x: i64,
    pub y: i64,
    pub z: i64,
}

impl View for Point3 {
    type V = V3;

    open spec fn view(&self) -> V3 {
        V3 { x: self.x as int, y: self.y as int, z: self.z as int }
    }
}

impl Point3 {
    /// The point with the given coordinates, in thousandths.
    pub fn new(x: i64, y: i64, z: i64) -> (p: Point3)
        ensures
            p.x == x,
            p.y == y,
            p.z == z,
    {
        Point3 { x, y, z }
    }

    /// The origin.
    pub fn zero() -> (p: Point3)
        ensures
            p@ == V3::zero(),
    {
        Point3 { x: 0, y: 0, z: 0 }
    }

    /// Whether no component exceeds `limit` in magnitude.
    pub fn in_bounds(&self, limit: i64) -> (b: bool)
        ensures
            b == self@.within(limit as int),
    {
        let m: i128 = limit as i128;
        let x: i128 = self.x as i128;
        let y: i128 = self.y as i128;
        let z: i128 = self.z as i128;
        -m <= x && x <= m && -m <= y && y <= m && -m <= z && z <= m
    }

    /// The sum of two vectors.
    pub fn plus(self, o: Point3) -> (r: Point3)
        requires
            self@.plus(o@).representable(),
        ensures
            r@ == self@.plus(o@),
    {
        Point3 { x: self.x + o.x, y: self.y + o.y, z: self.z + o.z }
    }

    /// The difference of two vectors.
    pub fn minus(self, o: Point3) -> (r: Point3)
        requires
            self@.minus(o@).representable(),
        ensures
            r@ == self@.minus(o@),
    {
        Point3 { x: self.x - o.x, y: self.y - o.y, z: self.z - o.z }
    }

    /// The opposite vector.
    pub fn negated(self) -> (r: Point3)
        requires
            self@.negated().representable(),
        ensures
            r@ == self@.negated(),
    {
        Point3 { x: -self.x, y: -self.y, z: -self.z }
    }

    /// The vector multiplied by the fixed-point scalar `k`.
    pub fn scaled(self, k: i64) -> (r: Point3)
        requires
            self@.scaled(k as int).representable(),
        ensures
            r@ == self@.scaled(k as int),
    {
        Point3 {
            x: scale_component(self.x, k),
            y: scale_component(self.y, k),
            z: scale_component(self.z, k),
        }
    }

    /// The dot product.
    pub fn dot(self, o: Point3) -> (r: i128)
        requires
            self@.within(WIDE_MAX as int),
            o@.within(WIDE_MAX as int),
        ensures
            r == self@.dot(o@),
    {
        let ghost m: int = WIDE_MAX as int;
        proof {
            lemma_product_bound(self.x as int, o.x as int, m, m);
            lemma_product_bound(self.y as int, o.y as int, m, m);
            lemma_product_bound(self.z as int, o.z as int, m, m);
            assert(m * m == 0x3fff_ffff_ffff_ffff * 0x3fff_ffff_ffff_ffff);
        }
        (self.x as i128) * (o.x as i128) + (self.y as i128) * (o.y as i128) + (self.z as i128) * (
        o.z as i128)
    }

    /// The cross product, by the right-hand rule.
    pub fn cross(self, o: Point3) -> (r: Point3)
        requires
            self@.within(SPAN_MAX as int),
            o@.within(SPAN_MAX as int),
        ensures
            r@ == self@.cross(o@),
    {
        let ghost m: int = SPAN_MAX as int;
        proof {
            lemma_product_bound(self.y as int, o.z as int, m, m);
            lemma_product_bound(self.z as int, o.y as int, m, m);
            lemma_product_bound(self.z as int, o.x as int, m, m);
            lemma_product_bound(self.x as int, o.z as int, m, m);
            lemma_product_bound(self.x as int, o.y as int, m, m);
            lemma_product_bound(self.y as int, o.x as int, m, m);
            assert(m * m == 2_000_000_000 * 2_000_000_000);
        }
        Point3 {
            x: self.y * o.z - self.z * o.y,
            y: self.z * o.x - self.x * o.z,
            z: self.x * o.y - self.y * o.x,
        }
    }

    /// The square of the Euclidean length.
    pub fn norm_sq(self) -> (r: u128)
        ensures
            r == self@.norm_sq(),
    {
        let ghost m: int = 0x8000_0000_0000_0000;
        proof {
            lemma_product_bound(self.x as int, self.x as int, m, m);
            lemma_product_bound(self.y as int, self.y as int, m, m);
            lemma_product_bound(self.z as int, self.z as int, m, m);
            assert(m * m == 0x8000_0000_0000_0000 * 0x8000_0000_0000_0000);
            lemma_norm_sq_sign(self@);
            assert(self.x * self.x >= 0) by (nonlinear_arith);
            assert(self.y * self.y >= 0) by (nonlinear_arith);
            assert(self.z * self.z >= 0) by (nonlinear_arith);
        }
        let xx: i128 = (self.x as i128) * (self.x as i128);
        let yy: i128 = (self.y as i128) * (self.y as i128);
        let zz: i128 = (self.z as i128) * (self.z as i128);
        (xx as u128) + (yy as u128) + (zz as u128)
    }

    /// The direction of the vector as a vector of one [`UNIT`] length; the zero
    /// vector stays zero.
    pub fn normalized(self) -> (r: Point3)
        ensures
            r@ == self@.normalized(),
            r@.within(UNIT as int),
            self@ != V3::zero() ==> r@.is_unit(),
            self@ == V3::zero() ==> r@ == V3::zero(),
    {
        let n: u128 = self.norm_sq();
        proof {
            lemma_norm_sq_sign(self@);
            lemma_normalized_within_unit(self@);
            if self@ != V3::zero() {
                lemma_normalized_length(self@);
                lemma_scaled_length(n as int);
            }
        }
        if n == 0 {
            Point3 { x: 0, y: 0, z: 0 }
        } else if n < 0x1_0000_0000_0000_0000 {
            let len: u64 = integer_sqrt(n * 0x1_0000_0000_0000_0000);
            Point3 {
                x: short_component(self.x, len),
                y: short_component(self.y, len),
                z: short_component(self.z, len),
            }
        } else {
            let len: u64 = integer_sqrt(n);
            let d: i128 = len as i128;
            let x: i128 = divide((self.x as i128) * 1_000, d);
            let y: i128 = divide((self.y as i128) * 1_000, d);
            let z: i128 = divide((self.z as i128) * 1_000, d);
            Point3 { x: x as i64, y: y as i64, z: z as i64 }
        }
    }
}

/// One component of the normalized form of a vector shorter than two to the 32;
/// `len` is the floor of the length times two to the 32.
fn short_component(c: i64, len: u64) -> (q: i64)
    requires
        c * c < 0x1_0000_0000_0000_0000,
        len > 0,
        -1000 <= trunc_div(c * 4_294_967_296_000, len as int) <= 1000,
    ensures
        q == trunc_div(c * 4_294_967_296_000, len as int),
{
    assert(-0x1_0000_0000 < c < 0x1_0000_0000) by (nonlinear_arith)
        requires c * c < 0x1_0000_0000_0000_0000;
    divide((c as i128) * 4_294_967_296_000, len as i128) as i64
}

/// `r` stands for `model`: both are nothing, or `r` is the point that stands for
/// the vector.
pub open spec fn point_is(r: Option<Point3>, model: Option<V3>) -> bool {
    match r {
        Some(q) => model == Some(q@),
        None => model is None,
    }
}

/// One component multiplied by the fixed-point scalar `k`.
fn scale_component(c: i64, k: i64) -> (r: i64)
    requires
        i64::MIN <= trunc_div(c * k, UNIT as int) <= i64::MAX,
    ensures
        r == trunc_div(c * k, UNIT as int),
{
    proof {
        lemma_product_bound(c as int, k as int, 0x8000_0000_0000_0000, 0x8000_0000_0000_0000);
        assert(0x8000_0000_0000_0000int * 0x8000_0000_0000_0000int
            == 0x4000_0000_0000_0000_0000_0000_0000_0000int);
    }
    let q: i128 = divide((c as i128) * (k as i128), UNIT as i128);
    q as i64
}

} // verus!
