//! Fixed-point scalars.
//!
//! Every length, coordinate, speed and gain of this library is a whole number of
//! thousandths: the integer `1500` stands for one and a half world units. All
//! arithmetic is exact integer arithmetic; the only rounding is the truncation of a
//! quotient toward zero, and the only irrational operation is the floor of a square
//! root.

use vstd::prelude::*;

verus! {

/// Steps per world unit: the integer that stands for `1.0`.
pub const UNIT: i64 = 1000;

/// The square of [`UNIT`].
pub const UNIT_SQ: i64 = 1_000_000;

/// Largest magnitude of a coordinate or a speed that the library stores or is
/// handed: one hundred thousand world units. The limit leaves room for the
/// products of the geometry in 128 bits.
pub const COORD_MAX: i64 = 100_000_000;

/// Largest magnitude of a component of the two factors of a cross product: below
/// it every component of the product is an `i64`.
pub const SPAN_MAX: i64 = 2_000_000_000;

/// Largest magnitude of a component of the two factors of a dot product: below it
/// the product is an `i128`.
pub const WIDE_MAX: i64 = 0x3fff_ffff_ffff_ffff;

/// The magnitude of an integer.
pub open spec fn abs(x: int) -> int {
    if x >= 0 {
        x
    } else {
        -x
    }
}

/// Quotient of `n` by `d`, rounded toward zero.
pub open spec fn trunc_div(n: int, d: int) -> int {
    if n >= 0 {
        n / d
    } else {
        -((-n) / d)
    }
}

/// `r` is the floor of the square root of `n`.
pub open spec fn is_floor_sqrt(n: int, r: int) -> bool {
    0 <= r && r * r <= n < (r + 1) * (r + 1)
}

/// The floor of the square root of `n` (meaningful for `n >= 0`).
pub open spec fn floor_sqrt(n: int) -> int {
    choose|r: int| is_floor_sqrt(n, r)
}

/// Squaring is strictly monotonic on the naturals.
pub proof fn lemma_square_monotonic(a: int, b: int)
    by (nonlinear_arith)
    requires
        0 <= a < b,
    ensures
        a * a < b * b,
        (a + 1) * (a + 1) <= b * b,
{
}

/// Every natural number has a floor square root.
pub proof fn lemma_floor_sqrt_exists(n: int)
    requires
        n >= 0,
    ensures
        is_floor_sqrt(n, floor_sqrt(n)),
    decreases n,
{
    if n == 0 {
        assert(is_floor_sqrt(0, 0));
    } else {
        lemma_floor_sqrt_exists(n - 1);
        let r = floor_sqrt(n - 1);
        if (r + 1) * (r + 1) <= n {
            assert(is_floor_sqrt(n, r + 1)) by (nonlinear_arith)
                requires 0 <= r, r * r <= n - 1 < (r + 1) * (r + 1), (r + 1) * (r + 1) <= n;
        } else {
            assert(is_floor_sqrt(n, r));
        }
    }
}

/// At most one integer is the floor of the square root of `n`.
pub proof fn lemma_floor_sqrt_unique(n: int, r: int)
    requires
        is_floor_sqrt(n, r),
    ensures
        floor_sqrt(n) == r,
{
    let s = floor_sqrt(n);
    assert(is_floor_sqrt(n, s));
    if s < r {
        lemma_square_monotonic(s, r);
    } else if r < s {
        lemma_square_monotonic(r, s);
    }
}

/// Whatever squares to at most `n` is at most the floor of the square root of `n`.
pub proof fn lemma_floor_sqrt_dominates(n: int, r: int, a: int)
    requires
        is_floor_sqrt(n, r),
        0 <= a,
        a * a <= n,
    ensures
        a <= r,
{
    if a > r {
        lemma_square_monotonic(r, a);
    }
}

/// The product of two bounded integers is bounded by the product of the bounds.
pub proof fn lemma_product_bound(a: int, b: int, m: int, n: int)
    by (nonlinear_arith)
    requires
        -m <= a <= m,
        -n <= b <= n,
    ensures
        -(m * n) <= a * b <= m * n,
{
}

/// The square of a sum of three numbers is at most three times the sum of their
/// squares.
pub proof fn lemma_sum_square(a: int, b: int, c: int)
    by (nonlinear_arith)
    ensures
        (a + b + c) * (a + b + c) <= 3 * (a * a + b * b + c * c),
{
    assert((a - b) * (a - b) >= 0);
    assert((b - c) * (b - c) >= 0);
    assert((a - c) * (a - c) >= 0);
    assert(3 * (a * a + b * b + c * c) - (a + b + c) * (a + b + c) == (a - b) * (a - b) + (b - c)
        * (b - c) + (a - c) * (a - c));
}

/// The truncated quotient differs from the exact one by less than one divisor.
pub proof fn lemma_trunc_div_remainder(n: int, d: int)
    by (nonlinear_arith)
    requires
        d > 0,
    ensures
        n >= 0 ==> 0 <= n - trunc_div(n, d) * d < d,
        n <= 0 ==> -d < n - trunc_div(n, d) * d <= 0,
{
    if n >= 0 {
        vstd::arithmetic::div_mod::lemma_fundamental_div_mod(n, d);
        vstd::arithmetic::div_mod::lemma_mod_bound(n, d);
    } else {
        vstd::arithmetic::div_mod::lemma_fundamental_div_mod(-n, d);
        vstd::arithmetic::div_mod::lemma_mod_bound(-n, d);
    }
}

/// A multiple of the divisor is divided without rounding.
pub proof fn lemma_trunc_div_exact(q: int, d: int)
    requires
        d > 0,
    ensures
        trunc_div(q * d, d) == q,
{
    if q >= 0 {
        assert(q * d >= 0) by (nonlinear_arith)
            requires q >= 0, d > 0;
        vstd::arithmetic::div_mod::lemma_div_multiples_vanish(q, d);
        assert(q * d == d * q) by (nonlinear_arith);
    } else {
        assert(q * d < 0) by (nonlinear_arith)
            requires q < 0, d > 0;
        assert(-(q * d) == d * (-q)) by (nonlinear_arith);
        vstd::arithmetic::div_mod::lemma_div_multiples_vanish(-q, d);
    }
}

/// A numerator of magnitude at most `k` divisors gives a quotient of magnitude at
/// most `k`.
pub proof fn lemma_trunc_div_of_multiple_bound(n: int, d: int, k: int)
    requires
        d > 0,
        -(k * d) <= n <= k * d,
    ensures
        -k <= trunc_div(n, d) <= k,
{
    lemma_trunc_div_remainder(n, d);
    let q = trunc_div(n, d);
    if n >= 0 {
        assert(0 <= q <= k) by (nonlinear_arith)
            requires d > 0, 0 <= n <= k * d, 0 <= n - q * d < d;
    } else {
        assert(-k <= q <= 0) by (nonlinear_arith)
            requires d > 0, -(k * d) <= n < 0, -d < n - q * d <= 0;
    }
}

/// Floor of the square root of `n`.
pub fn integer_sqrt(n: u128) -> (r: u64)
    ensures
        is_floor_sqrt(n as int, r as int),
        r as int == floor_sqrt(n as int),
{
    let mut lo: u128 = 0;
    let mut hi: u128 = 0x1_0000_0000_0000_0000;
    assert(0x1_0000_0000_0000_0000 * 0x1_0000_0000_0000_0000 > u128::MAX) by (nonlinear_arith);
    while hi - lo > 1
        invariant
            lo < hi <= 0x1_0000_0000_0000_0000,
            lo * lo <= n < hi * hi,
        decreases hi - lo,
    {
        let mid: u128 = lo + (hi - lo) / 2;
        assert(mid * mid <= 0xffff_ffff_ffff_ffff * 0xffff_ffff_ffff_ffff) by (nonlinear_arith)
            requires 0 <= mid <= 0xffff_ffff_ffff_ffff;
        if mid * mid <= n {
            lo = mid;
        } else {
            hi = mid;
        }
    }
    proof {
        lemma_floor_sqrt_unique(n as int, lo as int);
    }
    lo as u64
}

/// Quotient of `n` by `d`, rounded toward zero.
pub fn divide(n: i128, d: i128) -> (q: i128)
    requires
        d > 0,
    ensures
        q == trunc_div(n as int, d as int),
{
    n / d
}

} // verus!
