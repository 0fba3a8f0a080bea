//! Fixed-point arithmetic shared by the camera and the geometry engine.
//!
//! World coordinates are whole numbers of *ticks*; one world unit is
//! [`UNIT`] ticks, so every stored coordinate is exact to three decimals.
//! Zoom factors are whole numbers of millionths. All rounding is to the
//! nearest integer, ties upward, and is stated by [`div_round`] and
//! [`sqrt_round`].

use vstd::prelude::*;

verus! {

/// Ticks per world unit.
pub const UNIT: i64 = 1_000;

/// Largest magnitude of a stored world coordinate, in ticks.
pub const COORD_MAX: i64 = 1_000_000_000;

/// Largest stored circle radius, in ticks.
pub const RADIUS_MAX: i64 = 3_000_000_000;

/// The zoom value that shows one world unit per pixel.
pub const ZOOM_ONE: i64 = 1_000_000;

/// Smallest zoom the camera ever holds (0.01).
pub const ZOOM_MIN: i64 = 10_000;

/// Largest zoom the camera ever holds (1000).
pub const ZOOM_MAX: i64 = 1_000_000_000;

/// Ticks per pixel multiplied by the zoom: `UNIT * ZOOM_ONE`.
pub const WORLD_SCALE: i64 = 1_000_000_000;

/// `v` moved to the nearest value in `[lo, hi]`.
pub open spec fn clamp(v: int, lo: int, hi: int) -> int {
    if v < lo {
        lo
    } else if v > hi {
        hi
    } else {
        v
    }
}

/// `v` moved to the nearest storable coordinate.
pub open spec fn clamp_coord(v: int) -> int {
    clamp(v, -COORD_MAX as int, COORD_MAX as int)
}

/// `v` moved to the nearest storable radius.
pub open spec fn clamp_radius(v: int) -> int {
    clamp(v, 0, RADIUS_MAX as int)
}

/// `v` is a storable coordinate.
pub open spec fn coord_ok(v: int) -> bool {
    -COORD_MAX <= v <= COORD_MAX
}

/// `v` is a storable radius.
pub open spec fn radius_ok(v: int) -> bool {
    0 <= v <= RADIUS_MAX
}

/// `z` is a zoom the camera can hold.
pub open spec fn zoom_ok(z: int) -> bool {
    ZOOM_MIN <= z <= ZOOM_MAX
}

/// The magnitude of `v`.
pub open spec fn abs(v: int) -> int {
    if v < 0 {
        -v
    } else {
        v
    }
}

/// `n / d` rounded to the nearest integer, ties upward (`d > 0`).
pub open spec fn div_round(n: int, d: int) -> int {
    (2 * n + d) / (2 * d)
}

/// `r` is the integer part of the square root of `n`.
pub open spec fn is_sqrt_floor(n: int, r: int) -> bool {
    0 <= r && r * r <= n < (r + 1) * (r + 1)
}

/// The integer part of the square root of `n` (`n >= 0`).
pub open spec fn sqrt_floor(n: int) -> int {
    choose|r: int| is_sqrt_floor(n, r)
}

/// The square root of `n` rounded to the nearest integer (`n >= 0`);
/// a square root is never a tie.
pub open spec fn sqrt_round(n: int) -> int {
    (sqrt_floor(4 * n) + 1) / 2
}

/// The least integer whose square is at least `n` (`n >= 0`).
pub open spec fn sqrt_ceil(n: int) -> int {
    if sqrt_floor(n) * sqrt_floor(n) == n {
        sqrt_floor(n)
    } else {
        sqrt_floor(n) + 1
    }
}

/// Squaring is strictly monotone on the non-negative integers.
pub proof fn lemma_square_strict(a: int, b: int)
    requires
        0 <= a < b,
    ensures
        a * a < b * b,
        (a + 1) * (a + 1) <= b * b,
{
    assert(a * a < b * b) by (nonlinear_arith)
        requires
            0 <= a < b,
    ;
    assert((a + 1) * (a + 1) <= b * b) by (nonlinear_arith)
        requires
            0 <= a,
            a + 1 <= b,
    ;
}

/// Only one integer is the integer part of a given square root.
pub proof fn lemma_sqrt_floor_unique(n: int, r: int)
    requires
        is_sqrt_floor(n, r),
    ensures
        sqrt_floor(n) == r,
{
    let s = sqrt_floor(n);
    assert(is_sqrt_floor(n, s));
    if s < r {
        lemma_square_strict(s, r);
    } else if r < s {
        lemma_square_strict(r, s);
    }
}

/// Every non-negative integer has an integer square root, and it is the
/// largest integer whose square does not exceed it.
pub proof fn lemma_sqrt_floor_exists(n: int)
    requires
        0 <= n,
    ensures
        is_sqrt_floor(n, sqrt_floor(n)),
    decreases n,
{
    if n == 0 {
        assert(is_sqrt_floor(0, 0));
    } else {
        lemma_sqrt_floor_exists(n - 1);
        let r = sqrt_floor(n - 1);
        if n < (r + 1) * (r + 1) {
            assert(is_sqrt_floor(n, r));
        } else {
            assert((r + 2) * (r + 2) > (r + 1) * (r + 1)) by (nonlinear_arith)
                requires
                    0 <= r,
            ;
            assert(is_sqrt_floor(n, r + 1));
        }
    }
}

/// For a bound `t >= 0`: the root is under `t` exactly when `n` is under `t * t`.
pub proof fn lemma_sqrt_floor_lt(n: int, t: int)
    requires
        0 <= n,
        0 <= t,
    ensures
        sqrt_floor(n) < t <==> n < t * t,
{
    lemma_sqrt_floor_exists(n);
    let r = sqrt_floor(n);
    if r < t {
        lemma_square_strict(r, t);
    } else if t < r {
        lemma_square_strict(t, r);
    }
}

/// The rounded root `r` of `n` is the integer nearest to the real square
/// root: `(2r - 1)^2 <= 4n < (2r + 1)^2`.
pub proof fn lemma_sqrt_round_nearest(n: int)
    requires
        0 <= n,
    ensures
        0 <= sqrt_round(n),
        (2 * sqrt_round(n) - 1) * (2 * sqrt_round(n) - 1) <= 4 * n || sqrt_round(n) == 0,
        4 * n < (2 * sqrt_round(n) + 1) * (2 * sqrt_round(n) + 1),
{
    lemma_sqrt_floor_exists(4 * n);
    let s = sqrt_floor(4 * n);
    let r = sqrt_round(n);
    assert(s == 2 * r - 1 || s == 2 * r);
    if s == 2 * r - 1 {
        assert((s + 1) * (s + 1) <= (2 * r + 1) * (2 * r + 1)) by (nonlinear_arith)
            requires
                s == 2 * r - 1,
                0 <= s,
        ;
    } else {
        assert((2 * r - 1) * (2 * r - 1) <= s * s || r == 0) by (nonlinear_arith)
            requires
                s == 2 * r,
                0 <= s,
        ;
    }
}

/// The rounded root of a perfect square is its root.
pub proof fn lemma_sqrt_round_square(r: int)
    requires
        0 <= r,
    ensures
        sqrt_round(r * r) == r,
        sqrt_floor(r * r) == r,
        sqrt_ceil(r * r) == r,
{
    assert(4 * (r * r) == (2 * r) * (2 * r)) by (nonlinear_arith);
    assert((2 * r) * (2 * r) < (2 * r + 1) * (2 * r + 1)) by (nonlinear_arith)
        requires
            0 <= r,
    ;
    lemma_sqrt_floor_unique(4 * (r * r), 2 * r);
    assert(r * r < (r + 1) * (r + 1)) by (nonlinear_arith)
        requires
            0 <= r,
    ;
    lemma_sqrt_floor_unique(r * r, r);
}

/// The rounded quotient is within half a divisor of the exact one.
pub proof fn lemma_div_round_bounds(n: int, d: int)
    requires
        d > 0,
    ensures
        2 * n - d < 2 * d * div_round(n, d) <= 2 * n + d,
{
    let q = div_round(n, d);
    assert(2 * n - d < 2 * d * q && 2 * d * q <= 2 * n + d) by (nonlinear_arith)
        requires
            d > 0,
            q == (2 * n + d) / (2 * d),
    ;
}

/// The rounded quotient does not fall as the dividend grows.
pub proof fn lemma_div_round_monotone(n1: int, n2: int, d: int)
    requires
        d > 0,
        n1 <= n2,
    ensures
        div_round(n1, d) <= div_round(n2, d),
{
    let q1 = div_round(n1, d);
    let q2 = div_round(n2, d);
    lemma_div_round_bounds(n1, d);
    lemma_div_round_bounds(n2, d);
    assert(q1 <= q2) by (nonlinear_arith)
        requires
            d > 0,
            n1 <= n2,
            2 * d * q1 <= 2 * n1 + d,
            2 * n2 - d < 2 * d * q2,
    ;
}

/// Any integer within half a divisor of the exact quotient is the rounded one.
pub proof fn lemma_div_round_unique(n: int, d: int, q: int)
    requires
        d > 0,
        2 * n - d < 2 * d * q <= 2 * n + d,
    ensures
        div_round(n, d) == q,
{
    let r = div_round(n, d);
    lemma_div_round_bounds(n, d);
    assert(r == q) by (nonlinear_arith)
        requires
            d > 0,
            2 * n - d < 2 * d * q <= 2 * n + d,
            2 * n - d < 2 * d * r <= 2 * n + d,
    ;
}

/// A whole multiple divides without rounding.
pub proof fn lemma_div_round_exact(q: int, d: int)
    requires
        d > 0,
    ensures
        div_round(q * d, d) == q,
{
    assert(2 * (q * d) == 2 * d * q) by (nonlinear_arith);
    lemma_div_round_unique(q * d, d, q);
}

/// The magnitude of a rounded quotient is bounded by that of the numerator.
pub proof fn lemma_div_round_magnitude(n: int, d: int, bound: int)
    requires
        d > 0,
        0 <= bound,
        -bound <= n <= bound,
    ensures
        -bound <= div_round(n, d) <= bound,
{
    lemma_div_round_bounds(n, d);
    let q = div_round(n, d);
    assert(-bound <= q <= bound) by (nonlinear_arith)
        requires
            d > 0,
            0 <= bound,
            -bound <= n <= bound,
            2 * n - d < 2 * d * q <= 2 * n + d,
    ;
}

/// `v` moved to the nearest value in `[lo, hi]`.
pub fn clamp_i128(v: i128, lo: i64, hi: i64) -> (r: i64)
    requires
        lo <= hi,
    ensures
        r == clamp(v as int, lo as int, hi as int),
{
    if v < lo as i128 {
        lo
    } else if v > hi as i128 {
        hi
    } else {
        v as i64
    }
}

/// `v` moved to the nearest storable coordinate.
pub fn clamp_coord_i128(v: i128) -> (r: i64)
    ensures
        r == clamp_coord(v as int),
        coord_ok(r as int),
{
    clamp_i128(v, -COORD_MAX, COORD_MAX)
}

/// `v` moved to the nearest storable radius.
pub fn clamp_radius_i128(v: i128) -> (r: i64)
    ensures
        r == clamp_radius(v as int),
        radius_ok(r as int),
{
    clamp_i128(v, 0, RADIUS_MAX)
}

/// The magnitude of `v`.
pub fn abs_i128(v: i128) -> (r: i128)
    requires
        v > i128::MIN,
    ensures
        r == abs(v as int),
{
    if v < 0 {
        -v
    } else {
        v
    }
}

/// Largest magnitude [`div_round_i128`] and [`div_floor_i128`] accept.
pub const DIV_MAX: i128 = 0x0fff_ffff_ffff_ffff_ffff_ffff_ffff_ffff;

/// `n / d` rounded toward negative infinity.
pub fn div_floor_i128(n: i128, d: i128) -> (q: i128)
    requires
        0 < d <= DIV_MAX,
        -DIV_MAX <= n <= DIV_MAX,
    ensures
        q == (n as int) / (d as int),
{
    if n >= 0 {
        n / d
    } else {
        let m: i128 = -n;
        let q: i128 = (m + d - 1) / d;
        assert(-q == (n as int) / (d as int)) by (nonlinear_arith)
            requires
                d > 0,
                n < 0,
                m == -n,
                q == (m + d - 1) / (d as int),
        ;
        -q
    }
}

/// `n / d` rounded to the nearest integer, ties upward.
pub fn div_round_i128(n: i128, d: i128) -> (q: i128)
    requires
        0 < d <= DIV_MAX / 4,
        -DIV_MAX / 4 <= n <= DIV_MAX / 4,
    ensures
        q == div_round(n as int, d as int),
{
    div_floor_i128(2 * n + d, 2 * d)
}

/// The integer part of the square root of `n`.
pub fn isqrt(n: u128) -> (r: u64)
    ensures
        is_sqrt_floor(n as int, r as int),
        r == sqrt_floor(n as int),
{
    let mut lo: u128 = 0;
    let mut hi: u128 = 0x1_0000_0000_0000_0000;
    assert(0x1_0000_0000_0000_0000int * 0x1_0000_0000_0000_0000int > u128::MAX);
    while hi - lo > 1
        invariant
            0 <= lo < hi <= 0x1_0000_0000_0000_0000,
            lo * lo <= n,
            n < hi * hi,
        decreases hi - lo,
    {
        let mid: u128 = lo + (hi - lo) / 2;
        assert(mid * mid <= 0xffff_ffff_ffff_ffff * 0xffff_ffff_ffff_ffff) by (nonlinear_arith)
            requires
                0 <= mid <= 0xffff_ffff_ffff_ffff,
        ;
        assert(0xffff_ffff_ffff_ffffint * 0xffff_ffff_ffff_ffffint <= u128::MAX);
        if mid * mid <= n {
            lo = mid;
        } else {
            hi = mid;
        }
    }
    proof {
        assert(hi == lo + 1);
        lemma_sqrt_floor_unique(n as int, lo as int);
    }
    lo as u64
}

/// Largest argument of [`isqrt_round`] and [`isqrt_ceil`].
pub const SQRT_ARG_MAX: u128 = 0x3fff_ffff_ffff_ffff_ffff_ffff_ffff_ffff;

/// The square root of `n` rounded to the nearest integer.
pub fn isqrt_round(n: u128) -> (r: u64)
    requires
        n <= SQRT_ARG_MAX,
    ensures
        r == sqrt_round(n as int),
{
    let s = isqrt(4 * n);
    let r: u128 = (s as u128 + 1) / 2;
    r as u64
}

/// The least integer whose square is at least `n`.
pub fn isqrt_ceil(n: u128) -> (r: u64)
    requires
        n <= SQRT_ARG_MAX,
    ensures
        r == sqrt_ceil(n as int),
{
    let s = isqrt(n);
    assert(s < 0x8000_0000_0000_0000) by {
        if s >= 0x8000_0000_0000_0000 {
            lemma_square_strict(0x7fff_ffff_ffff_ffff, s as int);
            assert(0x8000_0000_0000_0000int * 0x8000_0000_0000_0000int > SQRT_ARG_MAX);
            assert((s as int) * (s as int) >= 0x8000_0000_0000_0000int * 0x8000_0000_0000_0000int);
        }
    }
    assert((s as int) * (s as int) <= n);
    if (s as u128) * (s as u128) == n {
        s
    } else {
        s + 1
    }
}

} // verus!
