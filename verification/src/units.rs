//! Fixed-point arithmetic.
//!
//! Lengths, masses, times, velocities and accelerations are integers that
//! count millionths of the corresponding whole unit: a length of `1_500_000`
//! is one and a half units, a time step of `16_667` is a sixtieth of a
//! second.  The helpers here are the few operations on such values that the
//! rest of the crate shares.

use vstd::prelude::*;

verus! {

/// Raw steps per whole unit.
pub const SCALE: u64 = 1_000_000;

/// Absolute value.
pub open spec fn magnitude(x: int) -> int {
    if x < 0 {
        -x
    } else {
        x
    }
}

/// `-1`, `0` or `1` according to the sign of `x`.
pub open spec fn signum(x: int) -> int {
    if x < 0 {
        -1
    } else if x > 0 {
        1
    } else {
        0
    }
}

/// The value of `[lo, hi]` nearest to `x`.
pub open spec fn clamp_to(x: int, lo: int, hi: int) -> int {
    if x < lo {
        lo
    } else if x > hi {
        hi
    } else {
        x
    }
}

/// `x` brought into the range of `i64`.
pub open spec fn sat_i64(x: int) -> int {
    clamp_to(x, i64::MIN as int, i64::MAX as int)
}

/// `x` brought into the range of `i32`.
pub open spec fn sat_i32(x: int) -> int {
    clamp_to(x, i32::MIN as int, i32::MAX as int)
}

/// Quotient rounded toward zero, for a positive divisor.
pub open spec fn div_toward_zero(a: int, b: int) -> int {
    if a >= 0 {
        a / b
    } else {
        -((-a) / b)
    }
}

/// Quotient rounded up, for a non-negative dividend and a positive divisor.
pub open spec fn div_ceil(a: int, b: int) -> int {
    (a + b - 1) / b
}

/// `r` is the integer square root of `n`: the largest integer whose square
/// does not exceed `n`.
pub open spec fn is_floor_sqrt(n: int, r: int) -> bool {
    0 <= r && r * r <= n < (r + 1) * (r + 1)
}

/// The integer square root of a non-negative `n`.
pub open spec fn floor_sqrt(n: int) -> int {
    choose|r: int| is_floor_sqrt(n, r)
}

/// A product of bounded non-negative factors is bounded by the product of
/// the bounds.
pub proof fn lemma_product_bound(a: int, b: int, a_max: int, b_max: int)
    by (nonlinear_arith)
    requires
        0 <= a <= a_max,
        0 <= b <= b_max,
    ensures
        0 <= a * b <= a_max * b_max,
{
}

/// Squaring preserves the order of non-negative integers.
pub proof fn lemma_square_monotone(a: int, b: int)
    by (nonlinear_arith)
    requires
        0 <= a,
    ensures
        a <= b ==> a * a <= b * b,
        a < b ==> a * a < b * b,
{
}

/// A square does not depend on the sign of its root and is not negative.
pub proof fn lemma_square_of_magnitude(x: int)
    by (nonlinear_arith)
    ensures
        magnitude(x) * magnitude(x) == x * x,
        x * x >= 0,
{
}

/// The square of a product is the product of the squares.
pub proof fn lemma_square_of_product(a: int, b: int)
    by (nonlinear_arith)
    ensures
        (a * b) * (a * b) == (a * a) * (b * b),
{
}

/// At most one integer is the integer square root of `n`.
pub proof fn lemma_floor_sqrt_unique(n: int, r: int, s: int)
    requires
        is_floor_sqrt(n, r),
        is_floor_sqrt(n, s),
    ensures
        r == s,
{
    if r < s {
        assert((r + 1) * (r + 1) <= s * s) by (nonlinear_arith)
            requires
                0 <= r + 1 <= s,
        ;
    } else if s < r {
        assert((s + 1) * (s + 1) <= r * r) by (nonlinear_arith)
            requires
                0 <= s + 1 <= r,
        ;
    }
}

/// Every non-negative integer has an integer square root.
pub proof fn lemma_floor_sqrt_exists(n: int)
    requires
        n >= 0,
    ensures
        is_floor_sqrt(n, floor_sqrt(n)),
    decreases n,
{
    if n == 0 {
        assert(is_floor_sqrt(0, 0));
    } else {
        lemma_floor_sqrt_exists(n - 1);
        let r = floor_sqrt(n - 1);
        if (r + 1) * (r + 1) <= n {
            assert((r + 1) * (r + 1) < (r + 2) * (r + 2)) by (nonlinear_arith)
                requires
                    r >= 0,
            ;
            assert(is_floor_sqrt(n, r + 1));
        } else {
            assert(is_floor_sqrt(n, r));
        }
    }
}

/// The integer square root of a number that a square bounds is at most the
/// root of that square, and it is zero for zero only.
pub proof fn lemma_floor_sqrt_bounds(n: int, bound: int)
    requires
        0 <= n <= bound * bound,
        0 <= bound,
    ensures
        0 <= floor_sqrt(n) <= bound,
        floor_sqrt(n) == 0 <==> n == 0,
{
    lemma_floor_sqrt_exists(n);
    let r = floor_sqrt(n);
    if r > bound {
        assert(r * r > bound * bound) by (nonlinear_arith)
            requires
                r > bound,
                bound >= 0,
        ;
    }
    if r == 0 {
        assert((r + 1) * (r + 1) == 1) by (nonlinear_arith)
            requires
                r == 0,
        ;
    } else {
        assert(r * r >= 1) by (nonlinear_arith)
            requires
                r >= 1,
        ;
    }
}

/// Rounding a quotient up loses nothing: the divisor times the rounded
/// quotient is at least the dividend, and exceeds it by less than the
/// divisor.
pub proof fn lemma_div_ceil_bounds(a: int, b: int)
    requires
        a >= 0,
        b > 0,
    ensures
        a <= b * div_ceil(a, b) < a + b,
        div_ceil(a, b) >= 0,
{
    vstd::arithmetic::div_mod::lemma_fundamental_div_mod(a + b - 1, b);
    vstd::arithmetic::div_mod::lemma_mod_bound(a + b - 1, b);
    vstd::arithmetic::div_mod::lemma_div_pos_is_pos(a + b - 1, b);
}

/// Any integer that satisfies the defining inequalities is the square root.
pub proof fn lemma_floor_sqrt_is(n: int, r: int)
    requires
        is_floor_sqrt(n, r),
    ensures
        floor_sqrt(n) == r,
{
    lemma_floor_sqrt_unique(n, r, floor_sqrt(n));
}

/// Integer square root by bisection.
pub fn isqrt(n: u128) -> (r: u64)
    ensures
        is_floor_sqrt(n as int, r as int),
        r == floor_sqrt(n as int),
{
    let mut lo: u128 = 0;
    let mut hi: u128 = 0x1_0000_0000_0000_0000;
    assert(0x1_0000_0000_0000_0000int * 0x1_0000_0000_0000_0000int > u128::MAX) by (nonlinear_arith);
    while hi - lo > 1
        invariant
            lo < hi <= 0x1_0000_0000_0000_0000,
            lo * lo <= n,
            n < hi * hi,
        decreases hi - lo,
    {
        let mid: u128 = lo + (hi - lo) / 2;
        assert(mid * mid <= 0xffff_ffff_ffff_ffff * 0xffff_ffff_ffff_ffff) by (nonlinear_arith)
            requires
                0 <= mid <= 0xffff_ffff_ffff_ffff,
        ;
        if mid * mid <= n {
            lo = mid;
        } else {
            hi = mid;
        }
    }
    proof {
        lemma_floor_sqrt_is(n as int, lo as int);
    }
    lo as u64
}

/// The distance between two coordinates.
pub fn gap(a: i64, b: i64) -> (d: u64)
    ensures
        d == magnitude(a - b),
{
    if a >= b {
        (a as i128 - b as i128) as u64
    } else {
        (b as i128 - a as i128) as u64
    }
}

/// Clamps a wide intermediate result to the range of `i64`.
pub fn saturate_i64(x: i128) -> (r: i64)
    ensures
        r == sat_i64(x as int),
{
    if x < i64::MIN as i128 {
        i64::MIN
    } else if x > i64::MAX as i128 {
        i64::MAX
    } else {
        x as i64
    }
}

/// Clamps a wide intermediate result to the range of `i32`.
pub fn saturate_i32(x: i128) -> (r: i32)
    ensures
        r == sat_i32(x as int),
{
    if x < i32::MIN as i128 {
        i32::MIN
    } else if x > i32::MAX as i128 {
        i32::MAX
    } else {
        x as i32
    }
}

/// Brings a product of two raw values back to raw units: divides by
/// [`SCALE`], rounding toward zero.
pub fn per_scale(a: i128) -> (q: i128)
    ensures
        q == div_toward_zero(a as int, SCALE as int),
        magnitude(q as int) <= magnitude(a as int),
{
    if a >= 0 {
        let q: u128 = (a as u128) / (SCALE as u128);
        assert(q <= a) by {
            vstd::arithmetic::div_mod::lemma_div_nonincreasing(a as int, SCALE as int);
        }
        q as i128
    } else {
        let m: u128 = if a == i128::MIN {
            0x8000_0000_0000_0000_0000_0000_0000_0000
        } else {
            (-a) as u128
        };
        let q: u128 = m / (SCALE as u128);
        assert(q < m) by {
            vstd::arithmetic::div_mod::lemma_div_decreases(m as int, SCALE as int);
        }
        -(q as i128)
    }
}

} // verus!
