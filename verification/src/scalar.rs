//! Fixed-point scalars.
//!
//! Every length, position, velocity, weight and time span of the simulation is
//! an `i32` counting thousandths of a world unit. Arithmetic on them is
//! carried out exactly in a wider integer, rounded toward zero where a
//! quotient is involved, and saturated at the ends of the `i32` range.

use vstd::prelude::*;

verus! {

/// Raw value of one world unit.
pub const SCALE: i32 = 1000;

/// Raw value of half a world unit.
pub const HALF: i32 = 500;

/// The nearest value of the `i32` range.
pub open spec fn clamp(v: int) -> int {
    if v < i32::MIN {
        i32::MIN as int
    } else if v > i32::MAX {
        i32::MAX as int
    } else {
        v
    }
}

/// Sign of a difference: `+1` for zero and above, `-1` below zero.
pub open spec fn sign(v: int) -> int {
    if v >= 0 { 1 } else { -1 }
}

/// Absolute value.
pub open spec fn magnitude(v: int) -> int {
    if v >= 0 { v } else { -v }
}

/// Quotient rounded toward zero.
pub open spec fn quot(n: int, d: int) -> int
    recommends
        d != 0,
{
    if d > 0 {
        if n >= 0 { n / d } else { -((-n) / d) }
    } else {
        if n >= 0 { -(n / (-d)) } else { (-n) / (-d) }
    }
}

/// Saturated sum.
pub open spec fn sum(a: int, b: int) -> int {
    clamp(a + b)
}

/// Saturated difference.
pub open spec fn diff(a: int, b: int) -> int {
    clamp(a - b)
}

/// Saturated fixed-point product.
pub open spec fn prod(a: int, b: int) -> int {
    clamp(quot(a * b, SCALE as int))
}

/// Saturated fixed-point ratio. A division by zero saturates in the
/// direction of the numerator, and is zero for a zero numerator.
pub open spec fn ratio(a: int, b: int) -> int {
    if b == 0 {
        if a > 0 {
            i32::MAX as int
        } else if a < 0 {
            i32::MIN as int
        } else {
            0
        }
    } else {
        clamp(quot(a * SCALE, b))
    }
}

/// Half of a value, rounded toward zero.
pub open spec fn halved(a: int) -> int {
    quot(a, 2)
}

/// The greatest whole number of units not above `v`, as a raw value.
pub open spec fn floor_units(v: int) -> int {
    (v / (SCALE as int)) * SCALE
}

/// The least whole number of units not below `v`, as a raw value.
pub open spec fn ceil_units(v: int) -> int {
    -floor_units(-v)
}

/// The nearest whole number of units, halves rounded away from zero.
pub open spec fn round_units(v: int) -> int {
    if v >= 0 { floor_units(v + HALF) } else { -floor_units(-v + HALF) }
}

/// The product of two sums or differences of `i32` values stays far inside
/// `i128`.
pub proof fn lemma_product_bound(a: int, b: int)
    requires
        -0x2_0000_0000 <= a <= 0x2_0000_0000,
        -0x2_0000_0000 <= b <= 0x2_0000_0000,
    ensures
        -0x4_0000_0000_0000_0000 <= a * b <= 0x4_0000_0000_0000_0000,
{
    assert(-0x4_0000_0000_0000_0000 <= a * b <= 0x4_0000_0000_0000_0000) by (nonlinear_arith)
        requires
            -0x2_0000_0000 <= a <= 0x2_0000_0000,
            -0x2_0000_0000 <= b <= 0x2_0000_0000,
    ;
}

/// Rounding down to whole units moves a value by less than one unit, and
/// not at all if it is a whole number of units; it keeps the order, and
/// commutes with a shift by whole units.
pub proof fn lemma_floor_units(v: int, whole: int)
    requires
        whole % (SCALE as int) == 0,
    ensures
        floor_units(v) <= v < floor_units(v) + SCALE,
        floor_units(v) % (SCALE as int) == 0,
        floor_units(whole) == whole,
        whole <= v ==> whole <= floor_units(v),
        floor_units(v - whole) == floor_units(v) - whole,
{
}

/// Rounding up to whole units moves a value by less than one unit, and not
/// at all if it is a whole number of units; it keeps the order, and commutes
/// with a shift by whole units.
pub proof fn lemma_ceil_units(v: int, whole: int)
    requires
        whole % (SCALE as int) == 0,
    ensures
        v <= ceil_units(v) < v + SCALE,
        ceil_units(v) % (SCALE as int) == 0,
        ceil_units(whole) == whole,
        v <= whole ==> ceil_units(v) <= whole,
        ceil_units(v - whole) == ceil_units(v) - whole,
{
    lemma_floor_units(-v, -whole);
}

/// Narrows a wide integer into the `i32` range.
pub fn narrow(v: i128) -> (r: i32)
    ensures
        r == clamp(v as int),
{
    if v < i32::MIN as i128 {
        i32::MIN
    } else if v > i32::MAX as i128 {
        i32::MAX
    } else {
        v as i32
    }
}

/// Quotient of two wide integers, rounded toward zero.
pub fn quot_wide(n: i128, d: i128) -> (q: i128)
    requires
        d != 0,
        n > i128::MIN,
        d > i128::MIN,
    ensures
        q == quot(n as int, d as int),
{
    if d > 0 {
        if n >= 0 { n / d } else { -((-n) / d) }
    } else {
        let e: i128 = -d;
        if n >= 0 { -(n / e) } else { (-n) / e }
    }
}

/// Sign of `a - b`.
pub fn sign_of_diff(a: i32, b: i32) -> (s: i32)
    ensures
        s == sign(a - b),
{
    if a >= b { 1 } else { -1 }
}

/// Raw value of a whole number of units.
pub fn from_units(n: i32) -> (r: i32)
    ensures
        r == clamp(n * SCALE),
{
    proof {
        lemma_product_bound(n as int, SCALE as int);
    }
    narrow(n as i128 * SCALE as i128)
}

/// `a + b`, saturated.
pub fn fx_add(a: i32, b: i32) -> (r: i32)
    ensures
        r == sum(a as int, b as int),
{
    narrow(a as i128 + b as i128)
}

/// `a - b`, saturated.
pub fn fx_sub(a: i32, b: i32) -> (r: i32)
    ensures
        r == diff(a as int, b as int),
{
    narrow(a as i128 - b as i128)
}

/// `-a`, saturated.
pub fn fx_neg(a: i32) -> (r: i32)
    ensures
        r == clamp(-a),
{
    narrow(-(a as i128))
}

/// Fixed-point product `a * b`, rounded toward zero and saturated.
pub fn fx_mul(a: i32, b: i32) -> (r: i32)
    ensures
        r == prod(a as int, b as int),
{
    proof {
        lemma_product_bound(a as int, b as int);
    }
    let wide: i128 = a as i128 * b as i128;
    narrow(quot_wide(wide, SCALE as i128))
}

/// Fixed-point ratio `a / b`, rounded toward zero and saturated.
pub fn fx_div(a: i32, b: i32) -> (r: i32)
    ensures
        r == ratio(a as int, b as int),
{
    if b == 0 {
        if a > 0 {
            i32::MAX
        } else if a < 0 {
            i32::MIN
        } else {
            0
        }
    } else {
        proof {
            lemma_product_bound(a as int, SCALE as int);
        }
        narrow(quot_wide(a as i128 * SCALE as i128, b as i128))
    }
}

/// Half of `a`, rounded toward zero.
pub fn fx_half(a: i32) -> (r: i32)
    ensures
        r == halved(a as int),
{
    let q: i128 = quot_wide(a as i128, 2);
    assert(i32::MIN <= q <= i32::MAX);
    q as i32
}

/// Rounds down to a whole number of units, saturated.
pub fn fx_floor(a: i32) -> (r: i32)
    ensures
        r == clamp(floor_units(a as int)),
{
    let wide: i128 = a as i128;
    let scale: i128 = SCALE as i128;
    if wide >= 0 {
        narrow((wide / scale) * scale)
    } else {
        let up: i128 = (-wide + (scale - 1)) / scale;
        assert(-up == wide / 1000) by {
            assert(up == (-wide + 999) / 1000);
        }
        narrow(-up * scale)
    }
}

/// Rounds up to a whole number of units, saturated.
pub fn fx_ceil(a: i32) -> (r: i32)
    ensures
        r == clamp(ceil_units(a as int)),
{
    let wide: i128 = a as i128;
    let scale: i128 = SCALE as i128;
    if wide <= 0 {
        narrow(-(((-wide) / scale) * scale))
    } else {
        let up: i128 = (wide + (scale - 1)) / scale;
        assert(-up == (-wide) / 1000) by {
            assert(up == (wide + 999) / 1000);
        }
        narrow(up * scale)
    }
}

/// Rounds to the nearest whole number of units, halves away from zero,
/// saturated.
pub fn fx_round(a: i32) -> (r: i32)
    ensures
        r == clamp(round_units(a as int)),
{
    let wide: i128 = a as i128;
    let scale: i128 = SCALE as i128;
    let half: i128 = HALF as i128;
    if wide >= 0 {
        narrow(((wide + half) / scale) * scale)
    } else {
        narrow(-(((-wide + half) / scale) * scale))
    }
}

/// Whether `|a| < bound`.
pub fn within(a: i32, bound: i32) -> (r: bool)
    ensures
        r == (magnitude(a as int) < bound),
{
    let wide: i64 = a as i64;
    let m: i64 = if wide >= 0 { wide } else { -wide };
    m < bound as i64
}

} // verus!
