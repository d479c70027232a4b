//! Fixed-point arithmetic shared by the whole engine.
//!
//! Levels, gains, sample values and fractional frame positions are signed
//! 64-bit numbers with 32 fractional bits, so `ONE` stands for 1.0. Every
//! operation here rounds towards negative infinity and saturates at the ends
//! of the `i64` range instead of wrapping.

use vstd::prelude::*;

verus! {

/// The fixed-point representation of 1.0.
pub const ONE: i64 = 0x1_0000_0000;

/// Microseconds in a second; durations and timeline positions are counted in
/// microseconds.
pub const MICROS_PER_SECOND: i64 = 1_000_000;

/// `x` limited to the range of `i64`.
pub open spec fn clamp_i64(x: int) -> int {
    if x < i64::MIN {
        i64::MIN as int
    } else if x > i64::MAX {
        i64::MAX as int
    } else {
        x
    }
}

/// The fixed-point product of two levels: the exact product scaled back by
/// `ONE`, rounded down and saturated.
pub open spec fn level_product(a: int, b: int) -> int {
    clamp_i64((a * b) / (ONE as int))
}

/// The saturated sum of two levels.
pub open spec fn level_sum(a: int, b: int) -> int {
    clamp_i64(a + b)
}

/// `scale * part / whole`, rounded down: the share `part / whole` measured
/// on a scale that runs from 0 to `scale`.
pub open spec fn share(scale: int, part: int, whole: int) -> int {
    (scale * part) / whole
}

/// A share of a whole lies between 0 and the scale, on the side of 0 on
/// which the scale lies.
pub proof fn lemma_share_bounds(scale: int, part: int, whole: int)
    requires
        0 <= part <= whole,
        0 < whole,
    ensures
        scale >= 0 ==> 0 <= share(scale, part, whole) <= scale,
        scale <= 0 ==> scale <= share(scale, part, whole) <= 0,
        part == 0 ==> share(scale, part, whole) == 0,
        part == whole ==> share(scale, part, whole) == scale,
{
    let x = scale * part;
    assert(part == 0 ==> x == 0) by (nonlinear_arith)
        requires x == scale * part;
    assert(part == whole ==> x == scale * whole) by (nonlinear_arith)
        requires x == scale * part;
    assert(scale >= 0 ==> 0 <= x <= scale * whole) by (nonlinear_arith)
        requires x == scale * part, 0 <= part <= whole;
    assert(scale <= 0 ==> scale * whole <= x <= 0) by (nonlinear_arith)
        requires x == scale * part, 0 <= part <= whole;
    lemma_floor_div_monotonic(0, x, whole);
    lemma_floor_div_monotonic(x, 0, whole);
    lemma_floor_div_monotonic(x, scale * whole, whole);
    lemma_floor_div_monotonic(scale * whole, x, whole);
    lemma_floor_div_exact(scale, whole);
    assert(0int / whole == 0) by (nonlinear_arith)
        requires whole > 0;
}

/// A share grows with the part when the scale is not negative, and shrinks
/// with it when the scale is not positive.
pub proof fn lemma_share_monotonic(scale: int, part_a: int, part_b: int, whole: int)
    requires
        part_a <= part_b,
        0 < whole,
    ensures
        scale >= 0 ==> share(scale, part_a, whole) <= share(scale, part_b, whole),
        scale <= 0 ==> share(scale, part_a, whole) >= share(scale, part_b, whole),
{
    let xa = scale * part_a;
    let xb = scale * part_b;
    assert(scale >= 0 ==> xa <= xb) by (nonlinear_arith)
        requires xa == scale * part_a, xb == scale * part_b, part_a <= part_b;
    assert(scale <= 0 ==> xa >= xb) by (nonlinear_arith)
        requires xa == scale * part_a, xb == scale * part_b, part_a <= part_b;
    lemma_floor_div_monotonic(xa, xb, whole);
    lemma_floor_div_monotonic(xb, xa, whole);
}

/// Rounded-down division by a positive number keeps the order.
pub proof fn lemma_floor_div_monotonic(a: int, b: int, d: int)
    requires
        0 < d,
    ensures
        a <= b ==> a / d <= b / d,
{
    if a <= b {
        vstd::arithmetic::div_mod::lemma_div_is_ordered(a, b, d);
    }
}

/// Dividing an exact multiple gives the factor back.
pub proof fn lemma_floor_div_exact(q: int, d: int)
    requires
        0 < d,
    ensures
        (q * d) / d == q,
{
    vstd::arithmetic::div_mod::lemma_div_multiples_vanish(q, d);
    vstd::arithmetic::mul::lemma_mul_is_commutative(q, d);
}

/// Rounded-down division of `a` by the positive number `b`.
pub fn floor_div(a: i128, b: i128) -> (q: i128)
    requires
        b > 0,
    ensures
        q == a / b,
{
    assert(i128::MIN <= a / b <= i128::MAX) by (nonlinear_arith)
        requires
            b > 0,
            i128::MIN <= a <= i128::MAX,
    ;
    match a.checked_div_euclid(b) {
        Some(q) => q,
        None => 0,
    }
}

/// Limits a wide intermediate result to the range of a level.
pub fn saturate(x: i128) -> (r: i64)
    ensures
        r == clamp_i64(x as int),
{
    if x < -0x8000_0000_0000_0000i128 {
        i64::MIN
    } else if x > 0x7fff_ffff_ffff_ffffi128 {
        i64::MAX
    } else {
        x as i64
    }
}

/// Multiplies two levels.
pub fn level_mul(a: i64, b: i64) -> (r: i64)
    ensures
        r == level_product(a as int, b as int),
{
    let wide: i128 = wide_product(a, b);
    saturate(floor_div(wide, 0x1_0000_0000i128))
}

/// Adds two levels, saturating at the ends of the range.
pub fn level_add(a: i64, b: i64) -> (r: i64)
    ensures
        r == level_sum(a as int, b as int),
{
    let wide: i128 = a as i128 + b as i128;
    saturate(wide)
}

/// The exact product of two 64-bit numbers.
pub fn wide_product(a: i64, b: i64) -> (p: i128)
    ensures
        p == a * b,
{
    assert(-0x4000_0000_0000_0000_0000_0000_0000_0000 <= a * b
        <= 0x4000_0000_0000_0000_0000_0000_0000_0000) by (nonlinear_arith)
        requires
            -0x8000_0000_0000_0000 <= a <= 0x7fff_ffff_ffff_ffff,
            -0x8000_0000_0000_0000 <= b <= 0x7fff_ffff_ffff_ffff,
    ;
    (a as i128) * (b as i128)
}

} // verus!
