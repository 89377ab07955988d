//! The fixed-point arithmetic of the `fixed_point_math` crate, as the pool
//! uses it on `i128` values.
use fixed_point_math::FixedPoint;
use fixed_point_math::STROOP;
use vstd::prelude::*;

use crate::arith::fits_i128;

verus! {

/// floor(x * y / z) for a positive `z`.
pub open spec fn mul_div_floor(x: int, y: int, z: int) -> int {
    (x * y) / z
}

/// ceil(x * y / z) for a positive `z`.
pub open spec fn mul_div_ceil(x: int, y: int, z: int) -> int {
    -((-(x * y)) / z)
}

/// A quotient by a positive divisor lies between zero and the dividend.
pub proof fn lemma_div_range(p: int, z: int)
    requires
        z > 0,
    ensures
        p >= 0 ==> 0 <= p / z <= p,
        p < 0 ==> p <= p / z < 0,
{
    assert(p >= 0 ==> 0 <= p / z <= p) by (nonlinear_arith)
        requires
            z > 0,
    ;
    assert(p < 0 ==> p <= p / z < 0) by (nonlinear_arith)
        requires
            z > 0,
    ;
}

/// Both roundings of a representable product by a positive divisor are
/// representable, and they differ by at most one.
pub proof fn lemma_mul_div_fits(x: int, y: int, z: int)
    requires
        fits_i128(x * y),
        z > 0,
    ensures
        fits_i128(mul_div_floor(x, y, z)),
        fits_i128(mul_div_ceil(x, y, z)),
        mul_div_floor(x, y, z) <= mul_div_ceil(x, y, z) <= mul_div_floor(x, y, z) + 1,
        x * y >= 0 ==> 0 <= mul_div_floor(x, y, z),
        x * y >= 0 ==> mul_div_ceil(x, y, z) <= x * y,
{
    let p = x * y;
    lemma_div_range(p, z);
    lemma_div_range(-p, z);
    assert((-p) / z == -(p / z) || (-p) / z == -(p / z) - 1) by (nonlinear_arith)
        requires
            z > 0,
    ;
}

/// The number of stroops in one unit of a Stellar asset.
pub open spec fn stroop_spec() -> int {
    10_000_000
}

/// `fixed_point_math::STROOP` as an `i128`.
///
/// Trusted: the crate defines `STROOP` as the `u64` literal `1_0000000`.
#[verifier::external_body]
pub(crate) fn stroop() -> (r: i128)
    ensures
        r == stroop_spec(),
{
    STROOP as i128
}

/// `<i128 as FixedPoint>::fixed_mul_floor(x, y, denominator)`.
///
/// Trusted: the crate multiplies with `checked_mul` (so the call gives `None`
/// when `x * y` leaves the `i128` range), gives `None` for a zero
/// denominator, and for a positive denominator rounds the quotient toward
/// minus infinity. What it gives for a negative denominator is left unsaid.
#[verifier::external_body]
pub(crate) fn fixed_mul_floor(x: i128, y: i128, denominator: i128) -> (r: Option<i128>)
    ensures
        !fits_i128(x * y) ==> r is None,
        denominator == 0 ==> r is None,
        fits_i128(x * y) && denominator > 0 ==> r == Some(mul_div_floor(x as int, y as int, denominator as int) as i128),
{
    x.fixed_mul_floor(y, denominator)
}

/// `<i128 as FixedPoint>::fixed_mul_ceil(x, y, denominator)`.
///
/// Trusted: as `fixed_mul_floor`, with the quotient rounded toward plus
/// infinity for a positive denominator. What it gives for a negative
/// denominator is left unsaid.
#[verifier::external_body]
pub(crate) fn fixed_mul_ceil(x: i128, y: i128, denominator: i128) -> (r: Option<i128>)
    ensures
        !fits_i128(x * y) ==> r is None,
        denominator == 0 ==> r is None,
        fits_i128(x * y) && denominator > 0 ==> r == Some(mul_div_ceil(x as int, y as int, denominator as int) as i128),
{
    x.fixed_mul_ceil(y, denominator)
}

/// `<i128 as FixedPoint>::fixed_div_floor(x, y, denominator)`, which the
/// crate computes as floor(x * denominator / y).
///
/// Trusted: `None` when `x * denominator` leaves the `i128` range or `y` is
/// zero; for a positive `y` the quotient rounded toward minus infinity. What
/// it gives for a negative `y` is left unsaid.
#[verifier::external_body]
pub(crate) fn fixed_div_floor(x: i128, y: i128, denominator: i128) -> (r: Option<i128>)
    ensures
        !fits_i128(x * denominator) ==> r is None,
        y == 0 ==> r is None,
        fits_i128(x * denominator) && y > 0 ==> r == Some(mul_div_floor(x as int, denominator as int, y as int) as i128),
{
    x.fixed_div_floor(y, denominator)
}

/// `<i128 as FixedPoint>::fixed_div_ceil(x, y, denominator)`, which the
/// crate computes as ceil(x * denominator / y).
///
/// Trusted: `None` when `x * denominator` leaves the `i128` range or `y` is
/// zero; for a positive `y` the quotient rounded toward plus infinity. What
/// it gives for a negative `y` is left unsaid.
#[verifier::external_body]
pub(crate) fn fixed_div_ceil(x: i128, y: i128, denominator: i128) -> (r: Option<i128>)
    ensures
        !fits_i128(x * denominator) ==> r is None,
        y == 0 ==> r is None,
        fits_i128(x * denominator) && y > 0 ==> r == Some(mul_div_ceil(x as int, denominator as int, y as int) as i128),
{
    x.fixed_div_ceil(y, denominator)
}

} // verus!
