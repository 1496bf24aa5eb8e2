//! Fixed-point multiplication and division with explicit rounding direction.
use soroban_fixed_point_math::FixedPoint;
use vstd::prelude::*;

verus! {

/// 7-decimal fixed-point unit (ratios, shares, emissions index).
pub const SCALAR_7: i128 = 10_000_000;

/// 9-decimal fixed-point unit (exchange rates, interest modifiers).
pub const SCALAR_9: i128 = 1_000_000_000;

pub open spec fn is_i128(v: int) -> bool {
    i128::MIN <= v <= i128::MAX
}

/// The mathematical floor of `a / b` (for `b != 0`).
pub open spec fn floor_div(a: int, b: int) -> int {
    if b > 0 {
        a / b
    } else {
        (-a) / (-b)
    }
}

/// The mathematical ceiling of `a / b` (for `b != 0`).
pub open spec fn ceil_div(a: int, b: int) -> int {
    -floor_div(-a, b)
}

/// floor(x * y / z), when every step of it fits an `i128`.
pub open spec fn mul_div_floor(x: int, y: int, z: int) -> Option<int> {
    if z != 0 && is_i128(x * y) && is_i128(floor_div(x * y, z)) {
        Some(floor_div(x * y, z))
    } else {
        None
    }
}

/// ceil(x * y / z), when every step of it fits an `i128`.
pub open spec fn mul_div_ceil(x: int, y: int, z: int) -> Option<int> {
    if z != 0 && is_i128(x * y) && is_i128(ceil_div(x * y, z)) {
        Some(ceil_div(x * y, z))
    } else {
        None
    }
}

/// Relies on `FixedPoint::fixed_mul_floor` for `i128`: floor(x * y / denominator),
/// or `None` when the product overflows, the denominator is zero or the quotient overflows.
#[verifier::external_body]
pub(crate) fn fixed_mul_floor(x: i128, y: i128, denominator: i128) -> (r: Option<i128>)
    ensures
        r matches Some(v) ==> mul_div_floor(x as int, y as int, denominator as int) == Some(v as int),
        r is None ==> mul_div_floor(x as int, y as int, denominator as int) is None,
{
    x.fixed_mul_floor(y, denominator)
}

/// Relies on `FixedPoint::fixed_mul_ceil` for `i128`: ceil(x * y / denominator),
/// or `None` when the product overflows, the denominator is zero or the quotient overflows.
#[verifier::external_body]
pub(crate) fn fixed_mul_ceil(x: i128, y: i128, denominator: i128) -> (r: Option<i128>)
    ensures
        r matches Some(v) ==> mul_div_ceil(x as int, y as int, denominator as int) == Some(v as int),
        r is None ==> mul_div_ceil(x as int, y as int, denominator as int) is None,
{
    x.fixed_mul_ceil(y, denominator)
}

/// Relies on `FixedPoint::fixed_div_floor` for `i128`: floor(x * denominator / y),
/// or `None` when the product overflows, `y` is zero or the quotient overflows.
#[verifier::external_body]
pub(crate) fn fixed_div_floor(x: i128, y: i128, denominator: i128) -> (r: Option<i128>)
    ensures
        r matches Some(v) ==> mul_div_floor(x as int, denominator as int, y as int) == Some(v as int),
        r is None ==> mul_div_floor(x as int, denominator as int, y as int) is None,
{
    x.fixed_div_floor(y, denominator)
}

/// Relies on `FixedPoint::fixed_div_ceil` for `i128`: ceil(x * denominator / y),
/// or `None` when the product overflows, `y` is zero or the quotient overflows.
#[verifier::external_body]
pub(crate) fn fixed_div_ceil(x: i128, y: i128, denominator: i128) -> (r: Option<i128>)
    ensures
        r matches Some(v) ==> mul_div_ceil(x as int, denominator as int, y as int) == Some(v as int),
        r is None ==> mul_div_ceil(x as int, denominator as int, y as int) is None,
{
    x.fixed_div_ceil(y, denominator)
}

} // verus!
