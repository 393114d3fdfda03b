//! The two calls into `rust_decimal`.
//!
//! Decimals go in and come out as a mantissa and a scale. What a call returns is given a
//! name and nothing more is said of it here: [`crate::amount::Amount::accept_sum`] and
//! [`crate::amount::Amount::accept_difference`] decide what is taken.

use crate::amount::in_range;
use rust_decimal::Decimal;
use vstd::prelude::*;

verus! {

/// What `rust_decimal::Decimal::checked_add` returns for the decimals
/// `a_mantissa / 10^a_scale` and `b_mantissa / 10^b_scale`, as mantissa and scale.
pub uninterp spec fn decimal_sum(a_mantissa: i128, a_scale: u32, b_mantissa: i128, b_scale: u32)
    -> Option<(i128, u32)>;

/// What `rust_decimal::Decimal::checked_sub` returns for the decimals
/// `a_mantissa / 10^a_scale` and `b_mantissa / 10^b_scale`, as mantissa and scale.
pub uninterp spec fn decimal_difference(
    a_mantissa: i128,
    a_scale: u32,
    b_mantissa: i128,
    b_scale: u32,
) -> Option<(i128, u32)>;

/// Adds two decimals with `rust_decimal::Decimal::checked_add`.
///
/// Not proved: that the call gives the same answer whenever it is given the same two
/// decimals. Nothing is claimed of the answer itself. The two decimals have to be within
/// the limits, since `Decimal::from_i128_with_scale` panics on others.
#[verifier::external_body]
pub(crate) fn decimal_checked_add(
    a_mantissa: i128,
    a_scale: u32,
    b_mantissa: i128,
    b_scale: u32,
) -> (r: Option<(i128, u32)>)
    requires
        in_range(a_mantissa, a_scale),
        in_range(b_mantissa, b_scale),
    ensures
        r == decimal_sum(a_mantissa, a_scale, b_mantissa, b_scale),
{
    let a = Decimal::from_i128_with_scale(a_mantissa, a_scale);
    let b = Decimal::from_i128_with_scale(b_mantissa, b_scale);
    match a.checked_add(b) {
        Some(s) => Some((s.mantissa(), s.scale())),
        None => None,
    }
}

/// Subtracts two decimals with `rust_decimal::Decimal::checked_sub`.
///
/// Not proved: that the call gives the same answer whenever it is given the same two
/// decimals. Nothing is claimed of the answer itself. The two decimals have to be within
/// the limits, since `Decimal::from_i128_with_scale` panics on others.
#[verifier::external_body]
pub(crate) fn decimal_checked_sub(
    a_mantissa: i128,
    a_scale: u32,
    b_mantissa: i128,
    b_scale: u32,
) -> (r: Option<(i128, u32)>)
    requires
        in_range(a_mantissa, a_scale),
        in_range(b_mantissa, b_scale),
    ensures
        r == decimal_difference(a_mantissa, a_scale, b_mantissa, b_scale),
{
    let a = Decimal::from_i128_with_scale(a_mantissa, a_scale);
    let b = Decimal::from_i128_with_scale(b_mantissa, b_scale);
    match a.checked_sub(b) {
        Some(d) => Some((d.mantissa(), d.scale())),
        None => None,
    }
}

} // verus!
