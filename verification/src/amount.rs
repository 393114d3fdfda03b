//! Exact decimal amounts.
//!
//! An [`Amount`] is a mantissa `m` and a scale `e` that stand for the number `m / 10^e`,
//! with `|m| < 2^96` and `e <= 28`: the numbers that a `rust_decimal::Decimal` holds. Every
//! such number is a whole number of units of `10^-28`, and that whole number is the view of
//! the amount, so that contracts speak of amounts as integers.
//!
//! Amounts are compared as numbers: `1.0` and `1.00` are equal. They are added and
//! subtracted by `rust_decimal`, and a result is taken only after it has been checked here
//! to be the sum or the difference exactly. A result that was rounded, or that is missing,
//! is refused.

use crate::decimal::{decimal_checked_add, decimal_checked_sub, decimal_difference, decimal_sum};
use vstd::prelude::*;

verus! {

/// Largest magnitude of a mantissa: `2^96 - 1`.
pub const MAX_MANTISSA: i128 = 79_228_162_514_264_337_593_543_950_335i128;

/// Largest scale, the number of digits after the decimal point.
pub const MAX_SCALE: u32 = 28u32;

/// The number of `10^-28` units in one: `10^28`.
pub const UNITS_PER_ONE: i128 = 10_000_000_000_000_000_000_000_000_000i128;

/// `10^k`.
pub open spec fn pow10(k: nat) -> int
    decreases k,
{
    if k == 0 {
        1
    } else {
        10 * pow10((k - 1) as nat)
    }
}

/// Whether `mantissa` and `scale` are within the limits of a decimal.
pub open spec fn in_range(mantissa: i128, scale: u32) -> bool {
    -MAX_MANTISSA <= mantissa <= MAX_MANTISSA && scale <= MAX_SCALE
}

/// The number `mantissa / 10^scale` in units of `10^-28`.
pub open spec fn units(mantissa: i128, scale: u32) -> int
    recommends
        scale <= MAX_SCALE,
{
    mantissa * pow10((MAX_SCALE - scale) as nat)
}

/// A power of ten is at least one.
proof fn lemma_pow10_positive(k: nat)
    ensures
        pow10(k) >= 1,
    decreases k,
{
    if k > 0 {
        lemma_pow10_positive((k - 1) as nat);
    }
}

/// `10^(a + b) == 10^a * 10^b`.
proof fn lemma_pow10_product(a: nat, b: nat)
    ensures
        pow10(a + b) == pow10(a) * pow10(b),
    decreases a,
{
    if a > 0 {
        lemma_pow10_product((a - 1) as nat, b);
        assert(10 * (pow10((a - 1) as nat) * pow10(b)) == (10 * pow10((a - 1) as nat)) * pow10(b))
            by (nonlinear_arith);
    }
}

/// `10^28` is the number of units in one.
proof fn lemma_pow10_28()
    ensures
        pow10(28) == UNITS_PER_ONE,
{
    reveal_with_fuel(pow10, 29);
}

/// `10^k` for `k <= 28`.
fn power_of_ten(k: u32) -> (p: i128)
    requires
        k <= MAX_SCALE,
    ensures
        p == pow10(k as nat),
        1 <= p <= UNITS_PER_ONE,
{
    let mut p: i128 = 1;
    let mut i: u32 = 0;
    proof {
        lemma_pow10_28();
    }
    while i < k
        invariant
            i <= k <= MAX_SCALE,
            p == pow10(i as nat),
            p * pow10((MAX_SCALE - i) as nat) == UNITS_PER_ONE,
            p >= 1,
        decreases k - i,
    {
        proof {
            let next = pow10((MAX_SCALE - i - 1) as nat);
            lemma_pow10_positive((MAX_SCALE - i - 1) as nat);
            assert(p * (10 * next) == (p * 10) * next) by (nonlinear_arith);
            assert(p * 10 <= (p * 10) * next) by (nonlinear_arith)
                requires
                    p >= 1,
                    next >= 1,
            ;
        }
        p = p * 10;
        i = i + 1;
    }
    proof {
        lemma_pow10_positive((MAX_SCALE - k) as nat);
        let rest = pow10((MAX_SCALE - k) as nat);
        assert(p <= p * rest) by (nonlinear_arith)
            requires
                p >= 1,
                rest >= 1,
        ;
    }
    p
}

/// A decimal number `mantissa / 10^scale` within the limits.
#[derive(Clone, Copy, Debug)]
pub struct Amount {
    mantissa: i128,
    scale: u32,
}

impl View for Amount {
    type V = int;

    /// The amount in units of `10^-28`.
    closed spec fn view(&self) -> int {
        units(self.mantissa, self.scale)
    }
}

impl Amount {
    /// Whether mantissa and scale are within the limits, as they are in every amount that
    /// a program holds.
    #[verifier::type_invariant]
    pub closed spec fn within_limits(self) -> bool {
        in_range(self.mantissa, self.scale)
    }

    /// The mantissa.
    pub closed spec fn spec_mantissa(self) -> i128 {
        self.mantissa
    }

    /// The scale: the number of digits after the decimal point.
    pub closed spec fn spec_scale(self) -> u32 {
        self.scale
    }

    /// The view of an amount is the number of its mantissa and scale.
    pub proof fn lemma_view(self)
        ensures
            self@ == units(self.spec_mantissa(), self.spec_scale()),
    {
    }

    /// The amount `mantissa / 10^scale`, or `None` where the two are not within the limits.
    pub fn new(mantissa: i128, scale: u32) -> (r: Option<Amount>)
        ensures
            r is Some <==> in_range(mantissa, scale),
            r matches Some(a) ==> a == amount_of(mantissa, scale) && a.spec_mantissa() == mantissa
                && a.spec_scale() == scale && a.within_limits() && a@ == units(mantissa, scale),
    {
        if scale <= MAX_SCALE && -MAX_MANTISSA <= mantissa && mantissa <= MAX_MANTISSA {
            Some(Amount { mantissa, scale })
        } else {
            None
        }
    }

    /// Zero, with scale 0.
    pub fn zero() -> (r: Amount)
        ensures
            r == amount_of(0, 0),
            r@ == 0,
            r.spec_mantissa() == 0,
            r.spec_scale() == 0,
            r.within_limits(),
    {
        Amount { mantissa: 0, scale: 0 }
    }

    /// The mantissa.
    #[verifier::when_used_as_spec(spec_mantissa)]
    pub fn mantissa(self) -> (m: i128)
        ensures
            m == self.spec_mantissa(),
            -MAX_MANTISSA <= m <= MAX_MANTISSA,
    {
        proof {
            use_type_invariant(&self);
        }
        self.mantissa
    }

    /// The scale: the number of digits after the decimal point.
    #[verifier::when_used_as_spec(spec_scale)]
    pub fn scale(self) -> (e: u32)
        ensures
            e == self.spec_scale(),
            e <= MAX_SCALE,
    {
        proof {
            use_type_invariant(&self);
        }
        self.scale
    }

    /// The whole part of the amount, rounded down, and what is left above it in units
    /// of `10^-28`.
    fn split(self) -> (r: (i128, i128))
        ensures
            0 <= r.1 < UNITS_PER_ONE,
            r.0 * UNITS_PER_ONE + r.1 == self@,
            -MAX_MANTISSA - 1 <= r.0 <= MAX_MANTISSA,
    {
        proof {
            use_type_invariant(&self);
        }
        let d: i128 = power_of_ten(self.scale);
        let e: i128 = power_of_ten(MAX_SCALE - self.scale);
        let m: i128 = self.mantissa;
        let pair: (i128, i128) = if m >= 0 {
            proof {
                lemma_div_rem(m as int, d as int);
            }
            (m / d, m % d)
        } else {
            let n: i128 = -m;
            let q: i128 = n / d;
            let r: i128 = n % d;
            proof {
                lemma_div_rem(n as int, d as int);
            }
            if r == 0 {
                assert(m == (-q) * d) by (nonlinear_arith)
                    requires
                        -m == q * d,
                ;
                (-q, 0)
            } else {
                assert(m == (-q - 1) * d + (d - r)) by (nonlinear_arith)
                    requires
                        -m == q * d + r,
                ;
                (-q - 1, d - r)
            }
        };
        let whole: i128 = pair.0;
        let rem: i128 = pair.1;
        proof {
            lemma_pow10_28();
            lemma_pow10_product(self.scale as nat, (MAX_SCALE - self.scale) as nat);
            assert(0 <= rem * e < d * e) by (nonlinear_arith)
                requires
                    0 <= rem < d,
                    e >= 1,
            ;
            assert((whole * d + rem) * e == whole * (d * e) + rem * e) by (nonlinear_arith);
        }
        (whole, rem * e)
    }

    /// Whether `self` is the larger number.
    pub fn gt(self, other: Amount) -> (r: bool)
        ensures
            r == (self@ > other@),
    {
        let a = self.split();
        let b = other.split();
        proof {
            lemma_split_order(a.0 as int, a.1 as int, b.0 as int, b.1 as int);
            lemma_split_order(b.0 as int, b.1 as int, a.0 as int, a.1 as int);
        }
        a.0 > b.0 || (a.0 == b.0 && a.1 > b.1)
    }

    /// Whether the amount is below zero.
    pub fn is_negative(self) -> (r: bool)
        ensures
            r == (self@ < 0),
    {
        proof {
            use_type_invariant(&self);
            lemma_pow10_positive((MAX_SCALE - self.scale) as nat);
            let e = pow10((MAX_SCALE - self.scale) as nat);
            let m = self.mantissa as int;
            assert(m < 0 ==> m * e < 0) by (nonlinear_arith)
                requires
                    e >= 1,
            ;
            assert(m >= 0 ==> m * e >= 0) by (nonlinear_arith)
                requires
                    e >= 1,
            ;
        }
        self.mantissa < 0
    }

    /// Whether `self` is the sum of `a` and `b`.
    fn is_sum_of(self, a: Amount, b: Amount) -> (r: bool)
        ensures
            r == (self@ == a@ + b@),
    {
        let s = self.split();
        let x = a.split();
        let y = b.split();
        let low: i128 = x.1 + y.1;
        let whole: i128 = x.0 + y.0;
        proof {
            if low >= UNITS_PER_ONE {
                lemma_split_order(s.0 as int, s.1 as int, whole + 1, low - UNITS_PER_ONE);
                lemma_split_order(whole + 1, low - UNITS_PER_ONE, s.0 as int, s.1 as int);
            } else {
                lemma_split_order(s.0 as int, s.1 as int, whole as int, low as int);
                lemma_split_order(whole as int, low as int, s.0 as int, s.1 as int);
            }
            assert((whole + 1) * UNITS_PER_ONE + (low - UNITS_PER_ONE) == whole * UNITS_PER_ONE
                + low) by (nonlinear_arith);
            assert((x.0 + y.0) * UNITS_PER_ONE == x.0 * UNITS_PER_ONE + y.0 * UNITS_PER_ONE)
                by (nonlinear_arith);
        }
        if low >= UNITS_PER_ONE {
            s.0 == whole + 1 && s.1 == low - UNITS_PER_ONE
        } else {
            s.0 == whole && s.1 == low
        }
    }

    /// What is taken as the sum of `self` and `other` when `rust_decimal` has answered
    /// `candidate`: the amount that `candidate` holds if it is within the limits and is
    /// their sum exactly, and otherwise nothing.
    pub open spec fn accepted_sum(self, other: Amount, candidate: Option<(i128, u32)>) -> Option<
        Amount,
    > {
        match candidate {
            Some((m, e)) if in_range(m, e) && units(m, e) == self@ + other@ => Some(
                amount_of(m, e),
            ),
            _ => None,
        }
    }

    /// What is taken as the difference of `self` and `other` when `rust_decimal` has
    /// answered `candidate`.
    pub open spec fn accepted_difference(
        self,
        other: Amount,
        candidate: Option<(i128, u32)>,
    ) -> Option<Amount> {
        match candidate {
            Some((m, e)) if in_range(m, e) && units(m, e) == self@ - other@ => Some(
                amount_of(m, e),
            ),
            _ => None,
        }
    }

    /// The sum of `self` and `other`, where `rust_decimal` gives it exactly.
    pub open spec fn sum(self, other: Amount) -> Option<Amount> {
        self.accepted_sum(
            other,
            decimal_sum(
                self.spec_mantissa(),
                self.spec_scale(),
                other.spec_mantissa(),
                other.spec_scale(),
            ),
        )
    }

    /// The difference of `self` and `other`, where `rust_decimal` gives it exactly.
    pub open spec fn difference(self, other: Amount) -> Option<Amount> {
        self.accepted_difference(
            other,
            decimal_difference(
                self.spec_mantissa(),
                self.spec_scale(),
                other.spec_mantissa(),
                other.spec_scale(),
            ),
        )
    }

    /// Checks an answer of `rust_decimal` for the sum of `self` and `other`.
    pub fn accept_sum(self, other: Amount, candidate: Option<(i128, u32)>) -> (r: Option<Amount>)
        ensures
            r == self.accepted_sum(other, candidate),
            r matches Some(s) ==> s@ == self@ + other@ && s.within_limits(),
    {
        match candidate {
            Some((m, e)) => match Amount::new(m, e) {
                Some(s) => {
                    proof {
                        lemma_amount_of(s);
                    }
                    if s.is_sum_of(self, other) {
                        Some(s)
                    } else {
                        None
                    }
                },
                None => None,
            },
            None => None,
        }
    }

    /// Checks an answer of `rust_decimal` for the difference of `self` and `other`.
    pub fn accept_difference(self, other: Amount, candidate: Option<(i128, u32)>) -> (r: Option<
        Amount,
    >)
        ensures
            r == self.accepted_difference(other, candidate),
            r matches Some(d) ==> d@ == self@ - other@ && d.within_limits(),
    {
        match candidate {
            Some((m, e)) => match Amount::new(m, e) {
                Some(d) => {
                    proof {
                        lemma_amount_of(d);
                    }
                    if self.is_sum_of(d, other) {
                        Some(d)
                    } else {
                        None
                    }
                },
                None => None,
            },
            None => None,
        }
    }

    /// The sum of the two amounts as `rust_decimal` computes it, or `None` where it gives
    /// none or one that is not exact.
    pub fn checked_add(self, other: Amount) -> (r: Option<Amount>)
        ensures
            r == self.sum(other),
            r matches Some(s) ==> s@ == self@ + other@ && s.within_limits(),
    {
        proof {
            use_type_invariant(&self);
            use_type_invariant(&other);
        }
        let candidate = decimal_checked_add(
            self.mantissa,
            self.scale,
            other.mantissa,
            other.scale,
        );
        self.accept_sum(other, candidate)
    }

    /// The difference of the two amounts as `rust_decimal` computes it, or `None` where it
    /// gives none or one that is not exact.
    pub fn checked_sub(self, other: Amount) -> (r: Option<Amount>)
        ensures
            r == self.difference(other),
            r matches Some(d) ==> d@ == self@ - other@ && d.within_limits(),
    {
        proof {
            use_type_invariant(&self);
            use_type_invariant(&other);
        }
        let candidate = decimal_checked_sub(
            self.mantissa,
            self.scale,
            other.mantissa,
            other.scale,
        );
        self.accept_difference(other, candidate)
    }
}

/// Amounts are equal when they are the same number, whatever their scales: `1.0 == 1.00`.
impl PartialEq for Amount {
    fn eq(&self, other: &Amount) -> (r: bool) {
        let a = self.split();
        let b = other.split();
        proof {
            lemma_split_order(a.0 as int, a.1 as int, b.0 as int, b.1 as int);
            lemma_split_order(b.0 as int, b.1 as int, a.0 as int, a.1 as int);
        }
        a.0 == b.0 && a.1 == b.1
    }
}

impl vstd::std_specs::cmp::PartialEqSpecImpl for Amount {
    open spec fn obeys_eq_spec() -> bool {
        true
    }

    open spec fn eq_spec(&self, other: &Amount) -> bool {
        self@ == other@
    }
}

/// The amount with the given mantissa and scale.
pub closed spec fn amount_of(mantissa: i128, scale: u32) -> Amount {
    Amount { mantissa, scale }
}

/// An amount is the amount with its mantissa and scale.
pub proof fn lemma_amount_of(a: Amount)
    ensures
        amount_of(a.spec_mantissa(), a.spec_scale()) == a,
{
}

/// The amount with a given mantissa and scale has them, and their number as its view.
pub proof fn lemma_amount_of_parts(mantissa: i128, scale: u32)
    ensures
        amount_of(mantissa, scale).spec_mantissa() == mantissa,
        amount_of(mantissa, scale).spec_scale() == scale,
        amount_of(mantissa, scale)@ == units(mantissa, scale),
        amount_of(mantissa, scale).within_limits() == in_range(mantissa, scale),
{
}

/// A sum that is taken is the sum of the two numbers, and within the limits.
pub proof fn lemma_sum_is_exact(a: Amount, b: Amount)
    ensures
        a.sum(b) matches Some(s) ==> s@ == a@ + b@ && s.within_limits(),
{
}

/// A difference that is taken is the difference of the two numbers, and within the limits.
pub proof fn lemma_difference_is_exact(a: Amount, b: Amount)
    ensures
        a.difference(b) matches Some(d) ==> d@ == a@ - b@ && d.within_limits(),
{
}

/// Numbers written as `whole * 10^28 + rest` with `0 <= rest < 10^28` are ordered as
/// the pairs of whole and rest are.
proof fn lemma_split_order(w1: int, r1: int, w2: int, r2: int)
    requires
        0 <= r1 < UNITS_PER_ONE,
        0 <= r2 < UNITS_PER_ONE,
    ensures
        (w1 > w2 || (w1 == w2 && r1 > r2)) ==> w1 * UNITS_PER_ONE + r1 > w2 * UNITS_PER_ONE + r2,
        (w1 == w2 && r1 == r2) ==> w1 * UNITS_PER_ONE + r1 == w2 * UNITS_PER_ONE + r2,
{
    if w1 > w2 {
        assert(w1 * UNITS_PER_ONE >= w2 * UNITS_PER_ONE + UNITS_PER_ONE) by (nonlinear_arith)
            requires
                w1 >= w2 + 1,
        ;
    }
}

/// Division with remainder of a natural number: `n == (n / d) * d + n % d`, with the
/// quotient no larger than `n`.
proof fn lemma_div_rem(n: int, d: int)
    requires
        n >= 0,
        d >= 1,
    ensures
        n == (n / d) * d + n % d,
        0 <= n % d < d,
        0 <= n / d <= n,
{
    vstd::arithmetic::div_mod::lemma_fundamental_div_mod(n, d);
    vstd::arithmetic::div_mod::lemma_mod_bound(n, d);
    let q = n / d;
    let r = n % d;
    assert(d * q == q * d) by (nonlinear_arith);
    assert(0 <= q <= n) by (nonlinear_arith)
        requires
            n == q * d + r,
            0 <= r < d,
            d >= 1,
            n >= 0,
    ;
}

} // verus!
