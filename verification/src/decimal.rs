//! Decimal fixed-point numbers.
//!
//! A [`Dec`] stands for `mantissa / 10^scale`, with a mantissa of at most 96
//! bits and a scale of at most 28. This is exactly the set of values of
//! `rust_decimal::Decimal`, which performs all arithmetic on them: sums,
//! differences, products and quotients are rounded by that crate, so their
//! results are known here only by name. The order of two numbers is stated
//! exactly.

use vstd::prelude::*;
use vstd::arithmetic::power::pow;

verus! {

/// Largest magnitude of a mantissa: `2^96 - 1`.
pub const MAX_MANTISSA: i128 = 79_228_162_514_264_337_593_543_950_335;

/// Largest scale, that is, the largest number of digits after the decimal point.
pub const MAX_SCALE: u32 = 28;

/// The number `mantissa / 10^scale`.
#[derive(Clone, Copy, Debug)]
pub struct Dec {
    mantissa: i128,
    scale: u32,
}

/// What a [`Dec`] stands for: the number `mantissa / 10^scale`.
pub struct DecView {
    pub mantissa: int,
    pub scale: nat,
}

impl View for Dec {
    type V = DecView;

    closed spec fn view(&self) -> DecView {
        DecView { mantissa: self.mantissa as int, scale: self.scale as nat }
    }
}

impl DecView {
    /// The number one, written without decimals.
    pub open spec fn one() -> DecView {
        DecView { mantissa: 1, scale: 0 }
    }

    /// The number zero, written without decimals.
    pub open spec fn zero() -> DecView {
        DecView { mantissa: 0, scale: 0 }
    }

    /// Whether a [`Dec`] can hold this mantissa and scale.
    pub open spec fn representable(self) -> bool {
        &&& -MAX_MANTISSA <= self.mantissa <= MAX_MANTISSA
        &&& self.scale <= MAX_SCALE
    }

    /// `self < other` as numbers: both sides are brought to a common
    /// denominator, so `1.50 < 1.6` and neither `1.0 < 1.00` nor `1.00 < 1.0`.
    pub open spec fn lt(self, other: DecView) -> bool {
        self.mantissa * pow(10, other.scale) < other.mantissa * pow(10, self.scale)
    }

    /// `self <= other` as numbers.
    pub open spec fn le(self, other: DecView) -> bool {
        !other.lt(self)
    }

    /// The smaller of two numbers; `self` where they are equal as numbers.
    pub open spec fn min(self, other: DecView) -> DecView {
        if other.lt(self) {
            other
        } else {
            self
        }
    }
}

/// The sum that `rust_decimal` computes for two numbers, `None` where it
/// reports an overflow.
pub uninterp spec fn decimal_sum(a: DecView, b: DecView) -> Option<DecView>;

/// The difference that `rust_decimal` computes for two numbers, `None` where
/// it reports an overflow.
pub uninterp spec fn decimal_difference(a: DecView, b: DecView) -> Option<DecView>;

/// The product that `rust_decimal` computes for two numbers, `None` where it
/// reports an overflow.
pub uninterp spec fn decimal_product(a: DecView, b: DecView) -> Option<DecView>;

/// The quotient that `rust_decimal` computes for two numbers, `None` where the
/// divisor is zero or it reports an overflow.
pub uninterp spec fn decimal_quotient(a: DecView, b: DecView) -> Option<DecView>;

/// The view of an optional number.
pub open spec fn view_of(r: Option<Dec>) -> Option<DecView> {
    match r {
        Some(d) => Some(d@),
        None => None,
    }
}

impl Dec {
    #[verifier::type_invariant]
    spec fn in_range(self) -> bool {
        &&& -MAX_MANTISSA <= self.mantissa <= MAX_MANTISSA
        &&& self.scale <= MAX_SCALE
    }

    /// The number `mantissa / 10^scale`, or `None` where the mantissa needs
    /// more than 96 bits or the scale is over 28.
    pub fn new(mantissa: i128, scale: u32) -> (r: Option<Dec>)
        ensures
            r.is_some() <==> (DecView { mantissa: mantissa as int, scale: scale as nat }).representable(),
            r matches Some(d) ==> d@ == (DecView { mantissa: mantissa as int, scale: scale as nat }),
    {
        if -MAX_MANTISSA <= mantissa && mantissa <= MAX_MANTISSA && scale <= MAX_SCALE {
            Some(Dec { mantissa, scale })
        } else {
            None
        }
    }

    /// Zero.
    pub fn zero() -> (r: Dec)
        ensures
            r@ == DecView::zero(),
    {
        Dec { mantissa: 0, scale: 0 }
    }

    /// One.
    pub fn one() -> (r: Dec)
        ensures
            r@ == DecView::one(),
    {
        Dec { mantissa: 1, scale: 0 }
    }

    /// The mantissa: the number without its decimal point.
    pub fn mantissa(&self) -> (m: i128)
        ensures
            m == self@.mantissa,
            -MAX_MANTISSA <= m <= MAX_MANTISSA,
    {
        proof {
            use_type_invariant(self);
        }
        self.mantissa
    }

    /// The scale: the number of digits after the decimal point.
    pub fn scale(&self) -> (s: u32)
        ensures
            s == self@.scale,
            s <= MAX_SCALE,
    {
        proof {
            use_type_invariant(self);
        }
        self.scale
    }

    /// Adds with `rust_decimal::Decimal::checked_add`. The operands are handed
    /// over with `Decimal::from_i128_with_scale`, which takes every mantissa
    /// and scale that a `Dec` holds, and the sum is read back with
    /// `Decimal::mantissa` and `Decimal::scale`.
    ///
    /// Trusted, not proved: the result depends on the two operands alone, so
    /// it is the [`decimal_sum`] of their views, and it is `None` where the
    /// crate reports an overflow.
    #[verifier::external_body]
    pub(crate) fn checked_add(self, other: Dec) -> (r: Option<Dec>)
        ensures
            view_of(r) == decimal_sum(self@, other@),
    {
        let x = rust_decimal::Decimal::from_i128_with_scale(self.mantissa, self.scale);
        let y = rust_decimal::Decimal::from_i128_with_scale(other.mantissa, other.scale);
        match x.checked_add(y) {
            Some(z) => Some(Dec { mantissa: z.mantissa(), scale: z.scale() }),
            None => None,
        }
    }

    /// Subtracts with `rust_decimal::Decimal::checked_sub`, handing the
    /// operands over and reading the difference back as `checked_add` does.
    ///
    /// Trusted, not proved: the result depends on the two operands alone, so
    /// it is the [`decimal_difference`] of their views, and it is `None` where
    /// the crate reports an overflow.
    #[verifier::external_body]
    pub(crate) fn checked_sub(self, other: Dec) -> (r: Option<Dec>)
        ensures
            view_of(r) == decimal_difference(self@, other@),
    {
        let x = rust_decimal::Decimal::from_i128_with_scale(self.mantissa, self.scale);
        let y = rust_decimal::Decimal::from_i128_with_scale(other.mantissa, other.scale);
        match x.checked_sub(y) {
            Some(z) => Some(Dec { mantissa: z.mantissa(), scale: z.scale() }),
            None => None,
        }
    }

    /// Multiplies with `rust_decimal::Decimal::checked_mul`, handing the
    /// operands over and reading the product back as `checked_add` does.
    ///
    /// Trusted, not proved: the result depends on the two operands alone, so
    /// it is the [`decimal_product`] of their views, and it is `None` where
    /// the crate reports an overflow.
    #[verifier::external_body]
    pub(crate) fn checked_mul(self, other: Dec) -> (r: Option<Dec>)
        ensures
            view_of(r) == decimal_product(self@, other@),
    {
        let x = rust_decimal::Decimal::from_i128_with_scale(self.mantissa, self.scale);
        let y = rust_decimal::Decimal::from_i128_with_scale(other.mantissa, other.scale);
        match x.checked_mul(y) {
            Some(z) => Some(Dec { mantissa: z.mantissa(), scale: z.scale() }),
            None => None,
        }
    }

    /// Divides with `rust_decimal::Decimal::checked_div`, handing the
    /// operands over and reading the quotient back as `checked_add` does.
    ///
    /// Trusted, not proved: the result depends on the two operands alone, so
    /// it is the [`decimal_quotient`] of their views, and it is `None` where
    /// the divisor is zero or the crate reports an overflow.
    #[verifier::external_body]
    pub(crate) fn checked_div(self, other: Dec) -> (r: Option<Dec>)
        ensures
            view_of(r) == decimal_quotient(self@, other@),
    {
        let x = rust_decimal::Decimal::from_i128_with_scale(self.mantissa, self.scale);
        let y = rust_decimal::Decimal::from_i128_with_scale(other.mantissa, other.scale);
        match x.checked_div(y) {
            Some(z) => Some(Dec { mantissa: z.mantissa(), scale: z.scale() }),
            None => None,
        }
    }

    /// Compares with the `<` of `rust_decimal::Decimal`, handing the operands
    /// over as `checked_add` does.
    ///
    /// Trusted, not proved: the crate orders two decimals by the numbers they
    /// stand for, mantissa over ten to the power of the scale, also where
    /// their scales differ, and counts every zero as equal to every other.
    #[verifier::external_body]
    pub(crate) fn less_than(self, other: Dec) -> (r: bool)
        ensures
            r == self@.lt(other@),
    {
        let x = rust_decimal::Decimal::from_i128_with_scale(self.mantissa, self.scale);
        let y = rust_decimal::Decimal::from_i128_with_scale(other.mantissa, other.scale);
        x < y
    }

    /// Whether this number is greater than one.
    pub fn exceeds_one(self) -> (r: bool)
        ensures
            r == DecView::one().lt(self@),
    {
        Dec::one().less_than(self)
    }

    /// The smaller of two numbers; `self` where they are equal as numbers.
    pub fn min(self, other: Dec) -> (r: Dec)
        ensures
            r@ == self@.min(other@),
    {
        if other.less_than(self) {
            other
        } else {
            self
        }
    }
}

} // verus!
