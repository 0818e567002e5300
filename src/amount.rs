use vstd::prelude::*;

verus! {

/// The largest magnitude of a mantissa: 96 bits.
pub const MAX_MANTISSA: i128 = 0xFFFF_FFFF_FFFF_FFFF_FFFF_FFFF;

/// The largest number of digits after the decimal point.
pub const MAX_SCALE: u32 = 28;

/// An exact base-10 fixed-point value: `mantissa / 10^scale`.
///
/// This is the plain-value form of a `rust_decimal::Decimal`; the arithmetic
/// on it is carried out by that crate.
#[derive(Clone, Copy, Debug, PartialEq, Eq, Structural)]
pub struct Amount {
    pub mantissa: i128,
    pub scale: u32,
}

impl Amount {
    /// Whether the value fits a decimal of 96 bits with at most 28 fraction digits.
    pub open spec fn wf(self) -> bool {
        &&& self.scale <= MAX_SCALE
        &&& -MAX_MANTISSA <= self.mantissa <= MAX_MANTISSA
    }

    pub open spec fn spec_zero() -> Amount {
        Amount { mantissa: 0, scale: 0 }
    }

    pub open spec fn spec_one() -> Amount {
        Amount { mantissa: 1, scale: 0 }
    }

    /// Whether the value is strictly greater than zero.
    pub open spec fn spec_positive(self) -> bool {
        self.mantissa > 0
    }

    pub fn zero() -> (r: Amount)
        ensures
            r == Amount::spec_zero(),
            r.wf(),
    {
        Amount { mantissa: 0, scale: 0 }
    }

    pub fn one() -> (r: Amount)
        ensures
            r == Amount::spec_one(),
            r.wf(),
    {
        Amount { mantissa: 1, scale: 0 }
    }

    /// The value `mantissa / 10^scale`, or `None` where it does not fit.
    pub fn new(mantissa: i128, scale: u32) -> (r: Option<Amount>)
        ensures
            r matches Some(a) ==> a == (Amount { mantissa, scale }),
            r is Some <==> (Amount { mantissa, scale }).wf(),
    {
        if scale <= MAX_SCALE && -MAX_MANTISSA <= mantissa && mantissa <= MAX_MANTISSA {
            Some(Amount { mantissa, scale })
        } else {
            None
        }
    }

    /// Whether the value is strictly greater than zero.
    pub fn is_positive(&self) -> (r: bool)
        ensures
            r == self.spec_positive(),
    {
        self.mantissa > 0
    }
}

/// What `Decimal::checked_add` returns for two values.
pub uninterp spec fn decimal_add(a: Amount, b: Amount) -> Option<Amount>;

/// What `Decimal::checked_sub` returns for two values.
pub uninterp spec fn decimal_sub(a: Amount, b: Amount) -> Option<Amount>;

/// What `Decimal::checked_mul` returns for two values.
pub uninterp spec fn decimal_mul(a: Amount, b: Amount) -> Option<Amount>;

/// Relies on rust_decimal's `Decimal::checked_add`: `None` on overflow, a
/// decimal (96-bit mantissa, scale at most 28) otherwise.
#[verifier::external_body]
pub(crate) fn checked_add(a: Amount, b: Amount) -> (r: Option<Amount>)
    requires
        a.wf(),
        b.wf(),
    ensures
        r == decimal_add(a, b),
        r matches Some(s) ==> s.wf(),
{
    let x = rust_decimal::Decimal::from_i128_with_scale(a.mantissa, a.scale);
    let y = rust_decimal::Decimal::from_i128_with_scale(b.mantissa, b.scale);
    match x.checked_add(y) {
        Some(d) => Some(Amount { mantissa: d.mantissa(), scale: d.scale() }),
        None => None,
    }
}

/// Relies on rust_decimal's `Decimal::checked_sub`: `None` on overflow, a
/// decimal (96-bit mantissa, scale at most 28) otherwise.
#[verifier::external_body]
pub(crate) fn checked_sub(a: Amount, b: Amount) -> (r: Option<Amount>)
    requires
        a.wf(),
        b.wf(),
    ensures
        r == decimal_sub(a, b),
        r matches Some(s) ==> s.wf(),
{
    let x = rust_decimal::Decimal::from_i128_with_scale(a.mantissa, a.scale);
    let y = rust_decimal::Decimal::from_i128_with_scale(b.mantissa, b.scale);
    match x.checked_sub(y) {
        Some(d) => Some(Amount { mantissa: d.mantissa(), scale: d.scale() }),
        None => None,
    }
}

/// Relies on rust_decimal's `Decimal::checked_mul`: `None` on overflow, a
/// decimal (96-bit mantissa, scale at most 28) otherwise.
#[verifier::external_body]
pub(crate) fn checked_mul(a: Amount, b: Amount) -> (r: Option<Amount>)
    requires
        a.wf(),
        b.wf(),
    ensures
        r == decimal_mul(a, b),
        r matches Some(s) ==> s.wf(),
{
    let x = rust_decimal::Decimal::from_i128_with_scale(a.mantissa, a.scale);
    let y = rust_decimal::Decimal::from_i128_with_scale(b.mantissa, b.scale);
    match x.checked_mul(y) {
        Some(d) => Some(Amount { mantissa: d.mantissa(), scale: d.scale() }),
        None => None,
    }
}

} // verus!
