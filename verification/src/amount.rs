//! Exact decimal amounts. The arithmetic is done by `rust_decimal`.

use vstd::prelude::*;
use vstd::arithmetic::power::{lemma_pow0, pow};

verus! {

/// Largest magnitude of a mantissa: 2^96 - 1.
pub const MAX_MANTISSA: i128 = 0xFFFF_FFFF_FFFF_FFFF_FFFF_FFFF;

/// Largest number of fractional digits.
pub const MAX_SCALE: u32 = 28;

/// The number `mantissa / 10^scale`.
pub struct DecimalNumber {
    pub mantissa: int,
    pub scale: nat,
}

/// A decimal amount of money: a mantissa of at most 96 bits and a scale of
/// at most 28 fractional digits.
#[derive(Clone, Copy, Debug)]
pub struct Amount {
    mantissa: i128,
    scale: u32,
}

impl View for Amount {
    type V = DecimalNumber;

    closed spec fn view(&self) -> DecimalNumber {
        DecimalNumber { mantissa: self.mantissa as int, scale: self.scale as nat }
    }
}

/// Whether a mantissa and a scale are within the limits of an `Amount`.
pub open spec fn representable(mantissa: int, scale: nat) -> bool {
    &&& -MAX_MANTISSA <= mantissa <= MAX_MANTISSA
    &&& scale <= MAX_SCALE
}

/// `a < b` as numbers: both sides are brought to the common denominator
/// `10^(a.scale + b.scale)`.
pub open spec fn less_than(a: DecimalNumber, b: DecimalNumber) -> bool {
    a.mantissa * pow(10, b.scale) < b.mantissa * pow(10, a.scale)
}

impl Amount {
    #[verifier::type_invariant]
    spec fn within_limits(self) -> bool {
        representable(self.mantissa as int, self.scale as nat)
    }

    /// The amount `mantissa / 10^scale`, if it is within the limits.
    pub fn new(mantissa: i128, scale: u32) -> (r: Option<Amount>)
        ensures
            r is Some <==> representable(mantissa as int, scale as nat),
            r matches Some(a) ==> a@ == (DecimalNumber {
                mantissa: mantissa as int,
                scale: scale as nat,
            }),
    {
        if -MAX_MANTISSA <= mantissa && mantissa <= MAX_MANTISSA && scale <= MAX_SCALE {
            Some(Amount { mantissa, scale })
        } else {
            None
        }
    }

    /// Zero, with no fractional digits.
    pub fn zero() -> (r: Amount)
        ensures
            r@ == (DecimalNumber { mantissa: 0, scale: 0 }),
    {
        Amount { mantissa: 0, scale: 0 }
    }

    /// The mantissa: the amount times `10^scale`.
    pub fn mantissa(&self) -> (r: i128)
        ensures
            r == self@.mantissa,
            representable(self@.mantissa, self@.scale),
    {
        proof {
            use_type_invariant(self);
        }
        self.mantissa
    }

    /// The number of fractional digits.
    pub fn scale(&self) -> (r: u32)
        ensures
            r == self@.scale,
    {
        self.scale
    }

    /// Whether the amount is below zero.
    pub fn is_negative(&self) -> (r: bool)
        ensures
            r == (self@.mantissa < 0),
    {
        let r = decimal_lt(*self, Amount::zero());
        proof {
            lemma_pow0(10);
            assert(self@.mantissa * 1 == self@.mantissa);
            assert(0 * pow(10, self@.scale) == 0);
        }
        r
    }
}

/// The views of an optional amount.
pub open spec fn value_of(a: Option<Amount>) -> Option<DecimalNumber> {
    match a {
        Some(x) => Some(x@),
        None => None,
    }
}

/// What `rust_decimal` gives as `a + b`: `None` where it reports an overflow.
pub uninterp spec fn decimal_sum(a: DecimalNumber, b: DecimalNumber) -> Option<DecimalNumber>;

/// What `rust_decimal` gives as `a - b`: `None` where it reports an overflow.
pub uninterp spec fn decimal_difference(a: DecimalNumber, b: DecimalNumber) -> Option<
    DecimalNumber,
>;

/// Calls `rust_decimal::Decimal::checked_add` on the two amounts, each
/// handed over by its mantissa and scale, which cannot fail for an amount
/// within the limits. Two things are taken on trust:
/// that the sum is a function of the two operands, and that its mantissa
/// and scale, like those of every `Decimal`, are within the limits of an
/// amount.
#[verifier::external_body]
pub(crate) fn decimal_checked_add(a: Amount, b: Amount) -> (r: Option<Amount>)
    ensures
        value_of(r) == decimal_sum(a@, b@),
        r matches Some(sum) ==> representable(sum@.mantissa, sum@.scale),
{
    let x = rust_decimal::Decimal::from_i128_with_scale(a.mantissa, a.scale);
    let y = rust_decimal::Decimal::from_i128_with_scale(b.mantissa, b.scale);
    match x.checked_add(y) {
        Some(d) => Some(Amount { mantissa: d.mantissa(), scale: d.scale() }),
        None => None,
    }
}

/// Calls `rust_decimal::Decimal::checked_sub` on the two amounts, each
/// handed over by its mantissa and scale, which cannot fail for an amount
/// within the limits. Two things are taken on trust:
/// that the difference is a function of the two operands, and that its
/// mantissa and scale, like those of every `Decimal`, are within the limits
/// of an amount.
#[verifier::external_body]
pub(crate) fn decimal_checked_sub(a: Amount, b: Amount) -> (r: Option<Amount>)
    ensures
        value_of(r) == decimal_difference(a@, b@),
        r matches Some(difference) ==> representable(
            difference@.mantissa,
            difference@.scale,
        ),
{
    let x = rust_decimal::Decimal::from_i128_with_scale(a.mantissa, a.scale);
    let y = rust_decimal::Decimal::from_i128_with_scale(b.mantissa, b.scale);
    match x.checked_sub(y) {
        Some(d) => Some(Amount { mantissa: d.mantissa(), scale: d.scale() }),
        None => None,
    }
}

/// Calls the `<` of `rust_decimal::Decimal` on the two amounts, each handed
/// over by its mantissa and scale, which cannot fail for an amount within
/// the limits. Taken on trust: that `<` orders decimals as numbers,
/// whatever their scales.
#[verifier::external_body]
pub(crate) fn decimal_lt(a: Amount, b: Amount) -> (r: bool)
    ensures
        r == less_than(a@, b@),
{
    let x = rust_decimal::Decimal::from_i128_with_scale(a.mantissa, a.scale);
    let y = rust_decimal::Decimal::from_i128_with_scale(b.mantissa, b.scale);
    x < y
}

} // verus!
