//! Monetary amounts: signed fixed-point numbers with 14 fractional bits.
//!
//! An [`Amount`] holds the bit pattern of a `fixed::types::I50F14`. Its view is
//! that bit pattern as an integer, so the view counts units of 2<sup>-14</sup>.
//! Sums, differences and comparisons are computed by the `fixed` crate.

use fixed::traits::ToFixed;
use fixed::types::I50F14;
use vstd::prelude::*;

verus! {

/// Number of view units that make up the amount 1.
pub const SCALE: i64 = 16384;

/// A signed amount of money with 50 integer and 14 fractional bits.
#[derive(Clone, Copy, Debug, PartialEq, Eq, Structural)]
pub struct Amount {
    /// The amount multiplied by 2<sup>14</sup>.
    pub bits: i64,
}

impl View for Amount {
    type V = int;

    open spec fn view(&self) -> int {
        self.bits as int
    }
}

/// An integer number of units that an [`Amount`] can hold.
pub open spec fn representable(units: int) -> bool {
    i64::MIN <= units <= i64::MAX
}

/// `fixed`'s `Add` for `I50F14`: the bit patterns are added as `i64`. The sum
/// must fit, because the operator panics on overflow in a debug build.
#[verifier::external_body]
fn fixed_sum(a: i64, b: i64) -> (sum: i64)
    requires
        representable(a + b),
    ensures
        sum == a + b,
{
    (I50F14::from_bits(a) + I50F14::from_bits(b)).to_bits()
}

/// `fixed`'s `Sub` for `I50F14`: the bit patterns are subtracted as `i64`. The
/// difference must fit, because the operator panics on overflow in a debug
/// build.
#[verifier::external_body]
fn fixed_difference(a: i64, b: i64) -> (difference: i64)
    requires
        representable(a - b),
    ensures
        difference == a - b,
{
    (I50F14::from_bits(a) - I50F14::from_bits(b)).to_bits()
}

/// `fixed`'s `<=` between two `I50F14`: with equal fractional widths it orders
/// the numbers as it orders their bit patterns.
#[verifier::external_body]
fn fixed_at_most(a: i64, b: i64) -> (at_most: bool)
    ensures
        at_most == (a <= b),
{
    I50F14::from_bits(a) <= I50F14::from_bits(b)
}

/// `fixed`'s `ToFixed::to_fixed` from `i32` to `I50F14`: every `i32` fits in
/// the 50 integer bits, and the result is exact.
#[verifier::external_body]
fn fixed_from_int(n: i32) -> (bits: i64)
    ensures
        bits == n * SCALE,
{
    n.to_fixed::<I50F14>().to_bits()
}

impl Amount {
    /// The amount with the given bit pattern.
    pub fn from_bits(bits: i64) -> (amount: Amount)
        ensures
            amount@ == bits,
    {
        Amount { bits }
    }

    /// The bit pattern of the amount.
    pub fn to_bits(self) -> (bits: i64)
        ensures
            bits == self@,
    {
        self.bits
    }

    /// The amount that equals the whole number `n`.
    pub fn from_int(n: i32) -> (amount: Amount)
        ensures
            amount@ == n * SCALE,
    {
        Amount { bits: fixed_from_int(n) }
    }

    /// The sum of two amounts.
    pub fn plus(self, rhs: Amount) -> (sum: Amount)
        requires
            representable(self@ + rhs@),
        ensures
            sum@ == self@ + rhs@,
    {
        Amount { bits: fixed_sum(self.bits, rhs.bits) }
    }

    /// The difference of two amounts.
    pub fn minus(self, rhs: Amount) -> (difference: Amount)
        requires
            representable(self@ - rhs@),
        ensures
            difference@ == self@ - rhs@,
    {
        Amount { bits: fixed_difference(self.bits, rhs.bits) }
    }

    /// Whether `self` is no greater than `rhs`.
    pub fn at_most(self, rhs: Amount) -> (at_most: bool)
        ensures
            at_most == (self@ <= rhs@),
    {
        fixed_at_most(self.bits, rhs.bits)
    }

    /// Whether the sum of two amounts is an amount.
    pub fn can_plus(self, rhs: Amount) -> (fits: bool)
        ensures
            fits == representable(self@ + rhs@),
    {
        let sum: i128 = self.bits as i128 + rhs.bits as i128;
        i64::MIN as i128 <= sum && sum <= i64::MAX as i128
    }

    /// Whether the difference of two amounts is an amount.
    pub fn can_minus(self, rhs: Amount) -> (fits: bool)
        ensures
            fits == representable(self@ - rhs@),
    {
        let difference: i128 = self.bits as i128 - rhs.bits as i128;
        i64::MIN as i128 <= difference && difference <= i64::MAX as i128
    }
}

} // verus!
