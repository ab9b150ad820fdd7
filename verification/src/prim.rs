//! The primitive integers that an extended integer is built on.
//!
//! Every such type is described by the mathematical integer that a value
//! stands for and by the closed range of integers that the type can hold.
//! The checked operations are those of `num_traits`; what they return is
//! stated over that model.

use vstd::prelude::*;

verus! {

/// Integer division that rounds toward zero, as the machine integers divide.
/// The divisor is expected to be non-zero. (On `int`, `/` rounds so that the
/// remainder is never negative; the two agree for a dividend that is not
/// negative.)
pub open spec fn trunc_div(x: int, d: int) -> int {
    if x >= 0 {
        x / d
    } else {
        -((-x) / d)
    }
}

/// The remainder that goes with [`trunc_div`]: it has the sign of the
/// dividend.
pub open spec fn trunc_rem(x: int, d: int) -> int {
    if x >= 0 {
        x % d
    } else {
        -((-x) % d)
    }
}

/// Division on `int`: quotient and remainder make up the dividend, and the
/// remainder is not negative and smaller in magnitude than the divisor.
proof fn lemma_int_div_rem(y: int, d: int)
    by (nonlinear_arith)
    requires
        d != 0,
    ensures
        y == d * (y / d) + y % d,
        0 <= y % d,
        d > 0 ==> y % d < d,
        d < 0 ==> y % d < -d,
{
}

/// What makes [`trunc_div`] and [`trunc_rem`] the division that rounds toward
/// zero: quotient and remainder make up the dividend, and the remainder is
/// smaller in magnitude than the divisor and never of the opposite sign to the
/// dividend.
pub proof fn lemma_trunc_div_rem(x: int, d: int)
    requires
        d != 0,
    ensures
        x == d * trunc_div(x, d) + trunc_rem(x, d),
        x >= 0 ==> 0 <= trunc_rem(x, d),
        x <= 0 ==> trunc_rem(x, d) <= 0,
        d > 0 ==> -d < trunc_rem(x, d) < d,
        d < 0 ==> d < trunc_rem(x, d) < -d,
{
    if x >= 0 {
        lemma_int_div_rem(x, d);
        if x == 0 {
            let q = 0int / d;
            let r = 0int % d;
            assert(r == 0) by (nonlinear_arith)
                requires
                    0 == d * q + r,
                    0 <= r,
                    d > 0 ==> r < d,
                    d < 0 ==> r < -d,
            ;
        }
    } else {
        lemma_int_div_rem(-x, d);
        let q = (-x) / d;
        assert(d * (-q) == -(d * q)) by (nonlinear_arith);
    }
}

/// A primitive integer type with range-checked arithmetic.
pub trait CheckedPrim: Copy {
    /// The mathematical integer that the value stands for.
    spec fn as_int(self) -> int;

    /// The value that stands for `i`; meaningful for `i` within the range of
    /// the type.
    spec fn from_int(i: int) -> Self;

    /// The least integer that the type holds.
    spec fn min_int() -> int;

    /// The greatest integer that the type holds.
    spec fn max_int() -> int;

    /// Zero and one lie within the range of the type.
    proof fn lemma_range()
        ensures
            Self::min_int() <= 0,
            1 <= Self::max_int(),
    ;

    /// A value stands for an integer within the range, and for no other value.
    proof fn lemma_as_int(x: Self)
        ensures
            Self::min_int() <= x.as_int() <= Self::max_int(),
            Self::from_int(x.as_int()) == x,
    ;

    /// Every integer within the range is the meaning of some value.
    proof fn lemma_from_int(i: int)
        requires
            Self::min_int() <= i <= Self::max_int(),
        ensures
            Self::from_int(i).as_int() == i,
    ;

    /// The number 0.
    fn zero() -> (r: Self)
        ensures
            r.as_int() == 0,
    ;

    /// Whether the number is 0.
    fn is_zero(&self) -> (b: bool)
        ensures
            b == (self.as_int() == 0),
    ;

    /// The number 1.
    fn one() -> (r: Self)
        ensures
            r.as_int() == 1,
    ;

    /// Whether the number is 1.
    fn is_one(&self) -> (b: bool)
        ensures
            b == (self.as_int() == 1),
    ;

    /// The sum, or nothing where it is out of the range of the type.
    fn checked_add(&self, v: &Self) -> (r: Option<Self>)
        ensures
            match r {
                Some(z) => z.as_int() == self.as_int() + v.as_int(),
                None => !(Self::min_int() <= self.as_int() + v.as_int() <= Self::max_int()),
            },
    ;

    /// The difference, or nothing where it is out of the range of the type.
    fn checked_sub(&self, v: &Self) -> (r: Option<Self>)
        ensures
            match r {
                Some(z) => z.as_int() == self.as_int() - v.as_int(),
                None => !(Self::min_int() <= self.as_int() - v.as_int() <= Self::max_int()),
            },
    ;

    /// The product, or nothing where it is out of the range of the type.
    fn checked_mul(&self, v: &Self) -> (r: Option<Self>)
        ensures
            match r {
                Some(z) => z.as_int() == self.as_int() * v.as_int(),
                None => !(Self::min_int() <= self.as_int() * v.as_int() <= Self::max_int()),
            },
    ;

    /// The quotient rounded toward zero, or nothing where the divisor is 0
    /// or the quotient is out of the range of the type.
    fn checked_div(&self, v: &Self) -> (r: Option<Self>)
        ensures
            match r {
                Some(z) => v.as_int() != 0 && z.as_int() == trunc_div(self.as_int(), v.as_int()),
                None => v.as_int() == 0 || !(Self::min_int() <= trunc_div(
                    self.as_int(),
                    v.as_int(),
                ) <= Self::max_int()),
            },
    ;

    /// The remainder of the division that rounds toward zero. The divisor
    /// must not be 0, and the quotient must be within the range of the type.
    fn rem(self, v: Self) -> (r: Self)
        requires
            v.as_int() != 0,
            Self::min_int() <= trunc_div(self.as_int(), v.as_int()) <= Self::max_int(),
        ensures
            r.as_int() == trunc_rem(self.as_int(), v.as_int()),
    ;
}

/// A primitive integer type that holds negative numbers.
pub trait SignedPrim: CheckedPrim {
    /// The number -1 lies within the range of the type.
    proof fn lemma_signed()
        ensures
            Self::min_int() <= -1,
    ;

    /// Whether the number is greater than 0.
    fn is_positive(&self) -> (b: bool)
        ensures
            b == (self.as_int() > 0),
    ;

    /// Whether the number is less than 0.
    fn is_negative(&self) -> (b: bool)
        ensures
            b == (self.as_int() < 0),
    ;

    /// The number with the opposite sign, which must be within the range of
    /// the type.
    fn neg(self) -> (r: Self)
        requires
            Self::min_int() <= -self.as_int() <= Self::max_int(),
        ensures
            r.as_int() == -self.as_int(),
    ;
}

/// A primitive integer type that holds no negative number.
pub trait UnsignedPrim: CheckedPrim {
    /// The least number of the type is 0.
    proof fn lemma_unsigned()
        ensures
            Self::min_int() == 0,
    ;
}

} // verus!
