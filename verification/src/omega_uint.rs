//! Natural numbers extended by one infinity.
//!
//! Multiplication is commutative here: the infinity times a number that is
//! not zero is the infinity on either side, and the product of zero and the
//! infinity has no meaning on either side. A sum or a product of two numbers
//! that is out of the range of the underlying type has no result; it does
//! not become the infinity.

use crate::failure::Failure;
use crate::prim::{CheckedPrim, UnsignedPrim};
use vstd::prelude::*;

verus! {

/// Types that hold an infinity.
pub trait Omega: Sized {
    /// Whether the value is the infinity.
    spec fn is_omega_spec(&self) -> bool;

    /// Whether the value is the infinity.
    fn is_omega(&self) -> (b: bool)
        ensures
            b == self.is_omega_spec(),
    ;

    /// The infinity.
    fn omega() -> (r: Self)
        ensures
            r.is_omega_spec(),
    ;

    /// Makes the value the infinity.
    fn set_omega(&mut self)
        ensures
            final(self).is_omega_spec(),
    {
        *self = Self::omega();
    }
}

/// A natural number of type `N`, or the infinity.
#[derive(PartialEq, Debug)]
pub enum OmegaUInt<N> {
    /// A natural number.
    Natural(N),
    /// The infinity.
    Omega,
}

impl<N: Copy> Copy for OmegaUInt<N> {

}

impl<N: Copy> Clone for OmegaUInt<N> {
    fn clone(&self) -> (r: Self)
        ensures
            r == *self,
    {
        *self
    }
}

impl<N> Omega for OmegaUInt<N> {
    open spec fn is_omega_spec(&self) -> bool {
        self is Omega
    }

    fn is_omega(&self) -> (b: bool) {
        match self {
            OmegaUInt::Omega => true,
            _ => false,
        }
    }

    fn omega() -> (r: Self)
        ensures
            r == OmegaUInt::<N>::Omega,
    {
        OmegaUInt::Omega
    }
}

/// The mathematical value of an extended natural number: a natural number
/// of any size or the infinity.
pub enum ExtNat {
    /// A natural number.
    Finite(nat),
    /// The infinity.
    Infinity,
}

/// The sum. The infinity absorbs every number and itself.
pub open spec fn nat_add(a: ExtNat, b: ExtNat) -> Result<ExtNat, Failure> {
    match (a, b) {
        (ExtNat::Finite(x), ExtNat::Finite(y)) => Ok(ExtNat::Finite(x + y)),
        _ => Ok(ExtNat::Infinity),
    }
}

/// The difference. The infinity less a number is the infinity; nothing can
/// be had by taking the infinity away, and a number less a greater one is
/// no natural number.
pub open spec fn nat_sub(a: ExtNat, b: ExtNat) -> Result<ExtNat, Failure> {
    match (a, b) {
        (ExtNat::Finite(x), ExtNat::Finite(y)) => if y <= x {
            Ok(ExtNat::Finite((x - y) as nat))
        } else {
            Err(Failure::Overflow)
        },
        (ExtNat::Infinity, ExtNat::Finite(_)) => Ok(ExtNat::Infinity),
        _ => Err(Failure::IndeterminateForm),
    }
}

/// The product. The infinity times a number that is not zero, or times
/// itself, is the infinity; the product of zero and the infinity has no
/// meaning.
pub open spec fn nat_mul(a: ExtNat, b: ExtNat) -> Result<ExtNat, Failure> {
    match (a, b) {
        (ExtNat::Finite(x), ExtNat::Finite(y)) => Ok(ExtNat::Finite(x * y)),
        _ => if a == ExtNat::Finite(0) || b == ExtNat::Finite(0) {
            Err(Failure::IndeterminateForm)
        } else {
            Ok(ExtNat::Infinity)
        },
    }
}

/// The quotient. The infinity divided by a number is the infinity; a number
/// divided by the infinity is zero; division of a number by zero and of the
/// infinity by itself have no meaning. Numbers divide with rounding down.
pub open spec fn nat_div(a: ExtNat, b: ExtNat) -> Result<ExtNat, Failure> {
    match (a, b) {
        (ExtNat::Finite(x), ExtNat::Finite(y)) => if y == 0 {
            Err(Failure::IndeterminateForm)
        } else {
            Ok(ExtNat::Finite(x / y))
        },
        (ExtNat::Infinity, ExtNat::Finite(_)) => Ok(ExtNat::Infinity),
        (ExtNat::Finite(_), ExtNat::Infinity) => Ok(ExtNat::Finite(0)),
        _ => Err(Failure::IndeterminateForm),
    }
}

/// The remainder. It is asked of two numbers only, and the divisor must not
/// be zero.
pub open spec fn nat_rem(a: ExtNat, b: ExtNat) -> Result<ExtNat, Failure> {
    match (a, b) {
        (ExtNat::Finite(x), ExtNat::Finite(y)) => if y == 0 {
            Err(Failure::IndeterminateForm)
        } else {
            Ok(ExtNat::Finite(x % y))
        },
        _ => Err(Failure::ContractViolation),
    }
}

/// What a checked operation makes of the exact result `e` where the numbers
/// up to `hi` can be held.
pub open spec fn nat_outcome(e: Result<ExtNat, Failure>, hi: int) -> Result<ExtNat, Failure> {
    match e {
        Ok(ExtNat::Finite(x)) => if x <= hi {
            Ok(ExtNat::Finite(x))
        } else {
            Err(Failure::Overflow)
        },
        _ => e,
    }
}

impl<N: UnsignedPrim> View for OmegaUInt<N> {
    type V = ExtNat;

    open spec fn view(&self) -> ExtNat {
        match self {
            OmegaUInt::Natural(x) => ExtNat::Finite(x.as_int() as nat),
            OmegaUInt::Omega => ExtNat::Infinity,
        }
    }
}

impl<N: UnsignedPrim> OmegaUInt<N> {
    /// The value that stands for `e`; meaningful where `e` is the infinity or
    /// a number within the range of `N`.
    pub open spec fn from_ext(e: ExtNat) -> Self {
        match e {
            ExtNat::Finite(x) => OmegaUInt::Natural(N::from_int(x as int)),
            ExtNat::Infinity => OmegaUInt::Omega,
        }
    }

    /// What a checked operation with the exact result `e` makes of it, and
    /// why it returns nothing where it does.
    pub open spec fn outcome(e: Result<ExtNat, Failure>) -> Result<ExtNat, Failure> {
        nat_outcome(e, N::max_int())
    }

    /// What a checked operation with the exact result `e` returns.
    pub open spec fn checked(e: Result<ExtNat, Failure>) -> Option<Self> {
        match Self::outcome(e) {
            Ok(x) => Some(Self::from_ext(x)),
            Err(_) => None,
        }
    }

    /// What an operation with the exact result `e` gives when it is asked to
    /// say why it has no result.
    pub open spec fn tried(e: Result<ExtNat, Failure>) -> Result<Self, Failure> {
        match Self::outcome(e) {
            Ok(x) => Ok(Self::from_ext(x)),
            Err(f) => Err(f),
        }
    }

    /// A value is known by what it stands for.
    pub proof fn lemma_view(x: Self)
        ensures
            Self::from_ext(x@) == x,
            Self::outcome(Ok(x@)) == Ok::<ExtNat, Failure>(x@),
            Self::checked(Ok(x@)) == Some(x),
            x matches OmegaUInt::Natural(n) ==> 0 <= n.as_int() <= N::max_int(),
    {
        match x {
            OmegaUInt::Natural(n) => {
                N::lemma_as_int(n);
                N::lemma_unsigned();
            },
            _ => {},
        }
    }

    /// What a checked operation returns stands for the exact result.
    pub proof fn lemma_checked(e: Result<ExtNat, Failure>)
        ensures
            Self::checked(e) matches Some(x) ==> e == Ok::<ExtNat, Failure>(x@),
    {
        match e {
            Ok(ExtNat::Finite(i)) => {
                N::lemma_unsigned();
                if i <= N::max_int() {
                    N::lemma_from_int(i as int);
                }
            },
            _ => {},
        }
    }
}

/// What [`omega_uint_chkd_op`] returns: the value that is given for the case
/// at hand, or what `op` makes of the two numbers.
pub open spec fn chkd_op_returns<N: UnsignedPrim, F: Fn(&N, &N) -> Option<N>>(
    lhs: OmegaUInt<N>,
    rhs: OmegaUInt<N>,
    op: F,
    value_if_only_lhs_omega: Option<OmegaUInt<N>>,
    value_if_only_rhs_omega: Option<OmegaUInt<N>>,
    value_if_lhs_rhs_omega: Option<OmegaUInt<N>>,
    chk_zero: bool,
    value_if_only_lhs_zero: Option<OmegaUInt<N>>,
    value_if_only_rhs_zero: Option<OmegaUInt<N>>,
    value_if_lhs_rhs_zero: Option<OmegaUInt<N>>,
    value_if_op_overflow: Option<OmegaUInt<N>>,
    r: Option<OmegaUInt<N>>,
) -> bool {
    match (lhs, rhs) {
        (OmegaUInt::Omega, OmegaUInt::Natural(_)) => r == value_if_only_lhs_omega,
        (OmegaUInt::Natural(_), OmegaUInt::Omega) => r == value_if_only_rhs_omega,
        (OmegaUInt::Omega, OmegaUInt::Omega) => r == value_if_lhs_rhs_omega,
        (OmegaUInt::Natural(x), OmegaUInt::Natural(y)) => {
            if chk_zero && x.as_int() == 0 && y.as_int() != 0 {
                r == value_if_only_lhs_zero
            } else if chk_zero && x.as_int() != 0 && y.as_int() == 0 {
                r == value_if_only_rhs_zero
            } else if chk_zero && x.as_int() == 0 && y.as_int() == 0 {
                r == value_if_lhs_rhs_zero
            } else {
                exists|o: Option<N>|
                    call_ensures(op, (&x, &y), o) && r == match o {
                        Some(z) => Some(OmegaUInt::Natural(z)),
                        None => value_if_op_overflow,
                    }
            }
        },
    }
}

/// The common course of a checked operation: for each way in which an
/// operand is the infinity, and, where `chk_zero` is set, for each way in
/// which an operand is zero, the value to return is given; else `op` works
/// on the two numbers, and where it has no result, `value_if_op_overflow` is
/// returned.
pub fn omega_uint_chkd_op<N: UnsignedPrim, F: Fn(&N, &N) -> Option<N>>(
    lhs: &OmegaUInt<N>,
    rhs: &OmegaUInt<N>,
    op: F,
    value_if_only_lhs_omega: Option<OmegaUInt<N>>,
    value_if_only_rhs_omega: Option<OmegaUInt<N>>,
    value_if_lhs_rhs_omega: Option<OmegaUInt<N>>,
    chk_zero: bool,
    value_if_only_lhs_zero: Option<OmegaUInt<N>>,
    value_if_only_rhs_zero: Option<OmegaUInt<N>>,
    value_if_lhs_rhs_zero: Option<OmegaUInt<N>>,
    value_if_op_overflow: Option<OmegaUInt<N>>,
) -> (r: Option<OmegaUInt<N>>)
    requires
        forall|x: N, y: N|
            lhs == OmegaUInt::Natural(x) && rhs == OmegaUInt::Natural(y) && !(chk_zero && (
            x.as_int() == 0 || y.as_int() == 0)) ==> call_requires(op, (&x, &y)),
    ensures
        chkd_op_returns(
            *lhs,
            *rhs,
            op,
            value_if_only_lhs_omega,
            value_if_only_rhs_omega,
            value_if_lhs_rhs_omega,
            chk_zero,
            value_if_only_lhs_zero,
            value_if_only_rhs_zero,
            value_if_lhs_rhs_zero,
            value_if_op_overflow,
            r,
        ),
{
    let is_lhs_omega = match lhs {
        OmegaUInt::Omega => true,
        OmegaUInt::Natural(_) => false,
    };
    let is_rhs_omega = match rhs {
        OmegaUInt::Omega => true,
        OmegaUInt::Natural(_) => false,
    };
    if is_lhs_omega && !is_rhs_omega {
        return value_if_only_lhs_omega;
    }
    if !is_lhs_omega && is_rhs_omega {
        return value_if_only_rhs_omega;
    }
    if is_lhs_omega && is_rhs_omega {
        return value_if_lhs_rhs_omega;
    }
    let lhs_value = match lhs {
        OmegaUInt::Natural(x) => x,
        OmegaUInt::Omega => unreached(),
    };
    let rhs_value = match rhs {
        OmegaUInt::Natural(x) => x,
        OmegaUInt::Omega => unreached(),
    };
    if chk_zero {
        if lhs_value.is_zero() && !rhs_value.is_zero() {
            return value_if_only_lhs_zero;
        }
        if !lhs_value.is_zero() && rhs_value.is_zero() {
            return value_if_only_rhs_zero;
        }
        if lhs_value.is_zero() && rhs_value.is_zero() {
            return value_if_lhs_rhs_zero;
        }
    }
    let res = match op(lhs_value, rhs_value) {
        Some(x) => OmegaUInt::Natural(x),
        None => return value_if_op_overflow,
    };
    return Some(res);
}

impl<N: UnsignedPrim> OmegaUInt<N> {
    /// Whether the value is the number 0; the infinity is not.
    pub fn is_zero(&self) -> (b: bool)
        ensures
            b == (self@ == ExtNat::Finite(0)),
    {
        proof {
            Self::lemma_view(*self);
        }
        match self {
            OmegaUInt::Omega => false,
            OmegaUInt::Natural(x) => x.is_zero(),
        }
    }

    /// The number 0.
    pub fn zero() -> (r: Self)
        ensures
            r@ == ExtNat::Finite(0),
    {
        OmegaUInt::Natural(N::zero())
    }

    /// Whether the value is the number 1; the infinity is not.
    pub fn is_one(&self) -> (b: bool)
        ensures
            b == (self@ == ExtNat::Finite(1)),
    {
        proof {
            Self::lemma_view(*self);
        }
        match self {
            OmegaUInt::Omega => false,
            OmegaUInt::Natural(x) => x.is_one(),
        }
    }

    /// The number 1.
    pub fn one() -> (r: Self)
        ensures
            r@ == ExtNat::Finite(1),
    {
        OmegaUInt::Natural(N::one())
    }

    /// The quotient, or nothing where a number is divided by zero or the
    /// infinity by itself.
    pub fn checked_div(&self, v: &Self) -> (r: Option<Self>)
        ensures
            r == Self::checked(nat_div(self@, v@)),
    {
        let zero = Self::zero();
        proof {
            Self::lemma_view(zero);
        }
        let r = omega_uint_chkd_op(
            self,
            v,
            N::checked_div,
            Some(OmegaUInt::Omega),
            Some(zero),
            None,
            true,
            Some(zero),
            None,
            None,
            None,
        );
        proof {
            N::lemma_unsigned();
            Self::lemma_view(*self);
            Self::lemma_view(*v);
            match (*self, *v) {
                (OmegaUInt::Natural(x), OmegaUInt::Natural(y)) => {
                    if x.as_int() == 0 && y.as_int() != 0 {
                        assert(0int / y.as_int() == 0) by (nonlinear_arith)
                            requires
                                y.as_int() > 0,
                        ;
                    }
                    let o = choose|o: Option<N>|
                        call_ensures(N::checked_div, (&x, &y), o) && r == match o {
                            Some(z) => Some(OmegaUInt::Natural(z)),
                            None => None,
                        };
                    if let Some(z) = o {
                        N::lemma_as_int(z);
                    }
                },
                _ => {},
            }
        }
        r
    }

    /// The sum, or nothing where the sum of two numbers is out of the range
    /// of `N`.
    pub fn checked_add(&self, v: &Self) -> (r: Option<Self>)
        ensures
            r == Self::checked(nat_add(self@, v@)),
    {
        let r = omega_uint_chkd_op(
            self,
            v,
            N::checked_add,
            Some(OmegaUInt::Omega),
            Some(OmegaUInt::Omega),
            Some(OmegaUInt::Omega),
            false,
            None,
            None,
            None,
            None,
        );
        proof {
            N::lemma_unsigned();
            Self::lemma_view(*self);
            Self::lemma_view(*v);
            match (*self, *v) {
                (OmegaUInt::Natural(x), OmegaUInt::Natural(y)) => {
                    let o = choose|o: Option<N>|
                        call_ensures(N::checked_add, (&x, &y), o) && r == match o {
                            Some(z) => Some(OmegaUInt::Natural(z)),
                            None => None,
                        };
                    if let Some(z) = o {
                        N::lemma_as_int(z);
                    }
                },
                _ => {},
            }
        }
        r
    }

    /// The difference, or nothing where the infinity is taken away or a
    /// number is taken from a smaller one.
    pub fn checked_sub(&self, v: &Self) -> (r: Option<Self>)
        ensures
            r == Self::checked(nat_sub(self@, v@)),
    {
        let r = omega_uint_chkd_op(
            self,
            v,
            N::checked_sub,
            Some(OmegaUInt::Omega),
            None,
            None,
            false,
            None,
            None,
            None,
            None,
        );
        proof {
            N::lemma_unsigned();
            Self::lemma_view(*self);
            Self::lemma_view(*v);
            match (*self, *v) {
                (OmegaUInt::Natural(x), OmegaUInt::Natural(y)) => {
                    let o = choose|o: Option<N>|
                        call_ensures(N::checked_sub, (&x, &y), o) && r == match o {
                            Some(z) => Some(OmegaUInt::Natural(z)),
                            None => None,
                        };
                    if let Some(z) = o {
                        N::lemma_as_int(z);
                    }
                },
                _ => {},
            }
        }
        r
    }

    /// The product, or nothing where the operands are zero and the infinity
    /// or the product of two numbers is out of the range of `N`.
    pub fn checked_mul(&self, v: &Self) -> (r: Option<Self>)
        ensures
            r == Self::checked(nat_mul(self@, v@)),
    {
        if (self.is_zero() && v.is_omega()) || (self.is_omega() && v.is_zero()) {
            return None;
        }
        let r = omega_uint_chkd_op(
            self,
            v,
            N::checked_mul,
            Some(OmegaUInt::Omega),
            Some(OmegaUInt::Omega),
            Some(OmegaUInt::Omega),
            false,
            None,
            None,
            None,
            None,
        );
        proof {
            N::lemma_unsigned();
            Self::lemma_view(*self);
            Self::lemma_view(*v);
            match (*self, *v) {
                (OmegaUInt::Natural(x), OmegaUInt::Natural(y)) => {
                    assert(0 <= x.as_int() * y.as_int()) by (nonlinear_arith)
                        requires
                            0 <= x.as_int(),
                            0 <= y.as_int(),
                    ;
                    let o = choose|o: Option<N>|
                        call_ensures(N::checked_mul, (&x, &y), o) && r == match o {
                            Some(z) => Some(OmegaUInt::Natural(z)),
                            None => None,
                        };
                    if let Some(z) = o {
                        N::lemma_as_int(z);
                    }
                },
                _ => {},
            }
        }
        r
    }

    /// What the remainder of `a` by `b` is, or why it has none. Only a
    /// remainder of two numbers is ever asked for.
    pub open spec fn rem_outcome(a: ExtNat, b: ExtNat) -> Result<ExtNat, Failure> {
        nat_outcome(nat_rem(a, b), N::max_int())
    }

    /// Why a checked operation on two operands has no result: two numbers
    /// overflow, unless a division is by zero; anything else is an
    /// indeterminate form.
    fn no_result(&self, v: &Self, dividing: bool) -> (f: Failure)
        ensures
            f == (if self is Natural && v is Natural && !(dividing && v@ == ExtNat::Finite(0)) {
                Failure::Overflow
            } else {
                Failure::IndeterminateForm
            }),
    {
        if !self.is_omega() && !v.is_omega() && !(dividing && v.is_zero()) {
            Failure::Overflow
        } else {
            Failure::IndeterminateForm
        }
    }

    /// The remainder, or nothing where it is asked of the infinity or the
    /// divisor is zero.
    pub fn checked_rem(&self, v: &Self) -> (r: Option<Self>)
        ensures
            r == Self::checked(nat_rem(self@, v@)),
    {
        match self.try_rem(v) {
            Ok(x) => Some(x),
            Err(_) => None,
        }
    }

    /// The sum, or why there is none.
    pub fn try_add(&self, v: &Self) -> (r: Result<Self, Failure>)
        ensures
            r == Self::tried(nat_add(self@, v@)),
    {
        match self.checked_add(v) {
            Some(x) => Ok(x),
            None => Err(self.no_result(v, false)),
        }
    }

    /// The difference, or why there is none.
    pub fn try_sub(&self, v: &Self) -> (r: Result<Self, Failure>)
        ensures
            r == Self::tried(nat_sub(self@, v@)),
    {
        proof {
            Self::lemma_view(*self);
            Self::lemma_view(*v);
        }
        match self.checked_sub(v) {
            Some(x) => Ok(x),
            None => Err(self.no_result(v, false)),
        }
    }

    /// The product, or why there is none.
    pub fn try_mul(&self, v: &Self) -> (r: Result<Self, Failure>)
        ensures
            r == Self::tried(nat_mul(self@, v@)),
    {
        match self.checked_mul(v) {
            Some(x) => Ok(x),
            None => Err(self.no_result(v, false)),
        }
    }

    /// The quotient, or why there is none.
    pub fn try_div(&self, v: &Self) -> (r: Result<Self, Failure>)
        ensures
            r == Self::tried(nat_div(self@, v@)),
    {
        proof {
            N::lemma_range();
            Self::lemma_view(*self);
            Self::lemma_view(*v);
            if let (OmegaUInt::Natural(x), OmegaUInt::Natural(y)) = (*self, *v) {
                if y.as_int() != 0 {
                    lemma_nat_div_rem(x.as_int(), y.as_int());
                }
            }
        }
        match self.checked_div(v) {
            Some(x) => Ok(x),
            None => Err(self.no_result(v, true)),
        }
    }

    /// The remainder, or why there is none: it is asked of the infinity, or
    /// the divisor is zero.
    pub fn try_rem(&self, v: &Self) -> (r: Result<Self, Failure>)
        ensures
            r == Self::tried(nat_rem(self@, v@)),
    {
        let (x, y) = match (self, v) {
            (OmegaUInt::Natural(x), OmegaUInt::Natural(y)) => (*x, *y),
            _ => { return Err(Failure::ContractViolation); },
        };
        proof {
            N::lemma_unsigned();
            Self::lemma_view(*self);
            Self::lemma_view(*v);
        }
        if y.is_zero() {
            return Err(Failure::IndeterminateForm);
        }
        proof {
            lemma_nat_div_rem(x.as_int(), y.as_int());
        }
        let z = x.rem(y);
        proof {
            N::lemma_as_int(z);
        }
        Ok(OmegaUInt::Natural(z))
    }
}

impl<N: UnsignedPrim> vstd::std_specs::ops::DivSpecImpl for OmegaUInt<N> {
    open spec fn obeys_div_spec() -> bool {
        true
    }

    open spec fn div_req(self, rhs: Self) -> bool {
        Self::checked(nat_div(self@, rhs@)) is Some
    }

    open spec fn div_spec(self, rhs: Self) -> Self {
        Self::checked(nat_div(self@, rhs@)).unwrap()
    }
}

/// `/` is the checked quotient where it has a result.
impl<N: UnsignedPrim> std::ops::Div for OmegaUInt<N> {
    type Output = Self;

    fn div(self, rhs: Self) -> (r: Self) {
        match self.checked_div(&rhs) {
            Some(y) => y,
            None => unreached(),
        }
    }
}

impl<N: UnsignedPrim> vstd::std_specs::ops::AddSpecImpl for OmegaUInt<N> {
    open spec fn obeys_add_spec() -> bool {
        true
    }

    open spec fn add_req(self, rhs: Self) -> bool {
        Self::checked(nat_add(self@, rhs@)) is Some
    }

    open spec fn add_spec(self, rhs: Self) -> Self {
        Self::checked(nat_add(self@, rhs@)).unwrap()
    }
}

/// `+` is the checked sum where it has a result.
impl<N: UnsignedPrim> std::ops::Add for OmegaUInt<N> {
    type Output = Self;

    fn add(self, rhs: Self) -> (r: Self) {
        match self.checked_add(&rhs) {
            Some(y) => y,
            None => unreached(),
        }
    }
}

impl<N: UnsignedPrim> vstd::std_specs::ops::SubSpecImpl for OmegaUInt<N> {
    open spec fn obeys_sub_spec() -> bool {
        true
    }

    open spec fn sub_req(self, rhs: Self) -> bool {
        Self::checked(nat_sub(self@, rhs@)) is Some
    }

    open spec fn sub_spec(self, rhs: Self) -> Self {
        Self::checked(nat_sub(self@, rhs@)).unwrap()
    }
}

/// `-` is the checked difference where it has a result.
impl<N: UnsignedPrim> std::ops::Sub for OmegaUInt<N> {
    type Output = Self;

    fn sub(self, rhs: Self) -> (r: Self) {
        match self.checked_sub(&rhs) {
            Some(y) => y,
            None => unreached(),
        }
    }
}

impl<N: UnsignedPrim> vstd::std_specs::ops::MulSpecImpl for OmegaUInt<N> {
    open spec fn obeys_mul_spec() -> bool {
        true
    }

    open spec fn mul_req(self, rhs: Self) -> bool {
        Self::checked(nat_mul(self@, rhs@)) is Some
    }

    open spec fn mul_spec(self, rhs: Self) -> Self {
        Self::checked(nat_mul(self@, rhs@)).unwrap()
    }
}

/// `*` is the checked product where it has a result.
impl<N: UnsignedPrim> std::ops::Mul for OmegaUInt<N> {
    type Output = Self;

    fn mul(self, rhs: Self) -> (r: Self) {
        match self.checked_mul(&rhs) {
            Some(y) => y,
            None => unreached(),
        }
    }
}

impl<N: UnsignedPrim> vstd::std_specs::ops::RemSpecImpl for OmegaUInt<N> {
    open spec fn obeys_rem_spec() -> bool {
        true
    }

    open spec fn rem_req(self, rhs: Self) -> bool {
        Self::rem_outcome(self@, rhs@) is Ok
    }

    open spec fn rem_spec(self, rhs: Self) -> Self {
        Self::from_ext(Self::rem_outcome(self@, rhs@).unwrap())
    }
}

/// `%` is the remainder of two numbers: it is not defined on the infinity,
/// nor for the divisor zero.
impl<N: UnsignedPrim> std::ops::Rem for OmegaUInt<N> {
    type Output = Self;

    fn rem(self, rhs: Self) -> (r: Self) {
        let self_value: N = match self {
            OmegaUInt::Natural(x) => x,
            OmegaUInt::Omega => unreached(),
        };
        let rhs_value: N = match rhs {
            OmegaUInt::Natural(x) => x,
            OmegaUInt::Omega => unreached(),
        };
        proof {
            N::lemma_unsigned();
            Self::lemma_view(self);
            Self::lemma_view(rhs);
            lemma_nat_div_rem(self_value.as_int(), rhs_value.as_int());
        }
        let z = self_value.rem(rhs_value);
        proof {
            N::lemma_as_int(z);
        }
        OmegaUInt::Natural(z)
    }
}

/// Of a natural number divided by a positive one, neither the quotient nor
/// the remainder is negative or greater than the dividend.
proof fn lemma_nat_div_rem(x: int, d: int)
    by (nonlinear_arith)
    requires
        0 <= x,
        0 < d,
    ensures
        0 <= x / d <= x,
        0 <= x % d <= x,
{
}

impl<U> vstd::std_specs::convert::FromSpecImpl<U> for OmegaUInt<U> {
    open spec fn obeys_from_spec() -> bool {
        true
    }

    open spec fn from_spec(v: U) -> Self {
        OmegaUInt::Natural(v)
    }
}

/// A natural number is an extended natural number.
impl<U> From<U> for OmegaUInt<U> {
    fn from(value: U) -> (r: Self) {
        OmegaUInt::Natural(value)
    }
}

/// The infinity less any number is the infinity; nothing is left of a
/// number, nor of the infinity, when the infinity is taken away.
pub proof fn lemma_sub_infinity<N: UnsignedPrim>(x: N)
    ensures
        OmegaUInt::<N>::checked(nat_sub(ExtNat::Infinity, OmegaUInt::Natural(x)@)) == Some(
            OmegaUInt::<N>::Omega,
        ),
        OmegaUInt::<N>::checked(nat_sub(OmegaUInt::Natural(x)@, ExtNat::Infinity)) is None,
        OmegaUInt::<N>::checked(nat_sub(ExtNat::Infinity, ExtNat::Infinity)) is None,
        OmegaUInt::<N>::outcome(nat_sub(OmegaUInt::Natural(x)@, ExtNat::Infinity)) == Err::<
            ExtNat,
            Failure,
        >(Failure::IndeterminateForm),
        OmegaUInt::<N>::outcome(nat_sub(ExtNat::Infinity, ExtNat::Infinity)) == Err::<
            ExtNat,
            Failure,
        >(Failure::IndeterminateForm),
{
}

/// The product does not depend on the order of the operands.
pub proof fn lemma_mul_commutative(a: ExtNat, b: ExtNat)
    ensures
        nat_mul(a, b) == nat_mul(b, a),
{
    match (a, b) {
        (ExtNat::Finite(x), ExtNat::Finite(y)) => {
            assert(x * y == y * x) by (nonlinear_arith);
        },
        _ => {},
    }
}

} // verus!
