//! Signed integers extended by the two infinities.
//!
//! An infinity absorbs every integer that is added to it and equals itself
//! added to itself; the difference is the sum with the negative. The sum of
//! the two opposite infinities, the product of zero and an infinity and the
//! quotient of two infinities are indeterminate forms, and a result that the
//! underlying type cannot hold is an overflow: neither has a result.

use crate::failure::Failure;
use crate::prim::{trunc_div, trunc_rem, CheckedPrim, SignedPrim};
use vstd::prelude::*;
use vstd::std_specs::ops::NegSpec;

verus! {

/// The sign of a number: 1 for a positive one, -1 for a negative one, 0 for
/// zero.
pub type Sign = i8;

/// Types that hold a positive and a negative infinity.
pub trait PMOmega: Sized {
    /// 1 for the positive infinity, -1 for the negative one, 0 for any other
    /// value.
    spec fn pmomega_spec(&self) -> int;

    /// The infinity sign of the value: 1 for the positive infinity, -1 for
    /// the negative one, 0 for any other value.
    fn is_pmomega(&self) -> (s: Sign)
        ensures
            s == self.pmomega_spec(),
    ;

    /// The positive infinity.
    fn pomega() -> (r: Self)
        ensures
            r.pmomega_spec() == 1,
    ;

    /// The negative infinity.
    fn momega() -> (r: Self)
        ensures
            r.pmomega_spec() == -1,
    ;
}

/// An integer of type `N`, the positive infinity or the negative infinity.
#[derive(PartialEq, Debug)]
pub enum OmegaInt<N> {
    /// An integer.
    Integer(N),
    /// The positive infinity.
    POmega,
    /// The negative infinity.
    MOmega,
}

impl<N: Copy> Copy for OmegaInt<N> {

}

impl<N: Copy> Clone for OmegaInt<N> {
    fn clone(&self) -> (r: Self)
        ensures
            r == *self,
    {
        *self
    }
}

impl<N> PMOmega for OmegaInt<N> {
    open spec fn pmomega_spec(&self) -> int {
        match self {
            OmegaInt::POmega => 1,
            OmegaInt::MOmega => -1,
            OmegaInt::Integer(_) => 0,
        }
    }

    fn is_pmomega(&self) -> (s: Sign) {
        match self {
            OmegaInt::POmega => 1,
            OmegaInt::MOmega => -1,
            _ => 0,
        }
    }

    fn pomega() -> (r: Self)
        ensures
            r == OmegaInt::<N>::POmega,
    {
        OmegaInt::POmega
    }

    fn momega() -> (r: Self)
        ensures
            r == OmegaInt::<N>::MOmega,
    {
        OmegaInt::MOmega
    }
}

/// Types whose values have a sign.
pub trait GetSign {
    /// The sign of the value.
    spec fn sign_spec(&self) -> int;

    /// The sign of the value.
    fn get_sign(&self) -> (s: Sign)
        ensures
            s == self.sign_spec(),
    ;
}

/// Primitive numbers whose values have a sign.
pub trait PrimGetSign {
    /// The sign of the number.
    spec fn prim_sign_spec(&self) -> int;

    /// The sign of the number: one of 1, -1 and 0.
    fn get_sign(&self) -> (s: Sign)
        ensures
            s == self.prim_sign_spec(),
            s == 1 || s == -1 || s == 0,
    ;
}

/// The sign of a mathematical integer.
pub open spec fn sign_of(i: int) -> int {
    if i > 0 {
        1
    } else if i < 0 {
        -1
    } else {
        0
    }
}

impl<T: SignedPrim> PrimGetSign for T {
    open spec fn prim_sign_spec(&self) -> int {
        sign_of(self.as_int())
    }

    fn get_sign(&self) -> (s: Sign) {
        if self.is_positive() {
            return 1;
        }
        if self.is_negative() {
            return -1;
        }
        return 0;
    }
}

impl<N: PrimGetSign> GetSign for OmegaInt<N> {
    open spec fn sign_spec(&self) -> int {
        match self {
            OmegaInt::POmega => 1,
            OmegaInt::MOmega => -1,
            OmegaInt::Integer(x) => x.prim_sign_spec(),
        }
    }

    fn get_sign(&self) -> (s: Sign) {
        match self {
            OmegaInt::POmega => 1,
            OmegaInt::MOmega => -1,
            OmegaInt::Integer(x) => x.get_sign(),
        }
    }
}

/// The mathematical value of an extended integer: an integer of any size or
/// one of the two infinities.
pub enum ExtInt {
    /// An integer.
    Finite(int),
    /// The positive infinity.
    PosInf,
    /// The negative infinity.
    NegInf,
}

/// The sign of an extended integer; that of an infinity is 1 or -1.
pub open spec fn ext_sign(a: ExtInt) -> int {
    match a {
        ExtInt::Finite(x) => sign_of(x),
        ExtInt::PosInf => 1,
        ExtInt::NegInf => -1,
    }
}

/// The sign of a product or a quotient, from the signs of the two operands.
pub open spec fn sign_product(s: int, t: int) -> int {
    if s == 0 || t == 0 {
        0
    } else if (s > 0) == (t > 0) {
        1
    } else {
        -1
    }
}

/// The infinity of the given sign, and nothing where the sign is 0.
pub open spec fn ext_infinity(sign: int) -> Option<ExtInt> {
    if sign > 0 {
        Some(ExtInt::PosInf)
    } else if sign < 0 {
        Some(ExtInt::NegInf)
    } else {
        None
    }
}

/// The negation: it exchanges the two infinities.
pub open spec fn ext_neg(a: ExtInt) -> ExtInt {
    match a {
        ExtInt::Finite(x) => ExtInt::Finite(-x),
        ExtInt::PosInf => ExtInt::NegInf,
        ExtInt::NegInf => ExtInt::PosInf,
    }
}

/// The absolute value: that of either infinity is the positive infinity.
pub open spec fn ext_abs(a: ExtInt) -> ExtInt {
    if ext_sign(a) < 0 {
        ext_neg(a)
    } else {
        a
    }
}

/// The sum. An infinity absorbs every integer and itself; the sum of the two
/// opposite infinities has no meaning.
pub open spec fn ext_add(a: ExtInt, b: ExtInt) -> Option<ExtInt> {
    match (a, b) {
        (ExtInt::Finite(x), ExtInt::Finite(y)) => Some(ExtInt::Finite(x + y)),
        (ExtInt::Finite(_), _) => Some(b),
        (_, ExtInt::Finite(_)) => Some(a),
        _ => if a == b {
            Some(a)
        } else {
            None
        },
    }
}

/// The difference: the sum with the negated second operand.
pub open spec fn ext_sub(a: ExtInt, b: ExtInt) -> Option<ExtInt> {
    ext_add(a, ext_neg(b))
}

/// The product. Where an infinity takes part, the product is the infinity
/// whose sign is the product of the signs, and the product with zero has no
/// meaning.
pub open spec fn ext_mul(a: ExtInt, b: ExtInt) -> Option<ExtInt> {
    match (a, b) {
        (ExtInt::Finite(x), ExtInt::Finite(y)) => Some(ExtInt::Finite(x * y)),
        _ => ext_infinity(sign_product(ext_sign(a), ext_sign(b))),
    }
}

/// The quotient. An integer divided by an infinity is zero; an infinity
/// divided by an integer is the infinity whose sign is the product of the
/// signs; division by zero and of an infinity by an infinity have no meaning.
/// Integers divide with rounding toward zero.
pub open spec fn ext_div(a: ExtInt, b: ExtInt) -> Option<ExtInt> {
    match (a, b) {
        (ExtInt::Finite(x), ExtInt::Finite(y)) => if y == 0 {
            None
        } else {
            Some(ExtInt::Finite(trunc_div(x, y)))
        },
        (ExtInt::Finite(_), _) => Some(ExtInt::Finite(0)),
        (_, ExtInt::Finite(_)) => ext_infinity(sign_product(ext_sign(a), ext_sign(b))),
        _ => None,
    }
}

/// The remainder of the division that rounds toward zero. It is asked of two
/// integers only, and the divisor must not be zero.
pub open spec fn ext_rem(a: ExtInt, b: ExtInt) -> Result<ExtInt, Failure> {
    match (a, b) {
        (ExtInt::Finite(x), ExtInt::Finite(y)) => if y == 0 {
            Err(Failure::IndeterminateForm)
        } else {
            Ok(ExtInt::Finite(trunc_rem(x, y)))
        },
        _ => Err(Failure::ContractViolation),
    }
}

/// What a checked operation makes of the exact result `e` where the
/// integers from `lo` to `hi` can be held: the result itself, or the reason
/// why there is none.
pub open spec fn ext_outcome(e: Option<ExtInt>, lo: int, hi: int) -> Result<ExtInt, Failure> {
    match e {
        None => Err(Failure::IndeterminateForm),
        Some(ExtInt::Finite(x)) => if lo <= x <= hi {
            Ok(ExtInt::Finite(x))
        } else {
            Err(Failure::Overflow)
        },
        Some(inf) => Ok(inf),
    }
}

impl<N: CheckedPrim> View for OmegaInt<N> {
    type V = ExtInt;

    open spec fn view(&self) -> ExtInt {
        match self {
            OmegaInt::Integer(x) => ExtInt::Finite(x.as_int()),
            OmegaInt::POmega => ExtInt::PosInf,
            OmegaInt::MOmega => ExtInt::NegInf,
        }
    }
}

impl<N: CheckedPrim> OmegaInt<N> {
    /// The value that stands for `e`; meaningful where `e` is an infinity or
    /// an integer within the range of `N`.
    pub open spec fn from_ext(e: ExtInt) -> Self {
        match e {
            ExtInt::Finite(x) => OmegaInt::Integer(N::from_int(x)),
            ExtInt::PosInf => OmegaInt::POmega,
            ExtInt::NegInf => OmegaInt::MOmega,
        }
    }

    /// What a checked operation with the exact result `e` makes of it, and
    /// why it returns nothing where it does.
    pub open spec fn outcome(e: Option<ExtInt>) -> Result<ExtInt, Failure> {
        ext_outcome(e, N::min_int(), N::max_int())
    }

    /// What a checked operation with the exact result `e` returns.
    pub open spec fn checked(e: Option<ExtInt>) -> Option<Self> {
        match Self::outcome(e) {
            Ok(x) => Some(Self::from_ext(x)),
            Err(_) => None,
        }
    }

    /// What an operation with the exact result `e` gives when it is asked to
    /// say why it has no result.
    pub open spec fn tried(e: Option<ExtInt>) -> Result<Self, Failure> {
        match Self::outcome(e) {
            Ok(x) => Ok(Self::from_ext(x)),
            Err(f) => Err(f),
        }
    }

    /// A value is known by what it stands for.
    pub proof fn lemma_view(x: Self)
        ensures
            Self::from_ext(x@) == x,
            Self::outcome(Some(x@)) == Ok::<ExtInt, Failure>(x@),
            Self::checked(Some(x@)) == Some(x),
    {
        match x {
            OmegaInt::Integer(n) => {
                N::lemma_as_int(n);
            },
            _ => {},
        }
    }

    /// What a checked operation returns stands for the exact result.
    pub proof fn lemma_checked(e: Option<ExtInt>)
        ensures
            Self::checked(e) matches Some(x) ==> e == Some(x@),
    {
        match e {
            Some(ExtInt::Finite(i)) => {
                if N::min_int() <= i <= N::max_int() {
                    N::lemma_from_int(i);
                }
            },
            _ => {},
        }
    }
}

/// What [`omega_int_chkd_op`] returns: the answer of the checker that is
/// asked, or what `op` makes of the two integers.
pub open spec fn chkd_op_returns<N: PrimGetSign, F, OC, SC>(
    lhs: OmegaInt<N>,
    rhs: OmegaInt<N>,
    op: F,
    omega_checker: OC,
    chk_zero: bool,
    sign_checker: SC,
    value_if_op_overflow: Option<OmegaInt<N>>,
    r: Option<OmegaInt<N>>,
) -> bool where
    F: Fn(&N, &N) -> Option<N>,
    OC: Fn(Sign, Sign) -> Option<OmegaInt<N>>,
    SC: Fn(Sign, Sign) -> Option<OmegaInt<N>>,
 {
    match (lhs, rhs) {
        (OmegaInt::Integer(x), OmegaInt::Integer(y)) => {
            if chk_zero && (x.prim_sign_spec() == 0 || y.prim_sign_spec() == 0) {
                call_ensures(
                    sign_checker,
                    (x.prim_sign_spec() as Sign, y.prim_sign_spec() as Sign),
                    r,
                )
            } else {
                exists|o: Option<N>|
                    call_ensures(op, (&x, &y), o) && r == match o {
                        Some(z) => Some(OmegaInt::Integer(z)),
                        None => value_if_op_overflow,
                    }
            }
        },
        _ => call_ensures(
            omega_checker,
            (lhs.pmomega_spec() as Sign, rhs.pmomega_spec() as Sign),
            r,
        ),
    }
}

/// The common course of a checked operation. Where an operand is infinite,
/// `omega_checker` decides from the two infinity signs. Else, where
/// `chk_zero` is set and an operand is zero, `sign_checker` decides from the
/// two signs. Else `op` works on the two integers, and where it has no
/// result, `value_if_op_overflow` is returned.
pub fn omega_int_chkd_op<N: PrimGetSign, F, OC, SC>(
    lhs: &OmegaInt<N>,
    rhs: &OmegaInt<N>,
    op: F,
    omega_checker: OC,
    chk_zero: bool,
    sign_checker: SC,
    value_if_op_overflow: Option<OmegaInt<N>>,
) -> (r: Option<OmegaInt<N>>) where
    F: Fn(&N, &N) -> Option<N>,
    OC: Fn(Sign, Sign) -> Option<OmegaInt<N>>,
    SC: Fn(Sign, Sign) -> Option<OmegaInt<N>>,

    requires
        match (*lhs, *rhs) {
            (OmegaInt::Integer(x), OmegaInt::Integer(y)) => {
                if chk_zero && (x.prim_sign_spec() == 0 || y.prim_sign_spec() == 0) {
                    call_requires(
                        sign_checker,
                        (x.prim_sign_spec() as Sign, y.prim_sign_spec() as Sign),
                    )
                } else {
                    call_requires(op, (&x, &y))
                }
            },
            _ => call_requires(
                omega_checker,
                (lhs.pmomega_spec() as Sign, rhs.pmomega_spec() as Sign),
            ),
        },
    ensures
        chkd_op_returns(
            *lhs,
            *rhs,
            op,
            omega_checker,
            chk_zero,
            sign_checker,
            value_if_op_overflow,
            r,
        ),
{
    let lhs_osp = lhs.is_pmomega();
    let rhs_osp = rhs.is_pmomega();
    if lhs_osp != 0 || rhs_osp != 0 {
        return omega_checker(lhs_osp, rhs_osp);
    }
    let lhs_value = match lhs {
        OmegaInt::Integer(x) => x,
        _ => unreached(),
    };
    let rhs_value = match rhs {
        OmegaInt::Integer(x) => x,
        _ => unreached(),
    };
    if chk_zero {
        let lhs_zero = lhs_value.get_sign();
        let rhs_zero = rhs_value.get_sign();
        if !((lhs_zero != 0) && (rhs_zero != 0)) {
            return sign_checker(lhs_zero, rhs_zero);
        }
    }
    match op(lhs_value, rhs_value) {
        Some(x) => Some(OmegaInt::Integer(x)),
        None => value_if_op_overflow,
    }
}

/// The sign checker of an operation that asks none.
pub fn empty_sign_checker<N>(_s0: Sign, _s1: Sign) -> (r: Option<OmegaInt<N>>)
    ensures
        r is None,
{
    None
}

/// The infinity of the given sign.
pub open spec fn omega_of<N>(sign: int) -> Option<OmegaInt<N>> {
    if sign > 0 {
        Some(OmegaInt::POmega)
    } else if sign < 0 {
        Some(OmegaInt::MOmega)
    } else {
        None
    }
}

/// The sum of two operands of which at least one is infinite, from their
/// infinity signs.
fn add_omega_checker<N>(s0: Sign, s1: Sign) -> (r: Option<OmegaInt<N>>)
    requires
        -1 <= s0 <= 1,
        -1 <= s1 <= 1,
        s0 != 0 || s1 != 0,
    ensures
        r == (if s0 == 0 {
            omega_of::<N>(s1 as int)
        } else if s1 == 0 || s1 == s0 {
            omega_of::<N>(s0 as int)
        } else {
            None
        }),
{
    if s0 == 0 {
        if s1 == 1 {
            return Some(OmegaInt::POmega);
        }
        return Some(OmegaInt::MOmega);
    }
    if s1 == 0 {
        if s0 == 1 {
            return Some(OmegaInt::POmega);
        }
        return Some(OmegaInt::MOmega);
    }
    if (s0 == 1) && (s1 == 1) {
        return Some(OmegaInt::POmega);
    }
    if (s0 == -1) && (s1 == -1) {
        return Some(OmegaInt::MOmega);
    }
    return None;
}

/// The difference of two operands of which at least one is infinite, from
/// their infinity signs.
fn sub_omega_checker<N>(s0: Sign, s1: Sign) -> (r: Option<OmegaInt<N>>)
    requires
        -1 <= s0 <= 1,
        -1 <= s1 <= 1,
        s0 != 0 || s1 != 0,
    ensures
        r == (if s0 == 0 {
            omega_of::<N>(-s1)
        } else if s1 == 0 || s1 == -s0 {
            omega_of::<N>(s0 as int)
        } else {
            None
        }),
{
    if s0 == 0 {
        if s1 == 1 {
            return Some(OmegaInt::MOmega);
        }
        return Some(OmegaInt::POmega);
    }
    if s1 == 0 {
        if s0 == 1 {
            return Some(OmegaInt::POmega);
        }
        return Some(OmegaInt::MOmega);
    }
    if (s0 == 1) && (s1 == -1) {
        return Some(OmegaInt::POmega);
    }
    if (s0 == -1) && (s1 == 1) {
        return Some(OmegaInt::MOmega);
    }
    return None;
}

impl<N: SignedPrim> OmegaInt<N> {
    /// The sum, or nothing where the operands are the two opposite infinities
    /// or the sum of two integers is out of the range of `N`.
    pub fn checked_add(&self, v: &Self) -> (r: Option<Self>)
        ensures
            r == Self::checked(ext_add(self@, v@)),
    {
        let r = omega_int_chkd_op(
            self,
            v,
            N::checked_add,
            add_omega_checker::<N>,
            false,
            empty_sign_checker::<N>,
            None,
        );
        proof {
            match (*self, *v) {
                (OmegaInt::Integer(x), OmegaInt::Integer(y)) => {
                    let o = choose|o: Option<N>|
                        call_ensures(N::checked_add, (&x, &y), o) && r == match o {
                            Some(z) => Some(OmegaInt::Integer(z)),
                            None => None,
                        };
                    N::lemma_as_int(x);
                    N::lemma_as_int(y);
                    if let Some(z) = o {
                        N::lemma_as_int(z);
                    }
                },
                _ => {
                    let s0 = self.pmomega_spec() as Sign;
                    let s1 = v.pmomega_spec() as Sign;
                    assert(call_ensures(add_omega_checker::<N>, (s0, s1), r));
                },
            }
        }
        r
    }

    /// The difference, or nothing where the operands are the same infinity or
    /// the difference of two integers is out of the range of `N`.
    pub fn checked_sub(&self, v: &Self) -> (r: Option<Self>)
        ensures
            r == Self::checked(ext_sub(self@, v@)),
    {
        let r = omega_int_chkd_op(
            self,
            v,
            N::checked_sub,
            sub_omega_checker::<N>,
            false,
            empty_sign_checker::<N>,
            None,
        );
        proof {
            match (*self, *v) {
                (OmegaInt::Integer(x), OmegaInt::Integer(y)) => {
                    let o = choose|o: Option<N>|
                        call_ensures(N::checked_sub, (&x, &y), o) && r == match o {
                            Some(z) => Some(OmegaInt::Integer(z)),
                            None => None,
                        };
                    N::lemma_as_int(x);
                    N::lemma_as_int(y);
                    if let Some(z) = o {
                        N::lemma_as_int(z);
                    }
                },
                _ => {
                    let s0 = self.pmomega_spec() as Sign;
                    let s1 = v.pmomega_spec() as Sign;
                    assert(call_ensures(sub_omega_checker::<N>, (s0, s1), r));
                },
            }
        }
        r
    }

    /// The product, or nothing where the operands are zero and an infinity
    /// or the product of two integers is out of the range of `N`.
    pub fn checked_mul(&self, v: &Self) -> (r: Option<Self>)
        ensures
            r == Self::checked(ext_mul(self@, v@)),
    {
        match self {
            OmegaInt::POmega => match v {
                OmegaInt::POmega => Some(OmegaInt::POmega),
                OmegaInt::MOmega => Some(OmegaInt::MOmega),
                OmegaInt::Integer(x) => {
                    match x.get_sign() {
                        1 => Some(OmegaInt::POmega),
                        -1 => Some(OmegaInt::MOmega),
                        0 => None,
                        _ => unreached(),
                    }
                },
            },
            OmegaInt::MOmega => match v {
                OmegaInt::POmega => Some(OmegaInt::MOmega),
                OmegaInt::MOmega => Some(OmegaInt::POmega),
                OmegaInt::Integer(x) => {
                    match x.get_sign() {
                        1 => Some(OmegaInt::MOmega),
                        -1 => Some(OmegaInt::POmega),
                        0 => None,
                        _ => unreached(),
                    }
                },
            },
            OmegaInt::Integer(x) => match v {
                OmegaInt::POmega => {
                    match x.get_sign() {
                        1 => Some(OmegaInt::POmega),
                        -1 => Some(OmegaInt::MOmega),
                        0 => None,
                        _ => unreached(),
                    }
                },
                OmegaInt::MOmega => {
                    match x.get_sign() {
                        1 => Some(OmegaInt::MOmega),
                        -1 => Some(OmegaInt::POmega),
                        0 => None,
                        _ => unreached(),
                    }
                },
                OmegaInt::Integer(y) => {
                    proof {
                        N::lemma_as_int(*x);
                        N::lemma_as_int(*y);
                    }
                    match x.checked_mul(y) {
                        Some(s) => {
                            proof {
                                N::lemma_as_int(s);
                            }
                            Some(OmegaInt::Integer(s))
                        },
                        None => None,
                    }
                },
            },
        }
    }

    /// The quotient, or nothing where the divisor is zero, both operands are
    /// infinite or the quotient of two integers is out of the range of `N`.
    pub fn checked_div(&self, v: &Self) -> (r: Option<Self>)
        ensures
            r == Self::checked(ext_div(self@, v@)),
    {
        match self {
            OmegaInt::POmega => match v {
                OmegaInt::POmega => None,
                OmegaInt::MOmega => None,
                OmegaInt::Integer(x) => {
                    match x.get_sign() {
                        1 => Some(OmegaInt::POmega),
                        -1 => Some(OmegaInt::MOmega),
                        0 => None,
                        _ => unreached(),
                    }
                },
            },
            OmegaInt::MOmega => match v {
                OmegaInt::POmega => None,
                OmegaInt::MOmega => None,
                OmegaInt::Integer(x) => {
                    match x.get_sign() {
                        1 => Some(OmegaInt::MOmega),
                        -1 => Some(OmegaInt::POmega),
                        0 => None,
                        _ => unreached(),
                    }
                },
            },
            OmegaInt::Integer(x) => match v {
                OmegaInt::POmega => {
                    let z = Self::zero();
                    proof {
                        Self::lemma_view(z);
                    }
                    Some(z)
                },
                OmegaInt::MOmega => {
                    let z = Self::zero();
                    proof {
                        Self::lemma_view(z);
                    }
                    Some(z)
                },
                OmegaInt::Integer(y) => {
                    proof {
                        N::lemma_as_int(*x);
                        N::lemma_as_int(*y);
                    }
                    match x.checked_div(y) {
                        Some(s) => {
                            proof {
                                N::lemma_as_int(s);
                            }
                            Some(OmegaInt::Integer(s))
                        },
                        None => None,
                    }
                },
            },
        }
    }

    /// Whether the value is the integer 0; no infinity is.
    pub fn is_zero(&self) -> (b: bool)
        ensures
            b == (self@ == ExtInt::Finite(0)),
    {
        match self {
            OmegaInt::Integer(x) => x.is_zero(),
            _ => false,
        }
    }

    /// The integer 0.
    pub fn zero() -> (r: Self)
        ensures
            r@ == ExtInt::Finite(0),
    {
        OmegaInt::Integer(N::zero())
    }

    /// Whether the value is the integer 1; no infinity is.
    pub fn is_one(&self) -> (b: bool)
        ensures
            b == (self@ == ExtInt::Finite(1)),
    {
        match self {
            OmegaInt::Integer(x) => x.is_one(),
            _ => false,
        }
    }

    /// The integer 1.
    pub fn one() -> (r: Self)
        ensures
            r@ == ExtInt::Finite(1),
    {
        OmegaInt::Integer(N::one())
    }
}

impl<N: SignedPrim> vstd::std_specs::ops::AddSpecImpl for OmegaInt<N> {
    open spec fn obeys_add_spec() -> bool {
        true
    }

    open spec fn add_req(self, rhs: Self) -> bool {
        Self::checked(ext_add(self@, rhs@)) is Some
    }

    open spec fn add_spec(self, rhs: Self) -> Self {
        Self::checked(ext_add(self@, rhs@)).unwrap()
    }
}

/// `+` is the checked sum where it has a result.
impl<N: SignedPrim> std::ops::Add for OmegaInt<N> {
    type Output = Self;

    fn add(self, rhs: Self) -> (r: Self) {
        match self.checked_add(&rhs) {
            Some(y) => y,
            None => unreached(),
        }
    }
}

impl<N: SignedPrim> vstd::std_specs::ops::SubSpecImpl for OmegaInt<N> {
    open spec fn obeys_sub_spec() -> bool {
        true
    }

    open spec fn sub_req(self, rhs: Self) -> bool {
        Self::checked(ext_sub(self@, rhs@)) is Some
    }

    open spec fn sub_spec(self, rhs: Self) -> Self {
        Self::checked(ext_sub(self@, rhs@)).unwrap()
    }
}

/// `-` is the checked difference where it has a result.
impl<N: SignedPrim> std::ops::Sub for OmegaInt<N> {
    type Output = Self;

    fn sub(self, rhs: Self) -> (r: Self) {
        match self.checked_sub(&rhs) {
            Some(y) => y,
            None => unreached(),
        }
    }
}

impl<N: SignedPrim> vstd::std_specs::ops::MulSpecImpl for OmegaInt<N> {
    open spec fn obeys_mul_spec() -> bool {
        true
    }

    open spec fn mul_req(self, rhs: Self) -> bool {
        Self::checked(ext_mul(self@, rhs@)) is Some
    }

    open spec fn mul_spec(self, rhs: Self) -> Self {
        Self::checked(ext_mul(self@, rhs@)).unwrap()
    }
}

/// `*` is the checked product where it has a result.
impl<N: SignedPrim> std::ops::Mul for OmegaInt<N> {
    type Output = Self;

    fn mul(self, rhs: Self) -> (r: Self) {
        match self.checked_mul(&rhs) {
            Some(y) => y,
            None => unreached(),
        }
    }
}

impl<N: SignedPrim> vstd::std_specs::ops::DivSpecImpl for OmegaInt<N> {
    open spec fn obeys_div_spec() -> bool {
        true
    }

    open spec fn div_req(self, rhs: Self) -> bool {
        Self::checked(ext_div(self@, rhs@)) is Some
    }

    open spec fn div_spec(self, rhs: Self) -> Self {
        Self::checked(ext_div(self@, rhs@)).unwrap()
    }
}

/// `/` is the checked quotient where it has a result.
impl<N: SignedPrim> std::ops::Div for OmegaInt<N> {
    type Output = Self;

    fn div(self, rhs: Self) -> (r: Self) {
        match self.checked_div(&rhs) {
            Some(y) => y,
            None => unreached(),
        }
    }
}

impl<N: SignedPrim> vstd::std_specs::ops::NegSpecImpl for OmegaInt<N> {
    open spec fn obeys_neg_spec() -> bool {
        true
    }

    open spec fn neg_req(self) -> bool {
        Self::checked(Some(ext_neg(self@))) is Some
    }

    open spec fn neg_spec(self) -> Self {
        Self::checked(Some(ext_neg(self@))).unwrap()
    }
}

/// The negation exchanges the two infinities and negates an integer whose
/// negative is within the range of `N`.
impl<N: SignedPrim> std::ops::Neg for OmegaInt<N> {
    type Output = Self;

    fn neg(self) -> (r: Self) {
        match self {
            OmegaInt::POmega => OmegaInt::MOmega,
            OmegaInt::MOmega => OmegaInt::POmega,
            OmegaInt::Integer(x) => {
                proof {
                    N::lemma_as_int(x);
                }
                let y = x.neg();
                proof {
                    N::lemma_as_int(y);
                }
                OmegaInt::Integer(y)
            },
        }
    }
}

impl<N: SignedPrim> vstd::std_specs::ops::RemSpecImpl for OmegaInt<N> {
    open spec fn obeys_rem_spec() -> bool {
        true
    }

    open spec fn rem_req(self, rhs: Self) -> bool {
        Self::rem_outcome(self@, rhs@) is Ok
    }

    open spec fn rem_spec(self, rhs: Self) -> Self {
        Self::from_ext(Self::rem_outcome(self@, rhs@).unwrap())
    }
}

/// `%` is the remainder of two integers: it is not defined on an infinity,
/// nor for the divisor zero, nor where the quotient is out of the range of
/// `N`.
impl<N: SignedPrim> std::ops::Rem for OmegaInt<N> {
    type Output = Self;

    fn rem(self, rhs: Self) -> (r: Self) {
        let self_value: N = match self {
            OmegaInt::Integer(x) => x,
            _ => unreached(),
        };
        let rhs_value: N = match rhs {
            OmegaInt::Integer(x) => x,
            _ => unreached(),
        };
        proof {
            N::lemma_as_int(self_value);
            N::lemma_as_int(rhs_value);
        }
        let z = self_value.rem(rhs_value);
        proof {
            N::lemma_as_int(z);
        }
        OmegaInt::Integer(z)
    }
}

impl<N: SignedPrim> OmegaInt<N> {
    /// What the remainder of `a` by `b` is, or why it has none. Only a
    /// remainder of two integers is ever asked for, and the quotient that
    /// goes with it must be within the range of `N`.
    pub open spec fn rem_outcome(a: ExtInt, b: ExtInt) -> Result<ExtInt, Failure> {
        match ext_rem(a, b) {
            Ok(e) => match Self::outcome(ext_div(a, b)) {
                Ok(_) => Self::outcome(Some(e)),
                Err(f) => Err(f),
            },
            Err(f) => Err(f),
        }
    }

    /// Why a checked operation on two operands has no result: two integers
    /// overflow, unless a division is by zero; anything else is an
    /// indeterminate form.
    fn no_result(&self, v: &Self, dividing: bool) -> (f: Failure)
        ensures
            f == (if self.pmomega_spec() == 0 && v.pmomega_spec() == 0 && !(dividing && v@
                == ExtInt::Finite(0)) {
                Failure::Overflow
            } else {
                Failure::IndeterminateForm
            }),
    {
        if self.is_pmomega() == 0 && v.is_pmomega() == 0 && !(dividing && v.is_zero()) {
            Failure::Overflow
        } else {
            Failure::IndeterminateForm
        }
    }

    /// The negative, or nothing where the negative of an integer is out of
    /// the range of `N`.
    pub fn checked_neg(&self) -> (r: Option<Self>)
        ensures
            r == Self::checked(Some(ext_neg(self@))),
    {
        match self {
            OmegaInt::POmega => Some(OmegaInt::MOmega),
            OmegaInt::MOmega => Some(OmegaInt::POmega),
            OmegaInt::Integer(x) => {
                let zero = N::zero();
                proof {
                    N::lemma_as_int(*x);
                }
                match zero.checked_sub(x) {
                    Some(y) => {
                        proof {
                            N::lemma_as_int(y);
                        }
                        Some(OmegaInt::Integer(y))
                    },
                    None => None,
                }
            },
        }
    }

    /// The absolute value, or nothing where that of an integer is out of the
    /// range of `N`.
    pub fn checked_abs(&self) -> (r: Option<Self>)
        ensures
            r == Self::checked(Some(ext_abs(self@))),
    {
        match GetSign::get_sign(self) {
            -1 => self.checked_neg(),
            _ => {
                proof {
                    Self::lemma_view(*self);
                }
                Some(*self)
            },
        }
    }

    /// The remainder, or nothing where it is asked of an infinity, the
    /// divisor is zero, or the quotient is out of the range of `N`.
    pub fn checked_rem(&self, v: &Self) -> (r: Option<Self>)
        ensures
            r == (match Self::rem_outcome(self@, v@) {
                Ok(e) => Some(Self::from_ext(e)),
                Err(_) => None,
            }),
    {
        match self.try_rem(v) {
            Ok(x) => Some(x),
            Err(_) => None,
        }
    }

    /// The sum, or why there is none.
    pub fn try_add(&self, v: &Self) -> (r: Result<Self, Failure>)
        ensures
            r == Self::tried(ext_add(self@, v@)),
    {
        match self.checked_add(v) {
            Some(x) => Ok(x),
            None => Err(self.no_result(v, false)),
        }
    }

    /// The difference, or why there is none.
    pub fn try_sub(&self, v: &Self) -> (r: Result<Self, Failure>)
        ensures
            r == Self::tried(ext_sub(self@, v@)),
    {
        match self.checked_sub(v) {
            Some(x) => Ok(x),
            None => Err(self.no_result(v, false)),
        }
    }

    /// The product, or why there is none.
    pub fn try_mul(&self, v: &Self) -> (r: Result<Self, Failure>)
        ensures
            r == Self::tried(ext_mul(self@, v@)),
    {
        match self.checked_mul(v) {
            Some(x) => Ok(x),
            None => Err(self.no_result(v, false)),
        }
    }

    /// The quotient, or why there is none.
    pub fn try_div(&self, v: &Self) -> (r: Result<Self, Failure>)
        ensures
            r == Self::tried(ext_div(self@, v@)),
    {
        proof {
            N::lemma_range();
        }
        match self.checked_div(v) {
            Some(x) => Ok(x),
            None => Err(self.no_result(v, true)),
        }
    }

    /// The remainder, or why there is none: it is asked of an infinity, the
    /// divisor is zero, or the quotient is out of the range of `N`.
    pub fn try_rem(&self, v: &Self) -> (r: Result<Self, Failure>)
        ensures
            r == (match Self::rem_outcome(self@, v@) {
                Ok(e) => Ok::<Self, Failure>(Self::from_ext(e)),
                Err(f) => Err(f),
            }),
    {
        let (x, y) = match (self, v) {
            (OmegaInt::Integer(x), OmegaInt::Integer(y)) => (*x, *y),
            _ => { return Err(Failure::ContractViolation); },
        };
        if y.is_zero() {
            return Err(Failure::IndeterminateForm);
        }
        proof {
            N::lemma_as_int(x);
            N::lemma_as_int(y);
        }
        match x.checked_div(&y) {
            Some(q) => {
                proof {
                    N::lemma_as_int(q);
                }
            },
            None => { return Err(Failure::Overflow); },
        }
        let z = x.rem(y);
        proof {
            N::lemma_as_int(z);
        }
        Ok(OmegaInt::Integer(z))
    }

    /// The absolute value; that of either infinity is the positive infinity.
    /// It is defined where it is within the range of `N`.
    pub fn abs(&self) -> (r: Self)
        requires
            Self::checked(Some(ext_abs(self@))) is Some,
        ensures
            Some(r) == Self::checked(Some(ext_abs(self@))),
    {
        match GetSign::get_sign(self) {
            1 => {
                proof {
                    Self::lemma_view(*self);
                }
                self.clone()
            },
            _ => std::ops::Neg::neg(*self),
        }
    }

    /// The absolute value of the difference, where both are defined.
    pub fn abs_sub(&self, other: &Self) -> (r: Self)
        requires
            Self::checked(ext_sub(self@, other@)) matches Some(d) && Self::checked(
                Some(ext_abs(d@)),
            ) is Some,
        ensures
            Some(r) == Self::checked(Some(ext_abs(ext_sub(self@, other@).unwrap()))),
    {
        proof {
            Self::lemma_checked(ext_sub(self@, other@));
        }
        (*self - *other).abs()
    }

    /// The sign, as an integer of `N`.
    pub fn signum(&self) -> (r: Self)
        ensures
            r@ == ExtInt::Finite(ext_sign(self@)),
    {
        match GetSign::get_sign(self) {
            1 => OmegaInt::Integer(N::one()),
            -1 => {
                proof {
                    N::lemma_signed();
                    N::lemma_range();
                }
                OmegaInt::Integer(N::one().neg())
            },
            0 => OmegaInt::Integer(N::zero()),
            _ => unreached(),
        }
    }

    /// Whether the value is the negative infinity or a negative integer.
    pub fn is_negative(&self) -> (b: bool)
        ensures
            b == (ext_sign(self@) == -1),
    {
        GetSign::get_sign(self) == -1
    }

    /// Whether the value is the positive infinity or a positive integer.
    pub fn is_positive(&self) -> (b: bool)
        ensures
            b == (ext_sign(self@) == 1),
    {
        GetSign::get_sign(self) == 1
    }
}

impl<I> vstd::std_specs::convert::FromSpecImpl<I> for OmegaInt<I> {
    open spec fn obeys_from_spec() -> bool {
        true
    }

    open spec fn from_spec(v: I) -> Self {
        OmegaInt::Integer(v)
    }
}

/// An integer is an extended integer.
impl<I> From<I> for OmegaInt<I> {
    fn from(value: I) -> (r: Self) {
        OmegaInt::Integer(value)
    }
}

/// The sum of two integers is their sum as mathematical integers where `N`
/// can hold it, and an overflow where it cannot.
pub proof fn lemma_add_finite<N: SignedPrim>(a: N, b: N)
    ensures
        ({
            let sum = a.as_int() + b.as_int();
            let x = OmegaInt::Integer(a);
            let y = OmegaInt::Integer(b);
            if N::min_int() <= sum <= N::max_int() {
                &&& OmegaInt::<N>::outcome(ext_add(x@, y@)) == Ok::<ExtInt, Failure>(
                    ExtInt::Finite(sum),
                )
                &&& OmegaInt::<N>::checked(ext_add(x@, y@)) == Some(
                    OmegaInt::Integer(N::from_int(sum)),
                )
                &&& N::from_int(sum).as_int() == sum
            } else {
                &&& OmegaInt::<N>::outcome(ext_add(x@, y@)) == Err::<ExtInt, Failure>(
                    Failure::Overflow,
                )
                &&& OmegaInt::<N>::checked(ext_add(x@, y@)) is None
            }
        }),
{
    let sum = a.as_int() + b.as_int();
    if N::min_int() <= sum <= N::max_int() {
        N::lemma_from_int(sum);
    }
}

/// An infinity added to itself is that infinity, and the sum of an infinity
/// and the opposite one is an indeterminate form.
pub proof fn lemma_add_infinities<N: SignedPrim>(i: OmegaInt<N>)
    requires
        i.pmomega_spec() != 0,
    ensures
        OmegaInt::<N>::checked(ext_add(i@, i@)) == Some(i),
        OmegaInt::<N>::outcome(ext_add(i@, ext_neg(i@))) == Err::<ExtInt, Failure>(
            Failure::IndeterminateForm,
        ),
        OmegaInt::<N>::checked(ext_add(i@, ext_neg(i@))) is None,
{
}

/// An infinity absorbs every integer that is added to it, on either side.
pub proof fn lemma_add_infinity_absorbs<N: SignedPrim>(i: OmegaInt<N>, x: N)
    requires
        i.pmomega_spec() != 0,
    ensures
        OmegaInt::<N>::checked(ext_add(i@, OmegaInt::Integer(x)@)) == Some(i),
        OmegaInt::<N>::checked(ext_add(OmegaInt::Integer(x)@, i@)) == Some(i),
{
}

/// Negation exchanges the two infinities, and the negative of the negative
/// of any mathematical value is the value itself.
pub proof fn lemma_ext_neg_involution(e: ExtInt)
    ensures
        ext_neg(ExtInt::PosInf) == ExtInt::NegInf,
        ext_neg(ExtInt::NegInf) == ExtInt::PosInf,
        ext_neg(ext_neg(e)) == e,
{
}

/// Where a value can be negated, so can its negative, and the negative of
/// the negative is the value itself. (An integer whose negative is out of
/// the range of `N` cannot be negated.)
pub proof fn lemma_neg_involution<N: SignedPrim>(v: OmegaInt<N>)
    requires
        v.neg_req(),
    ensures
        v.neg_spec().neg_req(),
        v.neg_spec().neg_spec() == v,
        OmegaInt::<N>::POmega.neg_req() && OmegaInt::<N>::POmega.neg_spec() == OmegaInt::<
            N,
        >::MOmega,
{
    OmegaInt::<N>::lemma_checked(Some(ext_neg(v@)));
    OmegaInt::<N>::lemma_view(v);
}

/// An integer divided by either infinity is zero, whatever its sign.
pub proof fn lemma_div_by_infinity<N: SignedPrim>(x: N, i: OmegaInt<N>)
    requires
        i.pmomega_spec() != 0,
    ensures
        OmegaInt::<N>::outcome(ext_div(OmegaInt::Integer(x)@, i@)) == Ok::<ExtInt, Failure>(
            ExtInt::Finite(0),
        ),
        OmegaInt::<N>::checked(ext_div(OmegaInt::Integer(x)@, i@)) == Some(
            OmegaInt::Integer(N::from_int(0)),
        ),
        N::from_int(0).as_int() == 0,
{
    N::lemma_range();
    N::lemma_from_int(0);
}

} // verus!
