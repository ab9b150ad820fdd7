//! The primitive integer types that the extended integers are offered for.
//!
//! The arithmetic of each is that of `num_traits`, called through one small
//! function per operation whose contract is taken on trust.

use crate::prim::{lemma_trunc_div_rem, trunc_div, CheckedPrim, SignedPrim, UnsignedPrim};
use vstd::prelude::*;

verus! {

/// `num_traits::Zero::zero` for `i32` is the number 0.
#[verifier::external_body]
fn zero_i32() -> (r: i32)
    ensures
        r == 0,
{
    num_traits::Zero::zero()
}

/// `num_traits::Zero::is_zero` for `i32` tells whether the number is 0.
#[verifier::external_body]
fn is_zero_i32(x: &i32) -> (b: bool)
    ensures
        b == (*x == 0),
{
    num_traits::Zero::is_zero(x)
}

/// `num_traits::One::one` for `i32` is the number 1.
#[verifier::external_body]
fn one_i32() -> (r: i32)
    ensures
        r == 1,
{
    num_traits::One::one()
}

/// `num_traits::One::is_one` for `i32` tells whether the number is 1.
#[verifier::external_body]
fn is_one_i32(x: &i32) -> (b: bool)
    ensures
        b == (*x == 1),
{
    num_traits::One::is_one(x)
}

/// `num_traits::CheckedAdd::checked_add` for `i32` gives the sum,
/// and `None` where the sum is not an `i32`.
#[verifier::external_body]
fn checked_add_i32(x: &i32, v: &i32) -> (r: Option<i32>)
    ensures
        r == (if i32::MIN <= *x + *v <= i32::MAX {
            Some((*x + *v) as i32)
        } else {
            None
        }),
{
    num_traits::CheckedAdd::checked_add(x, v)
}

/// `num_traits::CheckedSub::checked_sub` for `i32` gives the difference,
/// and `None` where the difference is not an `i32`.
#[verifier::external_body]
fn checked_sub_i32(x: &i32, v: &i32) -> (r: Option<i32>)
    ensures
        r == (if i32::MIN <= *x - *v <= i32::MAX {
            Some((*x - *v) as i32)
        } else {
            None
        }),
{
    num_traits::CheckedSub::checked_sub(x, v)
}

/// `num_traits::CheckedMul::checked_mul` for `i32` gives the product,
/// and `None` where the product is not an `i32`.
#[verifier::external_body]
fn checked_mul_i32(x: &i32, v: &i32) -> (r: Option<i32>)
    ensures
        r == (if i32::MIN <= *x * *v <= i32::MAX {
            Some((*x * *v) as i32)
        } else {
            None
        }),
{
    num_traits::CheckedMul::checked_mul(x, v)
}

/// `num_traits::CheckedDiv::checked_div` for `i32` gives the quotient
/// rounded toward zero, and `None` where the divisor is 0 or the quotient is
/// not an `i32`.
#[verifier::external_body]
fn checked_div_i32(x: &i32, v: &i32) -> (r: Option<i32>)
    ensures
        r == (if *v != 0 && i32::MIN <= trunc_div(*x as int, *v as int) <= i32::MAX {
            Some(trunc_div(*x as int, *v as int) as i32)
        } else {
            None
        }),
{
    num_traits::CheckedDiv::checked_div(x, v)
}

/// `num_traits::Signed::is_positive` for `i32` tells whether the number is
/// greater than 0.
#[verifier::external_body]
fn is_positive_i32(x: &i32) -> (b: bool)
    ensures
        b == (*x > 0),
{
    num_traits::Signed::is_positive(x)
}

/// `num_traits::Signed::is_negative` for `i32` tells whether the number is
/// less than 0.
#[verifier::external_body]
fn is_negative_i32(x: &i32) -> (b: bool)
    ensures
        b == (*x < 0),
{
    num_traits::Signed::is_negative(x)
}

impl CheckedPrim for i32 {
    open spec fn as_int(self) -> int {
        self as int
    }

    open spec fn from_int(i: int) -> Self {
        i as i32
    }

    open spec fn min_int() -> int {
        i32::MIN as int
    }

    open spec fn max_int() -> int {
        i32::MAX as int
    }

    proof fn lemma_range() {
    }

    proof fn lemma_as_int(x: Self) {
    }

    proof fn lemma_from_int(i: int) {
    }

    fn zero() -> (r: Self) {
        zero_i32()
    }

    fn is_zero(&self) -> (b: bool) {
        is_zero_i32(self)
    }

    fn one() -> (r: Self) {
        one_i32()
    }

    fn is_one(&self) -> (b: bool) {
        is_one_i32(self)
    }

    fn checked_add(&self, v: &Self) -> (r: Option<Self>) {
        checked_add_i32(self, v)
    }

    fn checked_sub(&self, v: &Self) -> (r: Option<Self>) {
        checked_sub_i32(self, v)
    }

    fn checked_mul(&self, v: &Self) -> (r: Option<Self>) {
        checked_mul_i32(self, v)
    }

    fn checked_div(&self, v: &Self) -> (r: Option<Self>) {
        checked_div_i32(self, v)
    }

    fn rem(self, v: Self) -> (r: Self) {
        proof {
            lemma_trunc_div_rem(self as int, v as int);
        }
        self % v
    }
}

impl SignedPrim for i32 {
    proof fn lemma_signed() {
    }

    fn is_positive(&self) -> (b: bool) {
        is_positive_i32(self)
    }

    fn is_negative(&self) -> (b: bool) {
        is_negative_i32(self)
    }

    fn neg(self) -> (r: Self) {
        -self
    }
}

/// `num_traits::Zero::zero` for `i64` is the number 0.
#[verifier::external_body]
fn zero_i64() -> (r: i64)
    ensures
        r == 0,
{
    num_traits::Zero::zero()
}

/// `num_traits::Zero::is_zero` for `i64` tells whether the number is 0.
#[verifier::external_body]
fn is_zero_i64(x: &i64) -> (b: bool)
    ensures
        b == (*x == 0),
{
    num_traits::Zero::is_zero(x)
}

/// `num_traits::One::one` for `i64` is the number 1.
#[verifier::external_body]
fn one_i64() -> (r: i64)
    ensures
        r == 1,
{
    num_traits::One::one()
}

/// `num_traits::One::is_one` for `i64` tells whether the number is 1.
#[verifier::external_body]
fn is_one_i64(x: &i64) -> (b: bool)
    ensures
        b == (*x == 1),
{
    num_traits::One::is_one(x)
}

/// `num_traits::CheckedAdd::checked_add` for `i64` gives the sum,
/// and `None` where the sum is not an `i64`.
#[verifier::external_body]
fn checked_add_i64(x: &i64, v: &i64) -> (r: Option<i64>)
    ensures
        r == (if i64::MIN <= *x + *v <= i64::MAX {
            Some((*x + *v) as i64)
        } else {
            None
        }),
{
    num_traits::CheckedAdd::checked_add(x, v)
}

/// `num_traits::CheckedSub::checked_sub` for `i64` gives the difference,
/// and `None` where the difference is not an `i64`.
#[verifier::external_body]
fn checked_sub_i64(x: &i64, v: &i64) -> (r: Option<i64>)
    ensures
        r == (if i64::MIN <= *x - *v <= i64::MAX {
            Some((*x - *v) as i64)
        } else {
            None
        }),
{
    num_traits::CheckedSub::checked_sub(x, v)
}

/// `num_traits::CheckedMul::checked_mul` for `i64` gives the product,
/// and `None` where the product is not an `i64`.
#[verifier::external_body]
fn checked_mul_i64(x: &i64, v: &i64) -> (r: Option<i64>)
    ensures
        r == (if i64::MIN <= *x * *v <= i64::MAX {
            Some((*x * *v) as i64)
        } else {
            None
        }),
{
    num_traits::CheckedMul::checked_mul(x, v)
}

/// `num_traits::CheckedDiv::checked_div` for `i64` gives the quotient
/// rounded toward zero, and `None` where the divisor is 0 or the quotient is
/// not an `i64`.
#[verifier::external_body]
fn checked_div_i64(x: &i64, v: &i64) -> (r: Option<i64>)
    ensures
        r == (if *v != 0 && i64::MIN <= trunc_div(*x as int, *v as int) <= i64::MAX {
            Some(trunc_div(*x as int, *v as int) as i64)
        } else {
            None
        }),
{
    num_traits::CheckedDiv::checked_div(x, v)
}

/// `num_traits::Signed::is_positive` for `i64` tells whether the number is
/// greater than 0.
#[verifier::external_body]
fn is_positive_i64(x: &i64) -> (b: bool)
    ensures
        b == (*x > 0),
{
    num_traits::Signed::is_positive(x)
}

/// `num_traits::Signed::is_negative` for `i64` tells whether the number is
/// less than 0.
#[verifier::external_body]
fn is_negative_i64(x: &i64) -> (b: bool)
    ensures
        b == (*x < 0),
{
    num_traits::Signed::is_negative(x)
}

impl CheckedPrim for i64 {
    open spec fn as_int(self) -> int {
        self as int
    }

    open spec fn from_int(i: int) -> Self {
        i as i64
    }

    open spec fn min_int() -> int {
        i64::MIN as int
    }

    open spec fn max_int() -> int {
        i64::MAX as int
    }

    proof fn lemma_range() {
    }

    proof fn lemma_as_int(x: Self) {
    }

    proof fn lemma_from_int(i: int) {
    }

    fn zero() -> (r: Self) {
        zero_i64()
    }

    fn is_zero(&self) -> (b: bool) {
        is_zero_i64(self)
    }

    fn one() -> (r: Self) {
        one_i64()
    }

    fn is_one(&self) -> (b: bool) {
        is_one_i64(self)
    }

    fn checked_add(&self, v: &Self) -> (r: Option<Self>) {
        checked_add_i64(self, v)
    }

    fn checked_sub(&self, v: &Self) -> (r: Option<Self>) {
        checked_sub_i64(self, v)
    }

    fn checked_mul(&self, v: &Self) -> (r: Option<Self>) {
        checked_mul_i64(self, v)
    }

    fn checked_div(&self, v: &Self) -> (r: Option<Self>) {
        checked_div_i64(self, v)
    }

    fn rem(self, v: Self) -> (r: Self) {
        proof {
            lemma_trunc_div_rem(self as int, v as int);
        }
        self % v
    }
}

impl SignedPrim for i64 {
    proof fn lemma_signed() {
    }

    fn is_positive(&self) -> (b: bool) {
        is_positive_i64(self)
    }

    fn is_negative(&self) -> (b: bool) {
        is_negative_i64(self)
    }

    fn neg(self) -> (r: Self) {
        -self
    }
}

/// `num_traits::Zero::zero` for `u64` is the number 0.
#[verifier::external_body]
fn zero_u64() -> (r: u64)
    ensures
        r == 0,
{
    num_traits::Zero::zero()
}

/// `num_traits::Zero::is_zero` for `u64` tells whether the number is 0.
#[verifier::external_body]
fn is_zero_u64(x: &u64) -> (b: bool)
    ensures
        b == (*x == 0),
{
    num_traits::Zero::is_zero(x)
}

/// `num_traits::One::one` for `u64` is the number 1.
#[verifier::external_body]
fn one_u64() -> (r: u64)
    ensures
        r == 1,
{
    num_traits::One::one()
}

/// `num_traits::One::is_one` for `u64` tells whether the number is 1.
#[verifier::external_body]
fn is_one_u64(x: &u64) -> (b: bool)
    ensures
        b == (*x == 1),
{
    num_traits::One::is_one(x)
}

/// `num_traits::CheckedAdd::checked_add` for `u64` gives the sum,
/// and `None` where the sum is not a `u64`.
#[verifier::external_body]
fn checked_add_u64(x: &u64, v: &u64) -> (r: Option<u64>)
    ensures
        r == (if u64::MIN <= *x + *v <= u64::MAX {
            Some((*x + *v) as u64)
        } else {
            None
        }),
{
    num_traits::CheckedAdd::checked_add(x, v)
}

/// `num_traits::CheckedSub::checked_sub` for `u64` gives the difference,
/// and `None` where the difference is not a `u64`.
#[verifier::external_body]
fn checked_sub_u64(x: &u64, v: &u64) -> (r: Option<u64>)
    ensures
        r == (if u64::MIN <= *x - *v <= u64::MAX {
            Some((*x - *v) as u64)
        } else {
            None
        }),
{
    num_traits::CheckedSub::checked_sub(x, v)
}

/// `num_traits::CheckedMul::checked_mul` for `u64` gives the product,
/// and `None` where the product is not a `u64`.
#[verifier::external_body]
fn checked_mul_u64(x: &u64, v: &u64) -> (r: Option<u64>)
    ensures
        r == (if u64::MIN <= *x * *v <= u64::MAX {
            Some((*x * *v) as u64)
        } else {
            None
        }),
{
    num_traits::CheckedMul::checked_mul(x, v)
}

/// `num_traits::CheckedDiv::checked_div` for `u64` gives the quotient
/// rounded down, and `None` where the divisor is 0.
#[verifier::external_body]
fn checked_div_u64(x: &u64, v: &u64) -> (r: Option<u64>)
    ensures
        r == (if *v != 0 {
            Some((*x / *v) as u64)
        } else {
            None
        }),
{
    num_traits::CheckedDiv::checked_div(x, v)
}

impl CheckedPrim for u64 {
    open spec fn as_int(self) -> int {
        self as int
    }

    open spec fn from_int(i: int) -> Self {
        i as u64
    }

    open spec fn min_int() -> int {
        u64::MIN as int
    }

    open spec fn max_int() -> int {
        u64::MAX as int
    }

    proof fn lemma_range() {
    }

    proof fn lemma_as_int(x: Self) {
    }

    proof fn lemma_from_int(i: int) {
    }

    fn zero() -> (r: Self) {
        zero_u64()
    }

    fn is_zero(&self) -> (b: bool) {
        is_zero_u64(self)
    }

    fn one() -> (r: Self) {
        one_u64()
    }

    fn is_one(&self) -> (b: bool) {
        is_one_u64(self)
    }

    fn checked_add(&self, v: &Self) -> (r: Option<Self>) {
        checked_add_u64(self, v)
    }

    fn checked_sub(&self, v: &Self) -> (r: Option<Self>) {
        checked_sub_u64(self, v)
    }

    fn checked_mul(&self, v: &Self) -> (r: Option<Self>) {
        checked_mul_u64(self, v)
    }

    fn checked_div(&self, v: &Self) -> (r: Option<Self>) {
        checked_div_u64(self, v)
    }

    fn rem(self, v: Self) -> (r: Self) {
        self % v
    }
}

impl UnsignedPrim for u64 {
    proof fn lemma_unsigned() {
    }
}

} // verus!
