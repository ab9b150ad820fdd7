use ztensor::Failure::{ContractViolation, IndeterminateForm, Overflow};
use ztensor::{
    empty_sign_checker, omega_int_chkd_op, GetSign, Integer, MOmega, OmegaInt, PMOmega, POmega,
    Sign,
};

#[test]
fn test_omega_int() {
    let x: OmegaInt<i32> = POmega;
    assert_eq!(x + x, x);
    let y: OmegaInt<i32> = Integer(89);
    assert_eq!(y + y, Integer(89 * 2));
    assert_eq!(x + y, POmega);
    assert_eq!(y - x, MOmega);
    assert_eq!(-x, MOmega);
    assert_eq!(x.checked_sub(&x), None);
    assert_eq!(x * Integer(-92), MOmega);
}

#[test]
fn add_of_integers_is_their_sum() {
    let a: OmegaInt<i64> = Integer(2);
    let b: OmegaInt<i64> = Integer(3);
    assert_eq!(a.checked_add(&b), Some(Integer(5)));
    assert_eq!(a + b, Integer(5));
    let c: OmegaInt<i32> = Integer(-7);
    let d: OmegaInt<i32> = Integer(4);
    assert_eq!(c.checked_add(&d), Some(Integer(-3)));
}

#[test]
fn add_of_integers_overflows() {
    let a: OmegaInt<i32> = Integer(i32::MAX);
    let b: OmegaInt<i32> = Integer(1);
    assert_eq!(a.checked_add(&b), None);
    let c: OmegaInt<i64> = Integer(i64::MIN);
    let d: OmegaInt<i64> = Integer(-1);
    assert_eq!(c.checked_add(&d), None);
    assert_eq!(c.checked_add(&Integer(1)), Some(Integer(i64::MIN + 1)));
}

#[test]
fn add_of_infinities() {
    let p: OmegaInt<i64> = POmega;
    let m: OmegaInt<i64> = MOmega;
    assert_eq!(p.checked_add(&p), Some(POmega));
    assert_eq!(p.checked_add(&m), None);
    assert_eq!(m.checked_add(&p), None);
}

#[test]
fn add_of_infinity_and_integer() {
    let p: OmegaInt<i64> = POmega;
    let m: OmegaInt<i64> = MOmega;
    for x in [i64::MIN, -5, 0, 7, i64::MAX] {
        assert_eq!(p.checked_add(&Integer(x)), Some(POmega));
        assert_eq!(Integer(x).checked_add(&p), Some(POmega));
        assert_eq!(m.checked_add(&Integer(x)), Some(MOmega));
        assert_eq!(Integer(x).checked_add(&m), Some(MOmega));
    }
}

#[test]
fn sub_is_add_of_the_negative() {
    let p: OmegaInt<i64> = POmega;
    let m: OmegaInt<i64> = MOmega;
    assert_eq!(p.checked_sub(&p), None);
    assert_eq!(m.checked_sub(&m), None);
    assert_eq!(p.checked_sub(&m), Some(POmega));
    assert_eq!(p.checked_sub(&Integer(3)), Some(POmega));
    assert_eq!(m.checked_sub(&Integer(3)), Some(MOmega));
    assert_eq!(Integer(3).checked_sub(&p), Some(MOmega));
    assert_eq!(Integer(3).checked_sub(&m), Some(POmega));
    let a: OmegaInt<i64> = Integer(10);
    assert_eq!(a.checked_sub(&Integer(12)), Some(Integer(-2)));
    let b: OmegaInt<i32> = Integer(-1);
    assert_eq!(b.checked_sub(&Integer(i32::MIN)), Some(Integer(i32::MAX)));
    let c: OmegaInt<i32> = Integer(i32::MIN);
    assert_eq!(c.checked_sub(&Integer(1)), None);
}

#[test]
fn negation_is_an_involution() {
    let p: OmegaInt<i32> = POmega;
    let m: OmegaInt<i32> = MOmega;
    assert_eq!(-p, MOmega);
    assert_eq!(-m, POmega);
    assert_eq!(-(-p), p);
    assert_eq!(-(-m), m);
    for x in [-12, 0, 5, i32::MAX] {
        let v: OmegaInt<i32> = Integer(x);
        assert_eq!(-v, Integer(-x));
        assert_eq!(-(-v), v);
    }
}

#[test]
fn mul_with_infinities() {
    let p: OmegaInt<i64> = POmega;
    let m: OmegaInt<i64> = MOmega;
    assert_eq!(p.checked_mul(&p), Some(POmega));
    assert_eq!(m.checked_mul(&m), Some(POmega));
    assert_eq!(p.checked_mul(&m), Some(MOmega));
    assert_eq!(m.checked_mul(&p), Some(MOmega));
    assert_eq!(p.checked_mul(&Integer(4)), Some(POmega));
    assert_eq!(p.checked_mul(&Integer(-4)), Some(MOmega));
    assert_eq!(m.checked_mul(&Integer(4)), Some(MOmega));
    assert_eq!(m.checked_mul(&Integer(-4)), Some(POmega));
    assert_eq!(Integer(4).checked_mul(&p), Some(POmega));
    assert_eq!(Integer(-4).checked_mul(&p), Some(MOmega));
    assert_eq!(Integer(4).checked_mul(&m), Some(MOmega));
    assert_eq!(Integer(-4).checked_mul(&m), Some(POmega));
    assert_eq!(p.checked_mul(&Integer(0)), None);
    assert_eq!(m.checked_mul(&Integer(0)), None);
    assert_eq!(Integer(0).checked_mul(&p), None);
    assert_eq!(Integer(0).checked_mul(&m), None);
}

#[test]
fn mul_of_integers() {
    let a: OmegaInt<i32> = Integer(-6);
    assert_eq!(a.checked_mul(&Integer(7)), Some(Integer(-42)));
    assert_eq!(a * Integer(7), Integer(-42));
    let b: OmegaInt<i32> = Integer(65536);
    assert_eq!(b.checked_mul(&Integer(65536)), None);
    let c: OmegaInt<i32> = Integer(i32::MIN);
    assert_eq!(c.checked_mul(&Integer(-1)), None);
    let d: OmegaInt<i64> = Integer(3_000_000_000);
    assert_eq!(d.checked_mul(&Integer(-3)), Some(Integer(-9_000_000_000)));
    assert_eq!(d.checked_mul(&Integer(4_000_000_000)), None);
    let e: OmegaInt<i32> = Integer(-9);
    assert_eq!(e.checked_div(&Integer(2)), Some(Integer(-4)));
    assert_eq!(OmegaInt::<i64>::Integer(-5).get_sign(), -1);
    assert_eq!(OmegaInt::<i64>::Integer(5).get_sign(), 1);
    assert_eq!(OmegaInt::<i64>::Integer(0).get_sign(), 0);
}

#[test]
fn div_by_infinity_is_zero() {
    let p: OmegaInt<i64> = POmega;
    let m: OmegaInt<i64> = MOmega;
    for x in [i64::MIN, -9, 0, 9, i64::MAX] {
        assert_eq!(Integer(x).checked_div(&p), Some(Integer(0)));
        assert_eq!(Integer(x).checked_div(&m), Some(Integer(0)));
        assert_eq!(Integer(x) / p, Integer(0));
    }
}

#[test]
fn div_of_infinities() {
    let p: OmegaInt<i64> = POmega;
    let m: OmegaInt<i64> = MOmega;
    assert_eq!(p.checked_div(&Integer(3)), Some(POmega));
    assert_eq!(p.checked_div(&Integer(-3)), Some(MOmega));
    assert_eq!(m.checked_div(&Integer(3)), Some(MOmega));
    assert_eq!(m.checked_div(&Integer(-3)), Some(POmega));
    assert_eq!(p.checked_div(&Integer(0)), None);
    assert_eq!(m.checked_div(&Integer(0)), None);
    assert_eq!(p.checked_div(&p), None);
    assert_eq!(p.checked_div(&m), None);
    assert_eq!(m.checked_div(&p), None);
    assert_eq!(m.checked_div(&m), None);
}

#[test]
fn div_of_integers_rounds_toward_zero() {
    let a: OmegaInt<i64> = Integer(7);
    assert_eq!(a.checked_div(&Integer(2)), Some(Integer(3)));
    assert_eq!(a.checked_div(&Integer(-2)), Some(Integer(-3)));
    let b: OmegaInt<i64> = Integer(-7);
    assert_eq!(b.checked_div(&Integer(2)), Some(Integer(-3)));
    assert_eq!(b.checked_div(&Integer(-2)), Some(Integer(3)));
    assert_eq!(a.checked_div(&Integer(0)), None);
    let z: OmegaInt<i64> = Integer(0);
    assert_eq!(z.checked_div(&Integer(0)), None);
    let c: OmegaInt<i64> = Integer(i64::MIN);
    assert_eq!(c.checked_div(&Integer(-1)), None);
}

#[test]
fn rem_of_integers_has_the_sign_of_the_dividend() {
    let a: OmegaInt<i32> = Integer(7);
    assert_eq!(a % Integer(3), Integer(1));
    assert_eq!(a % Integer(-3), Integer(1));
    let b: OmegaInt<i32> = Integer(-7);
    assert_eq!(b % Integer(3), Integer(-1));
    assert_eq!(b % Integer(-3), Integer(-1));
    let c: OmegaInt<i64> = Integer(12);
    assert_eq!(c % Integer(4), Integer(0));
}

#[test]
fn signs_and_infinity_signs() {
    let p: OmegaInt<i32> = POmega;
    let m: OmegaInt<i32> = MOmega;
    let a: OmegaInt<i32> = Integer(5);
    let b: OmegaInt<i32> = Integer(-5);
    let z: OmegaInt<i32> = Integer(0);
    assert_eq!(p.is_pmomega(), 1);
    assert_eq!(m.is_pmomega(), -1);
    assert_eq!(a.is_pmomega(), 0);
    assert_eq!(OmegaInt::<i32>::pomega(), POmega);
    assert_eq!(OmegaInt::<i32>::momega(), MOmega);
    assert_eq!(p.get_sign(), 1);
    assert_eq!(m.get_sign(), -1);
    assert_eq!(a.get_sign(), 1);
    assert_eq!(b.get_sign(), -1);
    assert_eq!(z.get_sign(), 0);
    assert!(p.is_positive() && a.is_positive());
    assert!(!m.is_positive() && !b.is_positive() && !z.is_positive());
    assert!(m.is_negative() && b.is_negative());
    assert!(!p.is_negative() && !a.is_negative() && !z.is_negative());
}

#[test]
fn abs_and_signum() {
    let p: OmegaInt<i64> = POmega;
    let m: OmegaInt<i64> = MOmega;
    assert_eq!(p.abs(), POmega);
    assert_eq!(m.abs(), POmega);
    assert_eq!(OmegaInt::<i64>::Integer(-8).abs(), Integer(8));
    assert_eq!(OmegaInt::<i64>::Integer(8).abs(), Integer(8));
    assert_eq!(OmegaInt::<i64>::Integer(0).abs(), Integer(0));
    assert_eq!(p.signum(), Integer(1));
    assert_eq!(m.signum(), Integer(-1));
    assert_eq!(OmegaInt::<i64>::Integer(-8).signum(), Integer(-1));
    assert_eq!(OmegaInt::<i64>::Integer(8).signum(), Integer(1));
    assert_eq!(OmegaInt::<i64>::Integer(0).signum(), Integer(0));
    assert_eq!(OmegaInt::<i64>::Integer(3).abs_sub(&Integer(10)), Integer(7));
    assert_eq!(OmegaInt::<i64>::Integer(3).abs_sub(&p), POmega);
}

#[test]
fn zero_and_one_are_integers() {
    assert_eq!(OmegaInt::<i32>::zero(), Integer(0));
    assert_eq!(OmegaInt::<i32>::one(), Integer(1));
    assert_eq!(OmegaInt::<i64>::zero(), Integer(0));
    assert_eq!(OmegaInt::<i64>::one(), Integer(1));
    let p: OmegaInt<i32> = POmega;
    let m: OmegaInt<i32> = MOmega;
    assert!(OmegaInt::<i32>::Integer(0).is_zero());
    assert!(!OmegaInt::<i32>::Integer(1).is_zero());
    assert!(!p.is_zero() && !m.is_zero());
    assert!(OmegaInt::<i32>::Integer(1).is_one());
    assert!(!OmegaInt::<i32>::Integer(0).is_one());
    assert!(!p.is_one() && !m.is_one());
    assert!(OmegaInt::<i64>::Integer(0).is_zero());
    assert!(!OmegaInt::<i64>::Integer(-1).is_zero());
    assert!(OmegaInt::<i64>::Integer(1).is_one());
    assert!(!OmegaInt::<i64>::Integer(2).is_one());
}

#[test]
fn an_integer_converts_to_an_extended_integer() {
    let a: OmegaInt<i64> = OmegaInt::from(17);
    assert_eq!(a, Integer(17));
    let b: OmegaInt<i32> = (-4).into();
    assert_eq!(b, Integer(-4));
}

#[test]
fn no_result_of_signed_arithmetic_has_a_reason() {
    let p: OmegaInt<i32> = POmega;
    let m: OmegaInt<i32> = MOmega;
    let max: OmegaInt<i32> = Integer(i32::MAX);
    let min: OmegaInt<i32> = Integer(i32::MIN);
    let three: OmegaInt<i32> = Integer(3);
    let zero: OmegaInt<i32> = Integer(0);

    assert_eq!(three.try_add(&three), Ok(Integer(6)));
    assert_eq!(max.try_add(&three), Err(Overflow));
    assert_eq!(p.try_add(&m), Err(IndeterminateForm));
    assert_eq!(p.try_add(&three), Ok(POmega));

    assert_eq!(three.try_sub(&max), Ok(Integer(3 - i32::MAX)));
    assert_eq!(min.try_sub(&three), Err(Overflow));
    assert_eq!(p.try_sub(&p), Err(IndeterminateForm));
    assert_eq!(p.try_sub(&m), Ok(POmega));

    assert_eq!(three.try_mul(&three), Ok(Integer(9)));
    assert_eq!(max.try_mul(&three), Err(Overflow));
    assert_eq!(p.try_mul(&zero), Err(IndeterminateForm));
    assert_eq!(zero.try_mul(&m), Err(IndeterminateForm));
    assert_eq!(m.try_mul(&m), Ok(POmega));

    assert_eq!(max.try_div(&three), Ok(Integer(i32::MAX / 3)));
    assert_eq!(min.try_div(&Integer(-1)), Err(Overflow));
    assert_eq!(three.try_div(&zero), Err(IndeterminateForm));
    assert_eq!(zero.try_div(&zero), Err(IndeterminateForm));
    assert_eq!(p.try_div(&zero), Err(IndeterminateForm));
    assert_eq!(p.try_div(&m), Err(IndeterminateForm));
    assert_eq!(three.try_div(&m), Ok(Integer(0)));

    assert_eq!(max.try_rem(&three), Ok(Integer(i32::MAX % 3)));
    assert_eq!(Integer(-7).try_rem(&three), Ok(Integer(-1)));
    assert_eq!(three.try_rem(&zero), Err(IndeterminateForm));
    assert_eq!(min.try_rem(&Integer(-1)), Err(Overflow));
    assert_eq!(p.try_rem(&three), Err(ContractViolation));
    assert_eq!(three.try_rem(&m), Err(ContractViolation));
    assert_eq!(p.try_rem(&p), Err(ContractViolation));
}

#[test]
fn checked_op_asks_the_checker_of_the_case() {
    let op = |a: &i64, b: &i64| a.checked_add(*b);
    let infinite = |s0: Sign, s1: Sign| -> Option<OmegaInt<i64>> {
        Some(Integer(100 * s0 as i64 + s1 as i64))
    };
    let zero = |s0: Sign, s1: Sign| -> Option<OmegaInt<i64>> {
        Some(Integer(10 * s0 as i64 + s1 as i64))
    };
    let fallback = Some(Integer(-1));
    let run = |a: OmegaInt<i64>, b: OmegaInt<i64>, chk_zero: bool| {
        omega_int_chkd_op(&a, &b, op, infinite, chk_zero, zero, fallback)
    };
    assert_eq!(run(Integer(2), Integer(3), false), Some(Integer(5)));
    assert_eq!(run(Integer(2), Integer(3), true), Some(Integer(5)));
    assert_eq!(run(Integer(i64::MAX), Integer(3), false), Some(Integer(-1)));
    assert_eq!(run(POmega, Integer(3), true), Some(Integer(100)));
    assert_eq!(run(Integer(3), MOmega, false), Some(Integer(-1)));
    assert_eq!(run(MOmega, POmega, false), Some(Integer(-99)));
    assert_eq!(run(Integer(0), Integer(3), true), Some(Integer(1)));
    assert_eq!(run(Integer(-4), Integer(0), true), Some(Integer(-10)));
    assert_eq!(run(Integer(0), Integer(0), true), Some(Integer(0)));
    assert_eq!(run(Integer(0), Integer(3), false), Some(Integer(3)));
    assert_eq!(empty_sign_checker::<i64>(1, -1), None);
}

#[test]
fn checked_negation_absolute_value_and_remainder() {
    let p: OmegaInt<i32> = POmega;
    let m: OmegaInt<i32> = MOmega;
    let min: OmegaInt<i32> = Integer(i32::MIN);
    assert_eq!(p.checked_neg(), Some(MOmega));
    assert_eq!(m.checked_neg(), Some(POmega));
    assert_eq!(Integer(12).checked_neg(), Some(Integer(-12)));
    assert_eq!(Integer(i32::MAX).checked_neg(), Some(Integer(-i32::MAX)));
    assert_eq!(min.checked_neg(), None);
    assert_eq!(p.checked_abs(), Some(POmega));
    assert_eq!(m.checked_abs(), Some(POmega));
    assert_eq!(Integer(-12).checked_abs(), Some(Integer(12)));
    assert_eq!(Integer(12).checked_abs(), Some(Integer(12)));
    assert_eq!(min.checked_abs(), None);
    assert_eq!(Integer(-7).checked_rem(&Integer(3)), Some(Integer(-1)));
    assert_eq!(Integer(7).checked_rem(&Integer(0)), None);
    assert_eq!(min.checked_rem(&Integer(-1)), None);
    assert_eq!(p.checked_rem(&Integer(3)), None);
    assert_eq!(Integer(3).checked_rem(&m), None);
}
