use ztensor::Failure::{ContractViolation, IndeterminateForm, Overflow};
use ztensor::{omega_uint_chkd_op, Omega, OmegaUInt};
use ztensor::OmegaUInt::Natural;

const INF: OmegaUInt<u64> = OmegaUInt::Omega;

#[test]
fn unsigned_sub_with_infinity() {
    for x in [0u64, 1, 77, u64::MAX] {
        assert_eq!(INF.checked_sub(&Natural(x)), Some(INF));
        assert_eq!(Natural(x).checked_sub(&INF), None);
        assert_eq!(INF - Natural(x), INF);
    }
    assert_eq!(INF.checked_sub(&INF), None);
}

#[test]
fn unsigned_sub_of_numbers() {
    assert_eq!(Natural(9u64).checked_sub(&Natural(4)), Some(Natural(5)));
    assert_eq!(Natural(4u64).checked_sub(&Natural(4)), Some(Natural(0)));
    assert_eq!(Natural(4u64).checked_sub(&Natural(9)), None);
}

#[test]
fn unsigned_add() {
    assert_eq!(Natural(9u64).checked_add(&Natural(4)), Some(Natural(13)));
    assert_eq!(Natural(9u64) + Natural(4), Natural(13));
    assert_eq!(Natural(u64::MAX).checked_add(&Natural(1)), None);
    assert_eq!(INF.checked_add(&Natural(4)), Some(INF));
    assert_eq!(Natural(4u64).checked_add(&INF), Some(INF));
    assert_eq!(INF.checked_add(&INF), Some(INF));
}

#[test]
fn unsigned_mul_is_commutative() {
    assert_eq!(Natural(6u64).checked_mul(&Natural(7)), Some(Natural(42)));
    assert_eq!(Natural(6u64) * Natural(7), Natural(42));
    assert_eq!(Natural(u64::MAX).checked_mul(&Natural(2)), None);
    assert_eq!(INF.checked_mul(&Natural(3)), Some(INF));
    assert_eq!(Natural(3u64).checked_mul(&INF), Some(INF));
    assert_eq!(INF.checked_mul(&Natural(0)), None);
    assert_eq!(Natural(0u64).checked_mul(&INF), None);
    assert_eq!(INF.checked_mul(&INF), Some(INF));
    let values = [Natural(0u64), Natural(1), Natural(5), Natural(u64::MAX), INF];
    for a in values {
        for b in values {
            assert_eq!(a.checked_mul(&b), b.checked_mul(&a));
        }
    }
}

#[test]
fn unsigned_div() {
    assert_eq!(Natural(0u64).checked_div(&Natural(5)), Some(Natural(0)));
    assert_eq!(Natural(7u64).checked_div(&Natural(2)), Some(Natural(3)));
    assert_eq!(Natural(7u64) / Natural(2), Natural(3));
    assert_eq!(Natural(7u64).checked_div(&Natural(0)), None);
    assert_eq!(Natural(0u64).checked_div(&Natural(0)), None);
    assert_eq!(INF.checked_div(&Natural(7)), Some(INF));
    assert_eq!(INF.checked_div(&Natural(0)), Some(INF));
    assert_eq!(Natural(7u64).checked_div(&INF), Some(Natural(0)));
    assert_eq!(Natural(0u64).checked_div(&INF), Some(Natural(0)));
    assert_eq!(INF.checked_div(&INF), None);
}

#[test]
fn unsigned_rem() {
    assert_eq!(Natural(7u64).checked_rem(&Natural(3)), Some(Natural(1)));
    assert_eq!(Natural(7u64).checked_rem(&Natural(0)), None);
    assert_eq!(INF.checked_rem(&Natural(3)), None);
    assert_eq!(Natural(3u64).checked_rem(&INF), None);
    assert_eq!(Natural(7u64) % Natural(3), Natural(1));
    assert_eq!(Natural(6u64) % Natural(3), Natural(0));
    assert_eq!(Natural(2u64) % Natural(3), Natural(2));
}

#[test]
fn unsigned_infinity_zero_and_one() {
    assert!(INF.is_omega());
    assert!(!Natural(3u64).is_omega());
    assert_eq!(OmegaUInt::<u64>::omega(), INF);
    let mut x = Natural(3u64);
    x.set_omega();
    assert_eq!(x, INF);
    assert_eq!(OmegaUInt::<u64>::zero(), Natural(0));
    assert_eq!(OmegaUInt::<u64>::one(), Natural(1));
    assert!(Natural(0u64).is_zero() && !Natural(1u64).is_zero() && !INF.is_zero());
    assert!(Natural(1u64).is_one() && !Natural(0u64).is_one() && !INF.is_one());
    let y: OmegaUInt<u64> = OmegaUInt::from(12);
    assert_eq!(y, Natural(12));
}

#[test]
fn no_result_of_unsigned_arithmetic_has_a_reason() {
    let max = Natural(u64::MAX);
    let three = Natural(3u64);
    let zero = Natural(0u64);

    assert_eq!(three.try_add(&three), Ok(Natural(6)));
    assert_eq!(max.try_add(&three), Err(Overflow));
    assert_eq!(INF.try_add(&max), Ok(INF));

    assert_eq!(max.try_sub(&three), Ok(Natural(u64::MAX - 3)));
    assert_eq!(three.try_sub(&max), Err(Overflow));
    assert_eq!(three.try_sub(&INF), Err(IndeterminateForm));
    assert_eq!(INF.try_sub(&INF), Err(IndeterminateForm));
    assert_eq!(INF.try_sub(&three), Ok(INF));

    assert_eq!(three.try_mul(&three), Ok(Natural(9)));
    assert_eq!(max.try_mul(&three), Err(Overflow));
    assert_eq!(INF.try_mul(&zero), Err(IndeterminateForm));
    assert_eq!(zero.try_mul(&INF), Err(IndeterminateForm));
    assert_eq!(three.try_mul(&INF), Ok(INF));

    assert_eq!(max.try_div(&three), Ok(Natural(u64::MAX / 3)));
    assert_eq!(three.try_div(&zero), Err(IndeterminateForm));
    assert_eq!(zero.try_div(&zero), Err(IndeterminateForm));
    assert_eq!(INF.try_div(&INF), Err(IndeterminateForm));
    assert_eq!(INF.try_div(&zero), Ok(INF));
    assert_eq!(three.try_div(&INF), Ok(zero));

    assert_eq!(max.try_rem(&three), Ok(Natural(u64::MAX % 3)));
    assert_eq!(three.try_rem(&zero), Err(IndeterminateForm));
    assert_eq!(INF.try_rem(&three), Err(ContractViolation));
    assert_eq!(three.try_rem(&INF), Err(ContractViolation));
}

#[test]
fn unsigned_checked_op_returns_the_value_of_the_case() {
    let op = |a: &u64, b: &u64| a.checked_sub(*b);
    let run = |a: OmegaUInt<u64>, b: OmegaUInt<u64>, chk_zero: bool| {
        omega_uint_chkd_op(
            &a,
            &b,
            op,
            Some(Natural(1)),
            Some(Natural(2)),
            Some(Natural(3)),
            chk_zero,
            Some(Natural(4)),
            Some(Natural(5)),
            Some(Natural(6)),
            Some(Natural(7)),
        )
    };
    assert_eq!(run(INF, Natural(9), true), Some(Natural(1)));
    assert_eq!(run(Natural(9), INF, false), Some(Natural(2)));
    assert_eq!(run(INF, INF, true), Some(Natural(3)));
    assert_eq!(run(Natural(0), Natural(9), true), Some(Natural(4)));
    assert_eq!(run(Natural(9), Natural(0), true), Some(Natural(5)));
    assert_eq!(run(Natural(0), Natural(0), true), Some(Natural(6)));
    assert_eq!(run(Natural(0), Natural(9), false), Some(Natural(7)));
    assert_eq!(run(Natural(9), Natural(0), false), Some(Natural(9)));
    assert_eq!(run(Natural(9), Natural(4), true), Some(Natural(5)));
    assert_eq!(run(Natural(4), Natural(9), true), Some(Natural(7)));
}
