use simurust::base::MainSystem;
use simurust::cast;
use simurust::errors::NumericError;
use simurust::numeric::{Time, Value};
use simurust::systems::sources::Polynomial;

#[test]
fn cast_keeps_a_value_that_fits() {
    let r: Result<i64, NumericError> = cast(5u64);
    assert_eq!(r, Ok(5i64));
    let r: Result<u8, NumericError> = cast(255i32);
    assert_eq!(r, Ok(255u8));
    let r: Result<i8, NumericError> = cast(-128i128);
    assert_eq!(r, Ok(-128i8));
    let r: Result<i128, NumericError> = cast(u64::MAX);
    assert_eq!(r, Ok(u64::MAX as i128));
}

#[test]
fn cast_reports_a_value_that_does_not_fit() {
    let r: Result<i8, NumericError> = cast(200u64);
    assert_eq!(r, Err(NumericError::CastFailure));
    let r: Result<u32, NumericError> = cast(-1i64);
    assert_eq!(r, Err(NumericError::CastFailure));
    let r: Result<i64, NumericError> = cast(u64::MAX);
    assert_eq!(r, Err(NumericError::CastFailure));
    let r: Result<u8, NumericError> = cast(256u16);
    assert_eq!(r, Err(NumericError::CastFailure));
}

#[test]
fn cast_at_the_edges_of_the_target() {
    let r: Result<i16, NumericError> = cast(32767i32);
    assert_eq!(r, Ok(i16::MAX));
    let r: Result<i16, NumericError> = cast(32768i32);
    assert_eq!(r, Err(NumericError::CastFailure));
    let r: Result<i16, NumericError> = cast(-32768i32);
    assert_eq!(r, Ok(i16::MIN));
    let r: Result<i16, NumericError> = cast(-32769i32);
    assert_eq!(r, Err(NumericError::CastFailure));
    let r: Result<u64, NumericError> = cast(0i8);
    assert_eq!(r, Ok(0u64));
}

#[test]
fn narrow_and_widen_agree_on_every_scalar() {
    assert_eq!(<i8 as Value>::narrow(127), Some(127i8));
    assert_eq!(<i8 as Value>::narrow(128), None);
    assert_eq!(<i16 as Value>::narrow(-32768), Some(i16::MIN));
    assert_eq!(<i32 as Value>::narrow(1 << 31), None);
    assert_eq!(<i64 as Value>::narrow(i64::MIN as i128), Some(i64::MIN));
    assert_eq!(<i128 as Value>::narrow(i128::MAX), Some(i128::MAX));
    assert_eq!(<u8 as Value>::narrow(-1), None);
    assert_eq!(<u16 as Value>::narrow(65535), Some(u16::MAX));
    assert_eq!(<u32 as Value>::narrow(1 << 32), None);
    assert_eq!(<u64 as Value>::narrow(u64::MAX as i128), Some(u64::MAX));
    assert_eq!(<u128 as Value>::narrow(-1), None);
    assert_eq!(<u128 as Value>::narrow(0), Some(0));
    assert_eq!(<u128 as Value>::narrow(i128::MAX), Some(i128::MAX as u128));
    assert_eq!(Value::widen(-7i8), Some(-7i128));
    assert_eq!(Value::widen(u64::MAX), Some(u64::MAX as i128));
    assert_eq!(Value::widen(i128::MAX as u128), Some(i128::MAX));
    assert_eq!(Value::widen(i128::MAX as u128 + 1), None);
    assert_eq!(Value::widen(u128::MAX), None);
    assert_eq!(Value::widen_unsigned(-7i8), None);
    assert_eq!(Value::widen_unsigned(0i64), Some(0u128));
    assert_eq!(Value::widen_unsigned(i128::MAX), Some(i128::MAX as u128));
    assert_eq!(Value::widen_unsigned(u128::MAX), Some(u128::MAX));
    assert_eq!(Value::widen_unsigned(200u8), Some(200u128));
}

#[test]
fn zero_and_one() {
    assert_eq!(<i64 as Value>::zero(), 0);
    assert_eq!(<i64 as Value>::one(), 1);
    assert_eq!(<u8 as Value>::zero(), 0);
    assert_eq!(<u8 as Value>::one(), 1);
}

#[test]
fn checked_addition_and_multiplication() {
    assert_eq!(Value::add_checked(3i64, 4), Some(7));
    assert_eq!(Value::add_checked(i64::MAX, 1), None);
    assert_eq!(Value::add_checked(0u8, 255), Some(255));
    assert_eq!(Value::add_checked(1u8, 255), None);
    assert_eq!(Value::mul_checked(-3i32, 4), Some(-12));
    assert_eq!(Value::mul_checked(i32::MIN, -1), None);
    assert_eq!(Value::mul_checked(16u8, 16), None);
}

#[test]
fn checked_negation() {
    assert_eq!(Value::neg_checked(5i16), Some(-5));
    assert_eq!(Value::neg_checked(i16::MIN), None);
    assert_eq!(Value::neg_checked(0u32), Some(0));
    assert_eq!(Value::neg_checked(1u32), None);
}

#[test]
fn checked_division_rounds_towards_zero() {
    assert_eq!(Value::div_checked(7i64, 2), Some(3));
    assert_eq!(Value::div_checked(-7i64, 2), Some(-3));
    assert_eq!(Value::div_checked(7i64, -2), Some(-3));
    assert_eq!(Value::div_checked(-7i64, -2), Some(3));
    assert_eq!(Value::div_checked(7i64, 0), None);
    assert_eq!(Value::div_checked(i8::MIN, -1), None);
    assert_eq!(Value::div_checked(9u8, 4), Some(2));
    assert_eq!(Value::div_checked(9u8, 0), None);
}

#[test]
fn checked_power() {
    assert_eq!(Value::pow_checked(3i64, 4), Some(81));
    assert_eq!(Value::pow_checked(2i8, 4), Some(16));
    assert_eq!(Value::pow_checked(7i8, 8), None);
    assert_eq!(Value::pow_checked(7u32, 8), Some(5_764_801));
    assert_eq!(Value::pow_checked(0u32, 0), Some(1));
    assert_eq!(Value::pow_checked(-2i8, 7), Some(i8::MIN));
    assert_eq!(Value::pow_checked(2i8, 7), None);
    assert_eq!(Value::pow_checked(5u64, 1), Some(5));
    assert_eq!(Value::pow_checked(2u16, 16), None);
    assert_eq!(Value::pow_checked(2u16, 15), Some(32768));
    assert_eq!(Value::pow_checked(-3i16, 3), Some(-27));
    assert_eq!(Value::pow_checked(10i128, 38), Some(100000000000000000000000000000000000000));
    assert_eq!(Value::pow_checked(10i128, 39), None);
    assert_eq!(Value::pow_checked(2u8, 7), Some(128));
    assert_eq!(Value::pow_checked(2i32, 31), None);
    assert_eq!(Value::pow_checked(2i64, 62), Some(1 << 62));
}

#[test]
fn integral_time_steps_by_one_unit() {
    assert_eq!(<u32 as Time>::default_step_size(), 1u32);
    assert_eq!(<u64 as Time>::default_step_size(), 1u64);
}

#[test]
fn time_order() {
    assert!(Time::precedes(3u64, 4u64));
    assert!(!Time::precedes(4u64, 4u64));
    assert!(!Time::precedes(5u32, 4u32));
}

/// The exact power where its magnitude stays below 2^100, else `None`.
fn exact_power(base: i128, exp: usize) -> Option<i128> {
    let limit: i128 = 1 << 100;
    let mut acc: i128 = 1;
    for _ in 0..exp {
        acc *= base;
        if acc >= limit || acc <= -limit {
            return None;
        }
    }
    Some(acc)
}

#[test]
fn checked_power_is_exact_on_all_of_i8() {
    for base in i8::MIN..=i8::MAX {
        for exp in 0..=40usize {
            let expected = match exact_power(base as i128, exp) {
                Some(p) if i8::MIN as i128 <= p && p <= i8::MAX as i128 => Some(p as i8),
                _ => None,
            };
            assert_eq!(Value::pow_checked(base, exp), expected, "{}^{}", base, exp);
        }
    }
}

#[test]
fn checked_power_is_exact_on_all_of_u8() {
    for base in u8::MIN..=u8::MAX {
        for exp in 0..=40usize {
            let expected = match exact_power(base as i128, exp) {
                Some(p) if p <= u8::MAX as i128 => Some(p as u8),
                _ => None,
            };
            assert_eq!(Value::pow_checked(base, exp), expected, "{}^{}", base, exp);
        }
    }
}

#[test]
fn checked_power_is_exact_on_small_bases_of_i16_and_u16() {
    for base in -40i16..=40 {
        for exp in 0..=20usize {
            let expected = match exact_power(base as i128, exp) {
                Some(p) if i16::MIN as i128 <= p && p <= i16::MAX as i128 => Some(p as i16),
                _ => None,
            };
            assert_eq!(Value::pow_checked(base, exp), expected, "{}^{}", base, exp);
        }
    }
    for base in 0u16..=40 {
        for exp in 0..=20usize {
            let expected = match exact_power(base as i128, exp) {
                Some(p) if p <= u16::MAX as i128 => Some(p as u16),
                _ => None,
            };
            assert_eq!(Value::pow_checked(base, exp), expected, "{}^{}", base, exp);
        }
    }
}

#[test]
fn narrow_is_exact_around_the_small_types() {
    for w in -70000i128..=70000 {
        let to_i8 = if -128 <= w && w <= 127 { Some(w as i8) } else { None };
        let to_u8 = if 0 <= w && w <= 255 { Some(w as u8) } else { None };
        let to_i16 = if -32768 <= w && w <= 32767 { Some(w as i16) } else { None };
        let to_u16 = if 0 <= w && w <= 65535 { Some(w as u16) } else { None };
        assert_eq!(<i8 as Value>::narrow(w), to_i8);
        assert_eq!(<u8 as Value>::narrow(w), to_u8);
        assert_eq!(<i16 as Value>::narrow(w), to_i16);
        assert_eq!(<u16 as Value>::narrow(w), to_u16);
    }
}

#[test]
fn narrow_at_the_edges_of_the_large_types() {
    assert_eq!(<i32 as Value>::narrow(i32::MAX as i128), Some(i32::MAX));
    assert_eq!(<i32 as Value>::narrow(i32::MAX as i128 + 1), None);
    assert_eq!(<i32 as Value>::narrow(i32::MIN as i128), Some(i32::MIN));
    assert_eq!(<i32 as Value>::narrow(i32::MIN as i128 - 1), None);
    assert_eq!(<u32 as Value>::narrow(u32::MAX as i128), Some(u32::MAX));
    assert_eq!(<u32 as Value>::narrow(u32::MAX as i128 + 1), None);
    assert_eq!(<u32 as Value>::narrow(0), Some(0));
    assert_eq!(<i64 as Value>::narrow(i64::MAX as i128), Some(i64::MAX));
    assert_eq!(<i64 as Value>::narrow(i64::MAX as i128 + 1), None);
    assert_eq!(<i64 as Value>::narrow(i64::MIN as i128 - 1), None);
    assert_eq!(<u64 as Value>::narrow(u64::MAX as i128 + 1), None);
    assert_eq!(<u64 as Value>::narrow(-1), None);
    assert_eq!(<i128 as Value>::narrow(i128::MIN), Some(i128::MIN));
}

#[test]
fn narrow_from_the_unsigned_wide_type() {
    let beyond = i128::MAX as u128 + 1;
    assert_eq!(<i8 as Value>::narrow_unsigned(127), Some(127i8));
    assert_eq!(<i8 as Value>::narrow_unsigned(128), None);
    assert_eq!(<u8 as Value>::narrow_unsigned(255), Some(255u8));
    assert_eq!(<u8 as Value>::narrow_unsigned(256), None);
    assert_eq!(<i16 as Value>::narrow_unsigned(32768), None);
    assert_eq!(<u16 as Value>::narrow_unsigned(65535), Some(u16::MAX));
    assert_eq!(<i32 as Value>::narrow_unsigned(i32::MAX as u128), Some(i32::MAX));
    assert_eq!(<u32 as Value>::narrow_unsigned(u32::MAX as u128 + 1), None);
    assert_eq!(<i64 as Value>::narrow_unsigned(i64::MAX as u128), Some(i64::MAX));
    assert_eq!(<i64 as Value>::narrow_unsigned(i64::MAX as u128 + 1), None);
    assert_eq!(<u64 as Value>::narrow_unsigned(u64::MAX as u128), Some(u64::MAX));
    assert_eq!(<u64 as Value>::narrow_unsigned(u64::MAX as u128 + 1), None);
    assert_eq!(<i128 as Value>::narrow_unsigned(i128::MAX as u128), Some(i128::MAX));
    assert_eq!(<i128 as Value>::narrow_unsigned(beyond), None);
    assert_eq!(<u128 as Value>::narrow_unsigned(beyond), Some(beyond));
    assert_eq!(<u128 as Value>::narrow_unsigned(u128::MAX), Some(u128::MAX));
    for ty_max in [beyond, u128::MAX] {
        assert_eq!(<i8 as Value>::narrow_unsigned(ty_max), None);
        assert_eq!(<u8 as Value>::narrow_unsigned(ty_max), None);
        assert_eq!(<u64 as Value>::narrow_unsigned(ty_max), None);
    }
}

#[test]
fn cast_to_and_from_the_widest_unsigned_type() {
    let beyond = i128::MAX as u128 + 1;
    let r: Result<u128, NumericError> = cast(u64::MAX);
    assert_eq!(r, Ok(u64::MAX as u128));
    let r: Result<u128, NumericError> = cast(-1i8);
    assert_eq!(r, Err(NumericError::CastFailure));
    let r: Result<u128, NumericError> = cast(i128::MAX);
    assert_eq!(r, Ok(i128::MAX as u128));
    let r: Result<u128, NumericError> = cast(u128::MAX);
    assert_eq!(r, Ok(u128::MAX));
    let r: Result<u128, NumericError> = cast(beyond);
    assert_eq!(r, Ok(beyond));
    let r: Result<i128, NumericError> = cast(beyond);
    assert_eq!(r, Err(NumericError::CastFailure));
    let r: Result<i128, NumericError> = cast(beyond - 1);
    assert_eq!(r, Ok(i128::MAX));
    let r: Result<u64, NumericError> = cast(u128::MAX);
    assert_eq!(r, Err(NumericError::CastFailure));
    let r: Result<i64, NumericError> = cast(12u128);
    assert_eq!(r, Ok(12i64));
}

#[test]
fn arithmetic_on_the_widest_unsigned_type() {
    assert_eq!(<u128 as Value>::zero(), 0);
    assert_eq!(<u128 as Value>::one(), 1);
    assert_eq!(Value::add_checked(u128::MAX - 1, 1), Some(u128::MAX));
    assert_eq!(Value::add_checked(u128::MAX, 1), None);
    assert_eq!(Value::mul_checked(1u128 << 64, 1u128 << 63), Some(1u128 << 127));
    assert_eq!(Value::mul_checked(1u128 << 64, 1u128 << 64), None);
    assert_eq!(Value::neg_checked(0u128), Some(0));
    assert_eq!(Value::neg_checked(5u128), None);
    assert_eq!(Value::div_checked(u128::MAX, 2), Some(u128::MAX / 2));
    assert_eq!(Value::div_checked(7u128, 0), None);
    assert_eq!(Value::pow_checked(2u128, 127), Some(1u128 << 127));
    assert_eq!(Value::pow_checked(2u128, 128), None);
    assert_eq!(Value::pow_checked(3u128, 4), Some(81));
    assert_eq!(Value::pow_checked(0u128, 0), Some(1));
    assert_eq!(Value::pow_checked(0u128, 9), Some(0));
    assert_eq!(Value::pow_checked(10u128, 38), Some(100000000000000000000000000000000000000));
    assert_eq!(Value::pow_checked(10u128, 39), None);
    assert_eq!(Value::pow_checked(u128::MAX, 1), Some(u128::MAX));
    assert_eq!(Value::pow_checked(u128::MAX, 2), None);
}

#[test]
fn diagram_over_the_widest_unsigned_values() {
    let top = 1u128 << 127;
    let mut sys: MainSystem<u64, u128, Polynomial<u64, u128>> = MainSystem::new();
    let a = sys.add_subsystem(Polynomial::from(vec![top, 1], 0, 5).unwrap());
    assert_eq!(sys.run_simulation(5), Ok(5));
    assert_eq!(sys.get_outputs(a), vec![top + 5]);
}
