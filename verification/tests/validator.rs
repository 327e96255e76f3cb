use opossum::properties::Proptype;
use opossum::validator::{
    and_validator, angle_in_range, numeric_in_range, numeric_is_finite, numeric_is_not_nan, numeric_is_not_zero,
    numeric_is_positive, or_validator, string_not_empty, Validator,
};

fn f(x: f64) -> u64 {
    x.to_bits()
}

#[test]
fn finite_and_nan() {
    assert!(numeric_is_finite().validate(&Proptype::F64(f(1.0))).is_ok());
    assert!(numeric_is_finite().validate(&Proptype::Length(f(f64::INFINITY))).is_err());
    assert!(numeric_is_finite().validate(&Proptype::Energy(f(f64::NAN))).is_err());
    assert!(numeric_is_finite().validate(&Proptype::I32(3)).is_ok());
    assert!(numeric_is_not_nan().validate(&Proptype::F64(f(f64::INFINITY))).is_ok());
    assert!(numeric_is_not_nan().validate(&Proptype::F64(f(f64::NAN))).is_err());
    assert!(numeric_is_not_nan().validate(&Proptype::String("x".to_string())).is_ok());
}

#[test]
fn zero_and_positive() {
    assert!(numeric_is_not_zero().validate(&Proptype::F64(f(0.0))).is_err());
    assert!(numeric_is_not_zero().validate(&Proptype::F64(f(-0.0))).is_err());
    assert!(numeric_is_not_zero().validate(&Proptype::I32(0)).is_err());
    assert!(numeric_is_not_zero().validate(&Proptype::Angle(f(1e-300))).is_ok());
    assert!(numeric_is_positive().validate(&Proptype::F64(f(0.0))).is_err());
    assert!(numeric_is_positive().validate(&Proptype::F64(f(0.5))).is_ok());
    assert!(numeric_is_positive().validate(&Proptype::F64(f64::NAN.to_bits())).is_err());
    assert!(numeric_is_positive().validate(&Proptype::F64(f(-0.0))).is_err());
    assert!(numeric_is_positive().validate(&Proptype::I32(0)).is_err());
    assert!(numeric_is_positive().validate(&Proptype::I32(5)).is_ok());
    assert!(numeric_is_positive().validate(&Proptype::Fluence(f(-2.0))).is_err());
}

#[test]
fn in_range() {
    let v = numeric_in_range(f(-1.0), f(2.5));
    assert!(v.validate(&Proptype::F64(f(-1.0))).is_ok());
    assert!(v.validate(&Proptype::F64(f(2.5))).is_ok());
    assert!(v.validate(&Proptype::F64(f(0.0))).is_ok());
    assert!(v.validate(&Proptype::F64(f(-0.0))).is_ok());
    assert!(v.validate(&Proptype::F64(f(2.5000001))).is_err());
    assert!(v.validate(&Proptype::F64(f(-1.5))).is_err());
    assert!(v.validate(&Proptype::F64(f(f64::NAN))).is_err());
    assert!(v.validate(&Proptype::I32(2)).is_ok());
    assert!(v.validate(&Proptype::I32(3)).is_err());
    assert!(v.validate(&Proptype::I32(-1)).is_ok());
    assert!(v.validate(&Proptype::I32(-2)).is_err());
    assert!(v.validate(&Proptype::Bool(true)).is_ok());
    let wide = numeric_in_range(f(-3e9), f(3e9));
    assert!(wide.validate(&Proptype::I32(i32::MIN)).is_ok());
    assert!(wide.validate(&Proptype::I32(i32::MAX)).is_ok());
    let narrow = numeric_in_range(f(-2147483647.5), f(2147483646.5));
    assert!(narrow.validate(&Proptype::I32(i32::MIN)).is_err());
    assert!(narrow.validate(&Proptype::I32(i32::MAX)).is_err());
    assert!(narrow.validate(&Proptype::I32(2147483646)).is_ok());
}

#[test]
fn angle_range() {
    let incl = angle_in_range(f(0.0), f(1.0), true);
    let excl = angle_in_range(f(0.0), f(1.0), false);
    assert!(incl.validate(&Proptype::Angle(f(0.0))).is_ok());
    assert!(excl.validate(&Proptype::Angle(f(0.0))).is_err());
    assert!(excl.validate(&Proptype::Angle(f(0.5))).is_ok());
    assert!(incl.validate(&Proptype::Angle(f(1.5))).is_err());
    assert!(excl.validate(&Proptype::F64(f(7.0))).is_ok());
}

#[test]
fn strings_and_combinations() {
    assert!(string_not_empty().validate(&Proptype::String(String::new())).is_err());
    assert!(string_not_empty().validate(&Proptype::String("a".to_string())).is_ok());
    let either = or_validator(vec![numeric_is_not_zero(), string_not_empty()]);
    assert!(either.validate(&Proptype::F64(f(0.0))).is_ok());
    let both = and_validator(vec![numeric_is_not_zero(), numeric_is_positive()]);
    assert!(both.validate(&Proptype::F64(f(-1.0))).is_err());
    assert!(both.validate(&Proptype::F64(f(1.0))).is_ok());
    let none = or_validator(vec![numeric_is_not_zero(), numeric_is_finite()]);
    assert!(none.validate(&Proptype::F64(f(1.0))).is_ok());
    let fails = or_validator(vec![numeric_is_not_zero(), numeric_is_positive()]);
    assert!(fails.validate(&Proptype::F64(f(-0.0))).is_err());
    assert!(or_validator(vec![]).validate(&Proptype::I32(0)).is_ok());
    assert!(and_validator(vec![]).validate(&Proptype::I32(0)).is_ok());
    assert!(matches!(numeric_is_finite(), Validator::NumericIsFinite));
}
