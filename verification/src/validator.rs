//! Validators of property values: conditions a value must meet (finite, in a range, a
//! non-empty string, ...), combinable with "or" and "and".
//!
//! Values that a validator does not concern (for example a string for a numeric condition)
//! pass it. Floating-point values are compared by their bit patterns in the IEEE-754 order.
use vstd::prelude::*;
use crate::error::{OpmResult, OpossumError};
use crate::float_bits::{
    bits_is_finite, bits_is_nan, bits_is_zero, bits_le, bits_lt, float_le, float_lt,
    i32_bits, i32_to_bits, is_finite, is_nan, is_zero,
};
use crate::properties::Proptype;

verus! {

/// A condition on property values.
#[derive(Debug)]
pub enum Validator {
    /// Numeric values must be finite.
    NumericIsFinite,
    /// Numeric values must not be NaN.
    NumericIsNotNaN,
    /// Numeric values must not be zero.
    NumericIsNotZero,
    /// Numeric values must be greater than zero (so not zero and not NaN).
    NumericIsPositive,
    /// Numeric values must lie in `[min, max]` (bit patterns).
    NumericInRange { min: u64, max: u64 },
    /// Angles must lie in `[min, max]` (`inclusive`) or `]min, max[` (bit patterns, radians).
    AngleInRange { min: u64, max: u64, inclusive: bool },
    /// Strings must not be empty.
    StringIsNotEmpty,
    /// At least one of the validators must accept the value (any value passes an empty list).
    OrValidator { validators: Vec<Validator> },
    /// All of the validators must accept the value.
    AndValidator { validators: Vec<Validator> },
}

/// The floating-point number a value carries (its first one for a wavelength-scaled value),
/// if it is numeric and not an integer.
pub open spec fn float_of(p: Proptype) -> Option<u64> {
    match p {
        Proptype::F64(v) => Some(v),
        Proptype::Angle(v) => Some(v),
        Proptype::Energy(v) => Some(v),
        Proptype::Fluence(v) => Some(v),
        Proptype::Length(v) => Some(v),
        Proptype::WfLambda(v, _) => Some(v),
        _ => None,
    }
}

/// Whether a value is accepted by a validator.
pub open spec fn accepts(v: Validator, p: Proptype) -> bool
    decreases v,
{
    match v {
        Validator::NumericIsFinite => match float_of(p) {
            Some(x) => is_finite(x),
            None => true,
        },
        Validator::NumericIsNotNaN => match float_of(p) {
            Some(x) => !is_nan(x),
            None => true,
        },
        Validator::NumericIsNotZero => match p {
            Proptype::I32(i) => i != 0,
            _ => match float_of(p) {
                Some(x) => !is_zero(x),
                None => true,
            },
        },
        Validator::NumericIsPositive => match p {
            Proptype::I32(i) => i > 0,
            _ => match float_of(p) {
                Some(x) => float_lt(0u64, x),
                None => true,
            },
        },
        Validator::NumericInRange { min, max } => match p {
            Proptype::I32(i) => float_le(min, i32_bits(i)) && float_le(i32_bits(i), max),
            _ => match float_of(p) {
                Some(x) => float_le(min, x) && float_le(x, max),
                None => true,
            },
        },
        Validator::AngleInRange { min, max, inclusive } => match p {
            Proptype::Angle(a) => if inclusive {
                float_le(min, a) && float_le(a, max)
            } else {
                float_lt(min, a) && float_lt(a, max)
            },
            _ => true,
        },
        Validator::StringIsNotEmpty => match p {
            Proptype::String(s) => s@.len() > 0,
            _ => true,
        },
        Validator::OrValidator { validators } => validators@.len() == 0
            || exists|i: int| 0 <= i < validators@.len() && accepts(#[trigger] validators@[i], p),
        Validator::AndValidator { validators } =>
            forall|i: int| 0 <= i < validators@.len() ==> accepts(#[trigger] validators@[i], p),
    }
}

/// The floating-point number a value carries, if it is numeric and not an integer.
fn float_value(p: &Proptype) -> (r: Option<u64>)
    ensures
        r == float_of(*p),
{
    match p {
        Proptype::F64(v) => Some(*v),
        Proptype::Angle(v) => Some(*v),
        Proptype::Energy(v) => Some(*v),
        Proptype::Fluence(v) => Some(*v),
        Proptype::Length(v) => Some(*v),
        Proptype::WfLambda(v, _) => Some(*v),
        _ => None,
    }
}

impl Validator {
    /// Validates a value.
    ///
    /// # Errors
    ///
    /// This function returns a `Properties` error if the value is not accepted. (For several
    /// "or"-combined validators that all reject the value, the error is that of the last one.)
    pub fn validate(&self, prop: &Proptype) -> (r: OpmResult<()>)
        ensures
            r is Ok <==> accepts(*self, *prop),
            r matches Err(e) ==> e is Properties,
        decreases self,
    {
        match self {
            Validator::NumericIsFinite => {
                let ok = match float_value(prop) {
                    Some(x) => bits_is_finite(x),
                    None => true,
                };
                if ok {
                    Ok(())
                } else {
                    Err(OpossumError::Properties("value must be finite (not NaN or +/- Infinity)".to_owned()))
                }
            },
            Validator::NumericIsNotNaN => {
                let ok = match float_value(prop) {
                    Some(x) => !bits_is_nan(x),
                    None => true,
                };
                if ok {
                    Ok(())
                } else {
                    Err(OpossumError::Properties("value must not be NaN".to_owned()))
                }
            },
            Validator::NumericIsNotZero => {
                let ok = match prop {
                    Proptype::I32(i) => *i != 0,
                    _ => match float_value(prop) {
                        Some(x) => !bits_is_zero(x),
                        None => true,
                    },
                };
                if ok {
                    Ok(())
                } else {
                    Err(OpossumError::Properties("value must not be zero".to_owned()))
                }
            },
            Validator::NumericIsPositive => {
                let ok = match prop {
                    Proptype::I32(i) => *i > 0,
                    _ => match float_value(prop) {
                        Some(x) => bits_lt(0u64, x),
                        None => true,
                    },
                };
                if ok {
                    Ok(())
                } else {
                    Err(OpossumError::Properties("value must be positive.".to_owned()))
                }
            },
            Validator::NumericInRange { min, max } => {
                let ok = match prop {
                    Proptype::I32(i) => {
                        let x = i32_to_bits(*i);
                        bits_le(*min, x) && bits_le(x, *max)
                    },
                    _ => match float_value(prop) {
                        Some(x) => bits_le(*min, x) && bits_le(x, *max),
                        None => true,
                    },
                };
                if ok {
                    Ok(())
                } else {
                    Err(OpossumError::Properties("value is outside the allowed range.".to_owned()))
                }
            },
            Validator::AngleInRange { min, max, inclusive } => {
                let ok = match prop {
                    Proptype::Angle(a) => if *inclusive {
                        bits_le(*min, *a) && bits_le(*a, *max)
                    } else {
                        bits_lt(*min, *a) && bits_lt(*a, *max)
                    },
                    _ => true,
                };
                if ok {
                    Ok(())
                } else {
                    Err(OpossumError::Properties("angle is outside the allowed range.".to_owned()))
                }
            },
            Validator::StringIsNotEmpty => {
                match prop {
                    Proptype::String(s) => if s.as_str().is_empty() {
                        Err(OpossumError::Properties("string must not be empty.".to_owned()))
                    } else {
                        Ok(())
                    },
                    _ => Ok(()),
                }
            },
            Validator::OrValidator { validators } => {
                let mut last: OpmResult<()> = Ok(());
                let mut i: usize = 0;
                while i < validators.len()
                    invariant
                        *self == (Validator::OrValidator { validators: *validators }),
                        i <= validators@.len(),
                        forall|j: int| 0 <= j < i ==> !accepts(#[trigger] validators@[j], *prop),
                        i > 0 ==> (last matches Err(e) && e is Properties),
                        i == 0 ==> last is Ok,
                    decreases validators@.len() - i,
                {
                    proof { lemma_decreases_to_member(*self, *validators, i as int); }
                    let r = validators[i].validate(prop);
                    if r.is_ok() {
                        return Ok(());
                    }
                    last = r;
                    i = i + 1;
                }
                last
            },
            Validator::AndValidator { validators } => {
                let mut i: usize = 0;
                while i < validators.len()
                    invariant
                        *self == (Validator::AndValidator { validators: *validators }),
                        i <= validators@.len(),
                        forall|j: int| 0 <= j < i ==> accepts(#[trigger] validators@[j], *prop),
                    decreases validators@.len() - i,
                {
                    proof { lemma_decreases_to_member(*self, *validators, i as int); }
                    let r = validators[i].validate(prop);
                    if r.is_err() {
                        proof {
                            if accepts(*self, *prop) {
                                lemma_and_accepts(*validators, *prop, i as int);
                            }
                        }
                        return r;
                    }
                    i = i + 1;
                }
                Ok(())
            },
        }
    }
}

/// A value accepted by "and"-combined validators is accepted by each of them.
proof fn lemma_and_accepts(validators: Vec<Validator>, p: Proptype, i: int)
    requires
        0 <= i < validators@.len(),
        accepts(Validator::AndValidator { validators }, p),
    ensures
        accepts(validators@[i], p),
{
    let v = Validator::AndValidator { validators };
    assert(validators@[i] == v->AndValidator_validators@[i]);
}

/// A validator combining others decreases to each of them.
proof fn lemma_decreases_to_member(v: Validator, validators: Vec<Validator>, i: int)
    requires
        v == (Validator::OrValidator { validators }) || v == (Validator::AndValidator { validators }),
        0 <= i < validators@.len(),
    ensures
        decreases_to!(v => validators@[i]),
{
    assert(decreases_to!(validators => validators@));
    assert(decreases_to!(validators@ => validators@[i]));
    if v is OrValidator {
        assert(decreases_to!(v => v->OrValidator_validators));
    } else {
        assert(decreases_to!(v => v->AndValidator_validators));
    }
}

/// A validator requiring numeric values to be finite.
pub fn numeric_is_finite() -> (v: Validator)
    ensures
        v == Validator::NumericIsFinite,
{
    Validator::NumericIsFinite
}

/// A validator requiring numeric values not to be NaN.
pub fn numeric_is_not_nan() -> (v: Validator)
    ensures
        v == Validator::NumericIsNotNaN,
{
    Validator::NumericIsNotNaN
}

/// A validator requiring numeric values not to be zero.
pub fn numeric_is_not_zero() -> (v: Validator)
    ensures
        v == Validator::NumericIsNotZero,
{
    Validator::NumericIsNotZero
}

/// A validator requiring numeric values to be greater than zero.
pub fn numeric_is_positive() -> (v: Validator)
    ensures
        v == Validator::NumericIsPositive,
{
    Validator::NumericIsPositive
}

/// A validator requiring numeric values to lie in `[min, max]` (bit patterns).
pub fn numeric_in_range(min: u64, max: u64) -> (v: Validator)
    ensures
        v == (Validator::NumericInRange { min, max }),
{
    Validator::NumericInRange { min, max }
}

/// A validator requiring angles to lie in `[min, max]` (`inclusive`) or `]min, max[`.
pub fn angle_in_range(min: u64, max: u64, inclusive: bool) -> (v: Validator)
    ensures
        v == (Validator::AngleInRange { min, max, inclusive }),
{
    Validator::AngleInRange { min, max, inclusive }
}

/// A validator requiring strings not to be empty.
pub fn string_not_empty() -> (v: Validator)
    ensures
        v == Validator::StringIsNotEmpty,
{
    Validator::StringIsNotEmpty
}

/// A validator accepting the values that one of the given validators accepts.
pub fn or_validator(validators: Vec<Validator>) -> (v: Validator)
    ensures
        v == (Validator::OrValidator { validators }),
{
    Validator::OrValidator { validators }
}

/// A validator accepting the values that all of the given validators accept.
pub fn and_validator(validators: Vec<Validator>) -> (v: Validator)
    ensures
        v == (Validator::AndValidator { validators }),
{
    Validator::AndValidator { validators }
}

/// A float-valued property (a plain float, an angle, an energy, a fluence, a length, or a
/// wavelength-scaled value) is judged by the numeric validators on its float: it is finite,
/// not NaN, not zero, positive, or within a range exactly when that float is.
pub proof fn lemma_numeric_validators_judge_the_float(p: Proptype, x: u64, min: u64, max: u64)
    requires
        p == Proptype::F64(x) || p == Proptype::Angle(x) || p == Proptype::Energy(x)
            || p == Proptype::Fluence(x) || p == Proptype::Length(x)
            || exists|w: u64| p == Proptype::WfLambda(x, w),
    ensures
        float_of(p) == Some(x),
        accepts(Validator::NumericIsFinite, p) <==> is_finite(x),
        accepts(Validator::NumericIsNotNaN, p) <==> !is_nan(x),
        accepts(Validator::NumericIsNotZero, p) <==> !is_zero(x),
        accepts(Validator::NumericIsPositive, p) <==> float_lt(0u64, x),
        accepts(Validator::NumericInRange { min, max }, p) <==> (float_le(min, x) && float_le(x, max)),
{
}

/// A value that carries no float and is no integer (a string, a flag, an identifier, ports,
/// an aperture, an optional length, a vector or a refractive index) passes every numeric
/// validator.
pub proof fn lemma_numeric_validators_pass_other_values(p: Proptype, min: u64, max: u64)
    requires
        p is String || p is Bool || p is Uuid || p is OpticPorts || p is Aperture
            || p is LengthOption || p is Vec2 || p is Vec3 || p is RefractiveIndex,
    ensures
        float_of(p) is None,
        accepts(Validator::NumericIsFinite, p),
        accepts(Validator::NumericIsNotNaN, p),
        accepts(Validator::NumericIsNotZero, p),
        accepts(Validator::NumericIsPositive, p),
        accepts(Validator::NumericInRange { min, max }, p),
{
}

} // verus!
