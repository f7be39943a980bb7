use vstd::prelude::*;

pub mod base;
pub mod errors;
pub mod laws;
pub mod numeric;
pub mod scalars;
pub mod systems;

use crate::errors::NumericError;
use crate::numeric::Value;

verus! {

/// Converts a value of one numeric type into another, keeping the integer it
/// stands for. Fails exactly when the destination type cannot hold that
/// integer; nothing is truncated.
pub fn cast<U: Value, V: Value>(value: U) -> (r: Result<V, NumericError>)
    ensures
        r is Ok <==> V::representable(value.as_int()),
        r matches Ok(v) ==> v.as_int() == value.as_int(),
        r matches Err(e) ==> e == NumericError::CastFailure,
{
    proof {
        U::value_laws(value, value);
    }
    let narrowed = match value.widen() {
        Some(w) => V::narrow(w),
        None => match value.widen_unsigned() {
            Some(w) => V::narrow_unsigned(w),
            None => None,
        },
    };
    match narrowed {
        Some(v) => Ok(v),
        None => Err(NumericError::CastFailure),
    }
}

} // verus!
