use vstd::prelude::*;

use crate::error::WavError;

verus! {

/// Smallest value of a 24-bit integer.
pub const MIN_INT_24: i32 = -8388608;

/// Largest value of a 24-bit integer.
pub const MAX_INT_24: i32 = 8388607;

/// Whether `v` lies in the 24-bit range.
pub open spec fn is_int_24(v: int) -> bool {
    MIN_INT_24 <= v <= MAX_INT_24
}

/// Checks that a value held in 32 bits is a valid 24-bit integer.
pub fn assert_int_24(v: i32) -> (r: Result<(), WavError>)
    ensures
        r is Ok <==> is_int_24(v as int),
        r is Err ==> r == Err::<(), WavError>(WavError::InvalidSampleValue),
{
    if v < MIN_INT_24 || v > MAX_INT_24 {
        return Err(WavError::InvalidSampleValue);
    }
    Ok(())
}

} // verus!
