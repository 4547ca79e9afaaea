use vstd::prelude::*;

verus! {

/// Widens `v` by `factor` so that the full range maps onto the wider range:
/// non-negative values map to the top of their block, negative ones to its bottom.
pub open spec fn widen_by(v: int, factor: int) -> int {
    if v >= 0 {
        (v + 1) * factor - 1
    } else {
        v * factor
    }
}

/// 16-bit value of an 8-bit sample.
pub open spec fn spec_i8_to_i16(v: int) -> int {
    widen_by(v, 256)
}

/// 24-bit value of an 8-bit sample.
pub open spec fn spec_i8_to_i24(v: int) -> int {
    widen_by(v, 65536)
}

/// 24-bit value of a 16-bit sample.
pub open spec fn spec_i16_to_i24(v: int) -> int {
    widen_by(v, 256)
}

/// Widens a 16-bit sample to 24 bits.
pub fn i16_to_i24(sample_i16: i16) -> (r: i32)
    ensures
        r == spec_i16_to_i24(sample_i16 as int),
        -8388608 <= r <= 8388607,
{
    let sample_i32 = sample_i16 as i32;
    if sample_i32 >= 0 {
        ((sample_i32 + 1) * 256) - 1
    } else {
        sample_i32 * 256
    }
}

/// Widens an 8-bit sample to 24 bits.
pub fn i8_to_i24(sample_i8: i8) -> (r: i32)
    ensures
        r == spec_i8_to_i24(sample_i8 as int),
        -8388608 <= r <= 8388607,
{
    let sample_i32 = sample_i8 as i32;
    if sample_i32 >= 0 {
        ((sample_i32 + 1) * 65536) - 1
    } else {
        sample_i32 * 65536
    }
}

/// Widens an 8-bit sample to 16 bits.
pub fn i8_to_i16(sample_i8: i8) -> (r: i16)
    ensures
        r == spec_i8_to_i16(sample_i8 as int),
{
    let sample_i32 = sample_i8 as i32;
    let sample_i16: i32 = if sample_i32 >= 0 {
        ((sample_i32 + 1) * 256) - 1
    } else {
        sample_i32 * 256
    };
    sample_i16 as i16
}

} // verus!
