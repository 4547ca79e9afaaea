use vstd::prelude::*;

use crate::bytes::{pow256, signed_bytes, signed_le, unsigned_le};
use crate::upconvert::{
    i16_to_i24, i8_to_i16, i8_to_i24, spec_i16_to_i24, spec_i8_to_i16, spec_i8_to_i24,
};
use crate::wave_header::{format_bytes, format_rank, SampleFormat};

verus! {

/// Whether `v` is a value that a sample of format `f` can hold. A float sample
/// is held as its 32-bit pattern, read as a two's-complement integer.
pub open spec fn in_format_range(v: int, f: SampleFormat) -> bool {
    match f {
        SampleFormat::Int8 => -0x80 <= v < 0x80,
        SampleFormat::Int16 => -0x8000 <= v < 0x8000,
        SampleFormat::Int24 => -0x80_0000 <= v < 0x80_0000,
        SampleFormat::Float => -0x8000_0000 <= v < 0x8000_0000,
    }
}

/// Whether samples of format `from` may be widened to format `to`.
pub open spec fn widens_to(from: SampleFormat, to: SampleFormat) -> bool {
    format_rank(from) <= format_rank(to)
}

/// The value of integer sample `v` of format `from` once widened to the integer
/// format `to`.
pub open spec fn widen(v: int, from: SampleFormat, to: SampleFormat) -> int {
    match (from, to) {
        (SampleFormat::Int8, SampleFormat::Int16) => spec_i8_to_i16(v),
        (SampleFormat::Int8, SampleFormat::Int24) => spec_i8_to_i24(v),
        (SampleFormat::Int16, SampleFormat::Int24) => spec_i16_to_i24(v),
        _ => v,
    }
}

/// Whether `f` is one of the integer formats.
pub open spec fn is_int_format(f: SampleFormat) -> bool {
    f != SampleFormat::Float
}

/// The sample types that the library reads and writes without floating point:
/// `i8`, `i16` and `i32` (holding a 24-bit value).
pub trait Sample: Copy + Sized {
    /// The format whose values this type holds.
    spec fn spec_format() -> SampleFormat;

    /// The integer value of this sample.
    spec fn spec_value(&self) -> int;

    /// The format whose values this type holds.
    fn format() -> (r: SampleFormat)
        ensures
            r == Self::spec_format(),
            is_int_format(r);

    /// The value as a 32-bit integer.
    fn to_i32(&self) -> (r: i32)
        ensures
            r == self.spec_value();

    /// Whether this type can hold the 32-bit value `v`.
    spec fn spec_fits(v: int) -> bool;

    /// Every value of this type's format fits in this type.
    proof fn lemma_format_fits(v: int)
        requires
            in_format_range(v, Self::spec_format()),
        ensures
            Self::spec_fits(v);

    /// The sample of value `v`.
    fn from_i32(v: i32) -> (r: Self)
        requires
            Self::spec_fits(v as int),
        ensures
            r.spec_value() == v;
}

impl Sample for i8 {
    open spec fn spec_fits(v: int) -> bool {
        -0x80 <= v < 0x80
    }

    proof fn lemma_format_fits(v: int) {
    }

    open spec fn spec_format() -> SampleFormat {
        SampleFormat::Int8
    }

    open spec fn spec_value(&self) -> int {
        *self as int
    }

    fn format() -> (r: SampleFormat) {
        SampleFormat::Int8
    }

    fn to_i32(&self) -> (r: i32) {
        *self as i32
    }

    fn from_i32(v: i32) -> (r: Self) {
        v as i8
    }
}

impl Sample for i16 {
    open spec fn spec_fits(v: int) -> bool {
        -0x8000 <= v < 0x8000
    }

    proof fn lemma_format_fits(v: int) {
    }

    open spec fn spec_format() -> SampleFormat {
        SampleFormat::Int16
    }

    open spec fn spec_value(&self) -> int {
        *self as int
    }

    fn format() -> (r: SampleFormat) {
        SampleFormat::Int16
    }

    fn to_i32(&self) -> (r: i32) {
        *self as i32
    }

    fn from_i32(v: i32) -> (r: Self) {
        v as i16
    }
}

impl Sample for i32 {
    open spec fn spec_fits(v: int) -> bool {
        i32::MIN <= v <= i32::MAX
    }

    proof fn lemma_format_fits(v: int) {
    }

    open spec fn spec_format() -> SampleFormat {
        SampleFormat::Int24
    }

    open spec fn spec_value(&self) -> int {
        *self as int
    }

    fn format() -> (r: SampleFormat) {
        SampleFormat::Int24
    }

    fn to_i32(&self) -> (r: i32) {
        *self
    }

    fn from_i32(v: i32) -> (r: Self) {
        v
    }
}

/// Widens integer sample `v` of format `from` to the integer format `to`.
pub fn widen_sample(v: i32, from: SampleFormat, to: SampleFormat) -> (r: i32)
    requires
        in_format_range(v as int, from),
        widens_to(from, to),
        is_int_format(to),
    ensures
        r == widen(v as int, from, to),
        in_format_range(r as int, to),
{
    match (from, to) {
        (SampleFormat::Int8, SampleFormat::Int16) => i8_to_i16(v as i8) as i32,
        (SampleFormat::Int8, SampleFormat::Int24) => i8_to_i24(v as i8),
        (SampleFormat::Int16, SampleFormat::Int24) => i16_to_i24(v as i16),
        _ => v,
    }
}

/// Reads the stored value of the sample of format `f` at `pos`: its bytes as a
/// little-endian two's-complement integer.
pub fn decode_stored(b: &[u8], pos: usize, f: SampleFormat) -> (r: i32)
    requires
        pos + format_bytes(f) <= b@.len(),
    ensures
        r == signed_le(b@, pos as int, format_bytes(f)),
        in_format_range(r as int, f),
{
    match f {
        SampleFormat::Int8 => {
            let u = b[pos] as i32;
            if u >= 0x80 {
                u - 0x100
            } else {
                u
            }
        },
        SampleFormat::Int16 => {
            let u = b[pos] as i32 + (b[pos + 1] as i32) * 0x100;
            if u >= 0x8000 {
                u - 0x10000
            } else {
                u
            }
        },
        SampleFormat::Int24 => {
            let u = b[pos] as i32 + (b[pos + 1] as i32) * 0x100 + (b[pos + 2] as i32) * 0x10000;
            if u >= 0x80_0000 {
                u - 0x100_0000
            } else {
                u
            }
        },
        SampleFormat::Float => {
            let u = b[pos] as i64 + (b[pos + 1] as i64) * 0x100 + (b[pos + 2] as i64) * 0x10000
                + (b[pos + 3] as i64) * 0x100_0000;
            if u >= 0x8000_0000 {
                (u - 0x1_0000_0000) as i32
            } else {
                u as i32
            }
        },
    }
}

/// Appends the stored bytes of value `v` as a sample of format `f`.
pub fn encode_stored(out: &mut Vec<u8>, v: i32, f: SampleFormat)
    requires
        in_format_range(v as int, f),
    ensures
        final(out)@ == old(out)@ + signed_bytes(v as int, format_bytes(f)),
{
    let ghost w = format_bytes(f);
    let width: usize = match f {
        SampleFormat::Int8 => 1,
        SampleFormat::Int16 => 2,
        SampleFormat::Int24 => 3,
        SampleFormat::Float => 4,
    };
    let u: u32 = if v < 0 {
        match f {
            SampleFormat::Int8 => (v + 0x100) as u32,
            SampleFormat::Int16 => (v + 0x10000) as u32,
            SampleFormat::Int24 => (v + 0x100_0000) as u32,
            SampleFormat::Float => (v as i64 + 0x1_0000_0000) as u32,
        }
    } else {
        v as u32
    };
    assert(u == if v < 0 { v + pow256(w) } else { v as int });
    out.push((u % 0x100) as u8);
    if width >= 2 {
        out.push(((u / 0x100) % 0x100) as u8);
    }
    if width >= 3 {
        out.push(((u / 0x10000) % 0x100) as u8);
    }
    if width >= 4 {
        out.push(((u / 0x100_0000) % 0x100) as u8);
    }
    assert(final(out)@ =~= old(out)@ + signed_bytes(v as int, w));
}

/// Reading back the stored bytes of a value gives the value.
pub proof fn lemma_stored_round_trip(v: int, f: SampleFormat)
    requires
        in_format_range(v, f),
    ensures
        signed_bytes(v, format_bytes(f)).len() == format_bytes(f),
        signed_le(signed_bytes(v, format_bytes(f)), 0, format_bytes(f)) == v,
{
    let w = format_bytes(f);
    let b = signed_bytes(v, w);
    let u = if v < 0 { v + pow256(w) } else { v };
    assert(0 <= u < pow256(w));
    assert(b[0] as int == u % 0x100);
    if w >= 2 {
        assert(b[1] as int == (u / 0x100) % 0x100);
    }
    if w >= 3 {
        assert(b[2] as int == (u / 0x10000) % 0x100);
    }
    if w >= 4 {
        assert(b[3] as int == (u / 0x100_0000) % 0x100);
    }
    assert(unsigned_le(b, 0, w) == u);
}

} // verus!
