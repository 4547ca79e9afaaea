use vstd::prelude::*;

use crate::bytes::{read_u16, read_u32, u16_bytes, u16_le, u32_bytes, u32_le, write_u16, write_u32};
use crate::error::WavError;

verus! {

/// Sample format: how each sample is stored.
#[derive(Debug, Copy, Clone, PartialEq, Eq, Structural)]
pub enum SampleFormat {
    /// 8-bit signed integer.
    Int8,
    /// 16-bit signed integer.
    Int16,
    /// 24-bit signed integer.
    Int24,
    /// 32-bit IEEE-754 floating point.
    Float,
}

/// Bytes per sample of each format.
pub open spec fn format_bytes(f: SampleFormat) -> nat {
    match f {
        SampleFormat::Int8 => 1,
        SampleFormat::Int16 => 2,
        SampleFormat::Int24 => 3,
        SampleFormat::Float => 4,
    }
}

/// Rank of a format in the widening order Int8 < Int16 < Int24 < Float.
pub open spec fn format_rank(f: SampleFormat) -> nat {
    format_bytes(f)
}

/// The sizes of a sample format.
pub trait SampleFormatSize {
    /// The number of bytes in each sample.
    spec fn spec_bytes_per_sample(&self) -> nat;

    /// The number of bits in each sample.
    fn bits_per_sample(&self) -> (r: u16)
        ensures
            r == self.spec_bytes_per_sample() * 8;

    /// The number of bytes in each sample.
    fn bytes_per_sample(&self) -> (r: u16)
        ensures
            r == self.spec_bytes_per_sample();
}

impl SampleFormatSize for SampleFormat {
    open spec fn spec_bytes_per_sample(&self) -> nat {
        format_bytes(*self)
    }

    fn bits_per_sample(&self) -> (r: u16) {
        self.bytes_per_sample() * 8
    }

    fn bytes_per_sample(&self) -> (r: u16) {
        match self {
            SampleFormat::Float => 4,
            SampleFormat::Int24 => 3,
            SampleFormat::Int16 => 2,
            SampleFormat::Int8 => 1,
        }
    }
}

/// The speaker positions that may be present in a file, in canonical order.
#[derive(Debug, Copy, Clone, PartialEq, Eq, Structural)]
pub struct Channels {
    pub front_left: bool,
    pub front_right: bool,
    pub front_center: bool,
    pub low_frequency: bool,
    pub back_left: bool,
    pub back_right: bool,
    pub front_left_of_center: bool,
    pub front_right_of_center: bool,
    pub back_center: bool,
    pub side_left: bool,
    pub side_right: bool,
    pub top_center: bool,
    pub top_front_left: bool,
    pub top_front_center: bool,
    pub top_front_right: bool,
    pub top_back_left: bool,
    pub top_back_center: bool,
    pub top_back_right: bool,
}

/// Number of speaker positions.
pub const NUM_POSITIONS: usize = 18;

/// No more entries are `true` than there are entries.
pub proof fn lemma_count_true_le_len(s: Seq<bool>)
    ensures
        count_true(s) <= s.len(),
    decreases s.len(),
{
    if s.len() > 0 {
        lemma_count_true_le_len(s.drop_last());
    }
}

/// The number of `true` entries of `s`.
pub open spec fn count_true(s: Seq<bool>) -> nat
    decreases s.len(),
{
    if s.len() == 0 {
        0
    } else {
        count_true(s.drop_last()) + if s.last() { 1nat } else { 0nat }
    }
}

/// Whether all bits of `bit` are set in `mask`.
#[verifier::opaque]
pub open spec fn has_bit(mask: u32, bit: u32) -> bool {
    mask & bit == bit
}

#[verifier::opaque]
pub open spec fn bit_if(b: bool, bit: u32) -> u32 {
    if b { bit } else { 0 }
}

impl Channels {
    /// The flags in canonical order: position `i` is bit `i` of the mask.
    pub open spec fn flags(self) -> Seq<bool> {
        seq![
            self.front_left, self.front_right, self.front_center, self.low_frequency,
            self.back_left, self.back_right, self.front_left_of_center,
            self.front_right_of_center, self.back_center, self.side_left, self.side_right,
            self.top_center, self.top_front_left, self.top_front_center, self.top_front_right,
            self.top_back_left, self.top_back_center, self.top_back_right,
        ]
    }

    /// The number of positions present.
    pub open spec fn spec_count(self) -> nat {
        count_true(self.flags())
    }

    /// The channel mask: bit `i` is set exactly when position `i` is present.
    #[verifier::opaque]
    pub open spec fn spec_mask(self) -> u32 {
        bit_if(self.front_left, 0x1) | bit_if(self.front_right, 0x2) | bit_if(
            self.front_center,
            0x4,
        ) | bit_if(self.low_frequency, 0x8) | bit_if(self.back_left, 0x10) | bit_if(
            self.back_right,
            0x20,
        ) | bit_if(self.front_left_of_center, 0x40) | bit_if(self.front_right_of_center, 0x80)
            | bit_if(self.back_center, 0x100) | bit_if(self.side_left, 0x200) | bit_if(
            self.side_right,
            0x400,
        ) | bit_if(self.top_center, 0x800) | bit_if(self.top_front_left, 0x1000) | bit_if(
            self.top_front_center,
            0x2000,
        ) | bit_if(self.top_front_right, 0x4000) | bit_if(self.top_back_left, 0x8000) | bit_if(
            self.top_back_center,
            0x10000,
        ) | bit_if(self.top_back_right, 0x20000)
    }

    /// The channels whose flags are the bits of `mask` (bits above 17 are ignored).
    pub open spec fn spec_from_mask(mask: u32) -> Channels {
        Channels {
            front_left: has_bit(mask, 0x1),
            front_right: has_bit(mask, 0x2),
            front_center: has_bit(mask, 0x4),
            low_frequency: has_bit(mask, 0x8),
            back_left: has_bit(mask, 0x10),
            back_right: has_bit(mask, 0x20),
            front_left_of_center: has_bit(mask, 0x40),
            front_right_of_center: has_bit(mask, 0x80),
            back_center: has_bit(mask, 0x100),
            side_left: has_bit(mask, 0x200),
            side_right: has_bit(mask, 0x400),
            top_center: has_bit(mask, 0x800),
            top_front_left: has_bit(mask, 0x1000),
            top_front_center: has_bit(mask, 0x2000),
            top_front_right: has_bit(mask, 0x4000),
            top_back_left: has_bit(mask, 0x8000),
            top_back_center: has_bit(mask, 0x10000),
            top_back_right: has_bit(mask, 0x20000),
        }
    }

    /// The first `n` positions in canonical order (legacy, mask-less headers).
    pub open spec fn spec_from_count(n: u16) -> Channels {
        Channels {
            front_left: n >= 1,
            front_right: n >= 2,
            front_center: n >= 3,
            low_frequency: n >= 4,
            back_left: n >= 5,
            back_right: n >= 6,
            front_left_of_center: n >= 7,
            front_right_of_center: n >= 8,
            back_center: n >= 9,
            side_left: n >= 10,
            side_right: n >= 11,
            top_center: n >= 12,
            top_front_left: n >= 13,
            top_front_center: n >= 14,
            top_front_right: n >= 15,
            top_back_left: n >= 16,
            top_back_center: n >= 17,
            top_back_right: n >= 18,
        }
    }

    /// No position present.
    pub fn new() -> (r: Channels)
        ensures
            r == Channels::spec_from_count(0),
    {
        Channels {
            front_left: false,
            front_right: false,
            front_center: false,
            low_frequency: false,
            back_left: false,
            back_right: false,
            front_left_of_center: false,
            front_right_of_center: false,
            back_center: false,
            side_left: false,
            side_right: false,
            top_center: false,
            top_front_left: false,
            top_front_center: false,
            top_front_right: false,
            top_back_left: false,
            top_back_center: false,
            top_back_right: false,
        }
    }

    /// Adds the front left position.
    pub fn front_left(self) -> (r: Channels)
        ensures
            r == (Channels { front_left: true, ..self }),
    {
        Channels { front_left: true, ..self }
    }

    /// Adds the front right position.
    pub fn front_right(self) -> (r: Channels)
        ensures
            r == (Channels { front_right: true, ..self }),
    {
        Channels { front_right: true, ..self }
    }

    /// Adds the front center position.
    pub fn front_center(self) -> (r: Channels)
        ensures
            r == (Channels { front_center: true, ..self }),
    {
        Channels { front_center: true, ..self }
    }

    /// Adds the low frequency position.
    pub fn low_frequency(self) -> (r: Channels)
        ensures
            r == (Channels { low_frequency: true, ..self }),
    {
        Channels { low_frequency: true, ..self }
    }

    /// Adds the back left position.
    pub fn back_left(self) -> (r: Channels)
        ensures
            r == (Channels { back_left: true, ..self }),
    {
        Channels { back_left: true, ..self }
    }

    /// Adds the back right position.
    pub fn back_right(self) -> (r: Channels)
        ensures
            r == (Channels { back_right: true, ..self }),
    {
        Channels { back_right: true, ..self }
    }

    /// Adds the front left of center position.
    pub fn front_left_of_center(self) -> (r: Channels)
        ensures
            r == (Channels { front_left_of_center: true, ..self }),
    {
        Channels { front_left_of_center: true, ..self }
    }

    /// Adds the front right of center position.
    pub fn front_right_of_center(self) -> (r: Channels)
        ensures
            r == (Channels { front_right_of_center: true, ..self }),
    {
        Channels { front_right_of_center: true, ..self }
    }

    /// Adds the back center position.
    pub fn back_center(self) -> (r: Channels)
        ensures
            r == (Channels { back_center: true, ..self }),
    {
        Channels { back_center: true, ..self }
    }

    /// Adds the side left position.
    pub fn side_left(self) -> (r: Channels)
        ensures
            r == (Channels { side_left: true, ..self }),
    {
        Channels { side_left: true, ..self }
    }

    /// Adds the side right position.
    pub fn side_right(self) -> (r: Channels)
        ensures
            r == (Channels { side_right: true, ..self }),
    {
        Channels { side_right: true, ..self }
    }

    /// Adds the top center position.
    pub fn top_center(self) -> (r: Channels)
        ensures
            r == (Channels { top_center: true, ..self }),
    {
        Channels { top_center: true, ..self }
    }

    /// Adds the top front left position.
    pub fn top_front_left(self) -> (r: Channels)
        ensures
            r == (Channels { top_front_left: true, ..self }),
    {
        Channels { top_front_left: true, ..self }
    }

    /// Adds the top front center position.
    pub fn top_front_center(self) -> (r: Channels)
        ensures
            r == (Channels { top_front_center: true, ..self }),
    {
        Channels { top_front_center: true, ..self }
    }

    /// Adds the top front right position.
    pub fn top_front_right(self) -> (r: Channels)
        ensures
            r == (Channels { top_front_right: true, ..self }),
    {
        Channels { top_front_right: true, ..self }
    }

    /// Adds the top back left position.
    pub fn top_back_left(self) -> (r: Channels)
        ensures
            r == (Channels { top_back_left: true, ..self }),
    {
        Channels { top_back_left: true, ..self }
    }

    /// Adds the top back center position.
    pub fn top_back_center(self) -> (r: Channels)
        ensures
            r == (Channels { top_back_center: true, ..self }),
    {
        Channels { top_back_center: true, ..self }
    }

    /// Adds the top back right position.
    pub fn top_back_right(self) -> (r: Channels)
        ensures
            r == (Channels { top_back_right: true, ..self }),
    {
        Channels { top_back_right: true, ..self }
    }

    /// The flags as an array, in canonical order.
    pub fn to_array(&self) -> (r: [bool; 18])
        ensures
            r@ == self.flags(),
    {
        let r = [
            self.front_left, self.front_right, self.front_center, self.low_frequency,
            self.back_left, self.back_right, self.front_left_of_center,
            self.front_right_of_center, self.back_center, self.side_left, self.side_right,
            self.top_center, self.top_front_left, self.top_front_center, self.top_front_right,
            self.top_back_left, self.top_back_center, self.top_back_right,
        ];
        assert(r@ =~= self.flags());
        r
    }

    /// Counts the positions present.
    pub fn count(&self) -> (r: u16)
        ensures
            r == self.spec_count(),
            r <= 18,
    {
        let flags = self.to_array();
        let mut count: u16 = 0;
        let mut i: usize = 0;
        while i < NUM_POSITIONS
            invariant
                i <= NUM_POSITIONS,
                flags@ == self.flags(),
                count == count_true(flags@.subrange(0, i as int)),
                count <= i,
            decreases NUM_POSITIONS - i,
        {
            proof {
                assert(flags@.subrange(0, i + 1).drop_last() =~= flags@.subrange(0, i as int));
            }
            if flags[i] {
                count = count + 1;
            }
            i = i + 1;
        }
        assert(flags@.subrange(0, 18) =~= flags@);
        count
    }

    /// The WAVE_FORMAT_EXTENSIBLE channel mask of these channels.
    pub fn channel_mask(&self) -> (r: u32)
        ensures
            r == self.spec_mask(),
    {
        proof {
            reveal(bit_if);
        }
        let mut channel_mask: u32 = if self.front_left { 0x1 } else { 0 };
        channel_mask = channel_mask | if self.front_right { 0x2 } else { 0 };
        channel_mask = channel_mask | if self.front_center { 0x4 } else { 0 };
        channel_mask = channel_mask | if self.low_frequency { 0x8 } else { 0 };
        channel_mask = channel_mask | if self.back_left { 0x10 } else { 0 };
        channel_mask = channel_mask | if self.back_right { 0x20 } else { 0 };
        channel_mask = channel_mask | if self.front_left_of_center { 0x40 } else { 0 };
        channel_mask = channel_mask | if self.front_right_of_center { 0x80 } else { 0 };
        channel_mask = channel_mask | if self.back_center { 0x100 } else { 0 };
        channel_mask = channel_mask | if self.side_left { 0x200 } else { 0 };
        channel_mask = channel_mask | if self.side_right { 0x400 } else { 0 };
        channel_mask = channel_mask | if self.top_center { 0x800 } else { 0 };
        channel_mask = channel_mask | if self.top_front_left { 0x1000 } else { 0 };
        channel_mask = channel_mask | if self.top_front_center { 0x2000 } else { 0 };
        channel_mask = channel_mask | if self.top_front_right { 0x4000 } else { 0 };
        channel_mask = channel_mask | if self.top_back_left { 0x8000 } else { 0 };
        channel_mask = channel_mask | if self.top_back_center { 0x10000 } else { 0 };
        channel_mask = channel_mask | if self.top_back_right { 0x20000 } else { 0 };
        proof {
            reveal(Channels::spec_mask);
        }
        channel_mask
    }

    /// The first `num_channels` positions in canonical order, as a header without a
    /// channel mask implies.
    pub fn from_count(num_channels: u16) -> (r: Channels)
        ensures
            r == Channels::spec_from_count(num_channels),
    {
        Channels {
            front_left: num_channels >= 1,
            front_right: num_channels >= 2,
            front_center: num_channels >= 3,
            low_frequency: num_channels >= 4,
            back_left: num_channels >= 5,
            back_right: num_channels >= 6,
            front_left_of_center: num_channels >= 7,
            front_right_of_center: num_channels >= 8,
            back_center: num_channels >= 9,
            side_left: num_channels >= 10,
            side_right: num_channels >= 11,
            top_center: num_channels >= 12,
            top_front_left: num_channels >= 13,
            top_front_center: num_channels >= 14,
            top_front_right: num_channels >= 15,
            top_back_left: num_channels >= 16,
            top_back_center: num_channels >= 17,
            top_back_right: num_channels >= 18,
        }
    }

    /// Derives the channels from an extensible header's channel mask.
    pub fn from_mask(mask: u32) -> (r: Channels)
        ensures
            r == Channels::spec_from_mask(mask),
    {
        proof {
            reveal(has_bit);
        }
        Channels {
            front_left: mask & 0x1 == 0x1,
            front_right: mask & 0x2 == 0x2,
            front_center: mask & 0x4 == 0x4,
            low_frequency: mask & 0x8 == 0x8,
            back_left: mask & 0x10 == 0x10,
            back_right: mask & 0x20 == 0x20,
            front_left_of_center: mask & 0x40 == 0x40,
            front_right_of_center: mask & 0x80 == 0x80,
            back_center: mask & 0x100 == 0x100,
            side_left: mask & 0x200 == 0x200,
            side_right: mask & 0x400 == 0x400,
            top_center: mask & 0x800 == 0x800,
            top_front_left: mask & 0x1000 == 0x1000,
            top_front_center: mask & 0x2000 == 0x2000,
            top_front_right: mask & 0x4000 == 0x4000,
            top_back_left: mask & 0x8000 == 0x8000,
            top_back_center: mask & 0x10000 == 0x10000,
            top_back_right: mask & 0x20000 == 0x20000,
        }
    }
}

/// Bit `i` of the mask of `c` is set exactly when position `i` of `c` is present.
proof fn lemma_mask_has_bits(c: Channels)
    ensures
        has_bit(c.spec_mask(), 0x1) == c.front_left,
        has_bit(c.spec_mask(), 0x2) == c.front_right,
        has_bit(c.spec_mask(), 0x4) == c.front_center,
        has_bit(c.spec_mask(), 0x8) == c.low_frequency,
        has_bit(c.spec_mask(), 0x10) == c.back_left,
        has_bit(c.spec_mask(), 0x20) == c.back_right,
        has_bit(c.spec_mask(), 0x40) == c.front_left_of_center,
        has_bit(c.spec_mask(), 0x80) == c.front_right_of_center,
        has_bit(c.spec_mask(), 0x100) == c.back_center,
        has_bit(c.spec_mask(), 0x200) == c.side_left,
        has_bit(c.spec_mask(), 0x400) == c.side_right,
        has_bit(c.spec_mask(), 0x800) == c.top_center,
        has_bit(c.spec_mask(), 0x1000) == c.top_front_left,
        has_bit(c.spec_mask(), 0x2000) == c.top_front_center,
        has_bit(c.spec_mask(), 0x4000) == c.top_front_right,
        has_bit(c.spec_mask(), 0x8000) == c.top_back_left,
        has_bit(c.spec_mask(), 0x10000) == c.top_back_center,
        has_bit(c.spec_mask(), 0x20000) == c.top_back_right,
{
    let b0 = c.front_left;
    let b1 = c.front_right;
    let b2 = c.front_center;
    let b3 = c.low_frequency;
    let b4 = c.back_left;
    let b5 = c.back_right;
    let b6 = c.front_left_of_center;
    let b7 = c.front_right_of_center;
    let b8 = c.back_center;
    let b9 = c.side_left;
    let b10 = c.side_right;
    let b11 = c.top_center;
    let b12 = c.top_front_left;
    let b13 = c.top_front_center;
    let b14 = c.top_front_right;
    let b15 = c.top_back_left;
    let b16 = c.top_back_center;
    let b17 = c.top_back_right;
    assert(forall|m: u32|
        m == (
            (if b0 { 0x1u32 } else { 0u32 })
            | (if b1 { 0x2u32 } else { 0u32 })
            | (if b2 { 0x4u32 } else { 0u32 })
            | (if b3 { 0x8u32 } else { 0u32 })
            | (if b4 { 0x10u32 } else { 0u32 })
            | (if b5 { 0x20u32 } else { 0u32 })
            | (if b6 { 0x40u32 } else { 0u32 })
            | (if b7 { 0x80u32 } else { 0u32 })
            | (if b8 { 0x100u32 } else { 0u32 })
            | (if b9 { 0x200u32 } else { 0u32 })
            | (if b10 { 0x400u32 } else { 0u32 })
            | (if b11 { 0x800u32 } else { 0u32 })
            | (if b12 { 0x1000u32 } else { 0u32 })
            | (if b13 { 0x2000u32 } else { 0u32 })
            | (if b14 { 0x4000u32 } else { 0u32 })
            | (if b15 { 0x8000u32 } else { 0u32 })
            | (if b16 { 0x10000u32 } else { 0u32 })
            | (if b17 { 0x20000u32 } else { 0u32 })
        ) ==> (
            ((m & 0x1) == 0x1) == b0
            && ((m & 0x2) == 0x2) == b1
            && ((m & 0x4) == 0x4) == b2
            && ((m & 0x8) == 0x8) == b3
            && ((m & 0x10) == 0x10) == b4
            && ((m & 0x20) == 0x20) == b5
            && ((m & 0x40) == 0x40) == b6
            && ((m & 0x80) == 0x80) == b7
            && ((m & 0x100) == 0x100) == b8
            && ((m & 0x200) == 0x200) == b9
            && ((m & 0x400) == 0x400) == b10
            && ((m & 0x800) == 0x800) == b11
            && ((m & 0x1000) == 0x1000) == b12
            && ((m & 0x2000) == 0x2000) == b13
            && ((m & 0x4000) == 0x4000) == b14
            && ((m & 0x8000) == 0x8000) == b15
            && ((m & 0x10000) == 0x10000) == b16
            && ((m & 0x20000) == 0x20000) == b17
        )) by (bit_vector);
    let m = (if b0 { 0x1u32 } else { 0u32 })
        | (if b1 { 0x2u32 } else { 0u32 })
        | (if b2 { 0x4u32 } else { 0u32 })
        | (if b3 { 0x8u32 } else { 0u32 })
        | (if b4 { 0x10u32 } else { 0u32 })
        | (if b5 { 0x20u32 } else { 0u32 })
        | (if b6 { 0x40u32 } else { 0u32 })
        | (if b7 { 0x80u32 } else { 0u32 })
        | (if b8 { 0x100u32 } else { 0u32 })
        | (if b9 { 0x200u32 } else { 0u32 })
        | (if b10 { 0x400u32 } else { 0u32 })
        | (if b11 { 0x800u32 } else { 0u32 })
        | (if b12 { 0x1000u32 } else { 0u32 })
        | (if b13 { 0x2000u32 } else { 0u32 })
        | (if b14 { 0x4000u32 } else { 0u32 })
        | (if b15 { 0x8000u32 } else { 0u32 })
        | (if b16 { 0x10000u32 } else { 0u32 })
        | (if b17 { 0x20000u32 } else { 0u32 });
    assert(c.spec_mask() == m) by {
        reveal(Channels::spec_mask);
        reveal(bit_if);
    }
    reveal(has_bit);
}

/// Wav file header: the parameters of a wav, given when creating one and found
/// when reading one.
#[derive(Debug, Copy, Clone, PartialEq, Eq, Structural)]
pub struct WavHeader {
    /// The sample format.
    pub sample_format: SampleFormat,
    /// The channels present in the file.
    pub channels: Channels,
    /// The samples per second.
    pub sample_rate: u32,
    /// The largest number of samples that the file may hold.
    pub max_samples: usize,
}

/// The sample format of a header's bits-per-sample field, if supported. Depths
/// that are not a whole number of bytes are rounded up.
pub open spec fn spec_format_from_bits(bits: int) -> Option<SampleFormat> {
    if bits == 32 {
        Some(SampleFormat::Float)
    } else if bits <= 8 {
        Some(SampleFormat::Int8)
    } else if bits <= 16 {
        Some(SampleFormat::Int16)
    } else if bits <= 24 {
        Some(SampleFormat::Int24)
    } else {
        None
    }
}

/// Whether the four bytes of `b` at `p` spell the chunk name `name`.
pub open spec fn has_name(b: Seq<u8>, p: int, name: Seq<u8>) -> bool {
    b.subrange(p, p + 4) == name
}

/// The chunk name `fmt `.
pub open spec fn fmt_name() -> Seq<u8> {
    seq![0x66u8, 0x6du8, 0x74u8, 0x20u8]
}

/// The header with these fields, and the maximum number of samples derived from them.
pub open spec fn header_of(f: SampleFormat, c: Channels, rate: u32) -> WavHeader {
    WavHeader {
        sample_format: f,
        channels: c,
        sample_rate: rate,
        max_samples: spec_max_samples(c.spec_count(), format_bytes(f)) as usize,
    }
}

/// The header held by the `fmt ` chunk that starts at `p` in `b`, with the
/// size that the chunk declares for its body.
pub open spec fn parse_fmt(b: Seq<u8>, p: int) -> Result<(WavHeader, nat), WavError> {
    if b.len() < p + 8 {
        Err(WavError::UnexpectedEof)
    } else if !has_name(b, p, fmt_name()) {
        Err(WavError::MalformedContainer)
    } else if u32_le(b, p + 4) < 16 {
        Err(WavError::UnsupportedFormat)
    } else if b.len() < p + 8 + u32_le(b, p + 4) {
        Err(WavError::UnexpectedEof)
    } else {
        let size = u32_le(b, p + 4);
        let tag = u16_le(b, p + 8);
        let num_channels = u16_le(b, p + 10) as u16;
        let rate = u32_le(b, p + 12) as u32;
        let bits = u16_le(b, p + 22);
        if tag != 1 && tag != 3 && tag != 0xFFFE {
            Err(WavError::UnsupportedFormat)
        } else if spec_format_from_bits(bits) is None {
            Err(WavError::UnsupportedFormat)
        } else if tag == 0xFFFE && size < 24 {
            Err(WavError::UnsupportedFormat)
        } else {
            let f = spec_format_from_bits(bits)->Some_0;
            let c = if tag == 0xFFFE {
                Channels::spec_from_mask(u32_le(b, p + 28) as u32)
            } else {
                Channels::spec_from_count(num_channels)
            };
            if tag == 0xFFFE && num_channels != c.spec_count() {
                Err(WavError::UnsupportedFormat)
            } else if c.spec_count() == 0 {
                Err(WavError::UnsupportedFormat)
            } else {
                Ok((header_of(f, c, rate), size as nat))
            }
        }
    }
}

/// The 48 bytes of the extensible `fmt ` chunk that describes `h`, whose byte
/// rate is `byte_rate`.
pub open spec fn fmt_chunk_bytes(h: WavHeader, byte_rate: u32) -> Seq<u8> {
    let count = h.channels.spec_count() as u16;
    let bytes = format_bytes(h.sample_format) as u16;
    let bits = (bytes * 8) as u16;
    let tag: u16 = if h.sample_format == SampleFormat::Float {
        3
    } else {
        1
    };
    fmt_name() + u32_bytes(40) + u16_bytes(0xFFFE) + u16_bytes(count) + u32_bytes(h.sample_rate)
        + u32_bytes(byte_rate) + u16_bytes((count * bytes) as u16) + u16_bytes(bits) + u16_bytes(
        22,
    ) + u16_bytes(bits) + u32_bytes(h.channels.spec_mask()) + u16_bytes(tag) + guid_suffix()
}

/// The fourteen bytes that follow the format tag in the SubFormat GUID of PCM
/// and IEEE-float data.
pub open spec fn guid_suffix() -> Seq<u8> {
    seq![
        0x00u8, 0x00u8, 0x00u8, 0x00u8, 0x10u8, 0x00u8, 0x80u8, 0x00u8, 0x00u8, 0xAAu8, 0x00u8,
        0x38u8, 0x9Bu8, 0x71u8,
    ]
}

/// The sample format of a bits-per-sample field.
fn format_from_bits(bits: u16) -> (r: Option<SampleFormat>)
    ensures
        r == spec_format_from_bits(bits as int),
{
    if bits == 32 {
        Some(SampleFormat::Float)
    } else if bits <= 8 {
        Some(SampleFormat::Int8)
    } else if bits <= 16 {
        Some(SampleFormat::Int16)
    } else if bits <= 24 {
        Some(SampleFormat::Int24)
    } else {
        None
    }
}

/// Whether the four bytes at `p` spell `name`.
pub fn name_at(b: &[u8], p: usize, name: &[u8; 4]) -> (r: bool)
    requires
        p + 4 <= b@.len(),
    ensures
        r == has_name(b@, p as int, name@),
{
    let r = b[p] == name[0] && b[p + 1] == name[1] && b[p + 2] == name[2] && b[p + 3] == name[3];
    if r {
        assert(b@.subrange(p as int, p + 4) =~= name@);
    } else {
        let ghost s = b@.subrange(p as int, p + 4);
        assert(s[0] == b@[p as int] && s[1] == b@[p + 1] && s[2] == b@[p + 2] && s[3] == b@[p + 3]);
    }
    r
}

impl WavHeader {
    /// Reads the header from the `fmt ` chunk that starts at `pos` in `b`, and
    /// returns it with the size that the chunk declares for its body.
    pub fn from_reader(b: &[u8], pos: usize) -> (r: Result<(WavHeader, usize), WavError>)
        ensures
            match r {
                Ok((h, size)) => parse_fmt(b@, pos as int) == Ok::<(WavHeader, nat), WavError>(
                    (h, size as nat),
                ),
                Err(e) => parse_fmt(b@, pos as int) == Err::<(WavHeader, nat), WavError>(e),
            },
    {
        let len = b.len();
        if len < 8 || pos > len - 8 {
            return Err(WavError::UnexpectedEof);
        }
        let fmt: [u8; 4] = [0x66, 0x6d, 0x74, 0x20];
        assert(fmt@ =~= fmt_name());
        if !name_at(b, pos, &fmt) {
            return Err(WavError::MalformedContainer);
        }
        let subchunk_size = read_u32(b, pos + 4) as usize;
        if subchunk_size < 16 {
            return Err(WavError::UnsupportedFormat);
        }
        if subchunk_size > len - pos - 8 {
            return Err(WavError::UnexpectedEof);
        }
        let audio_format = read_u16(b, pos + 8);
        if audio_format == 1 || audio_format == 3 {
            Self::from_reader_classic(b, pos, subchunk_size)
        } else if audio_format == 0xFFFE {
            Self::from_reader_extensible(b, pos, subchunk_size)
        } else {
            Err(WavError::UnsupportedFormat)
        }
    }

    /// Reads a classic PCM or float `fmt ` chunk, whose channels are the first
    /// positions in canonical order.
    fn from_reader_classic(b: &[u8], pos: usize, subchunk_size: usize) -> (r: Result<
        (WavHeader, usize),
        WavError,
    >)
        requires
            pos + 8 + subchunk_size <= b@.len(),
            has_name(b@, pos as int, fmt_name()),
            subchunk_size == u32_le(b@, pos + 4),
            subchunk_size >= 16,
            u16_le(b@, pos + 8) == 1 || u16_le(b@, pos + 8) == 3,
        ensures
            match r {
                Ok((h, size)) => parse_fmt(b@, pos as int) == Ok::<(WavHeader, nat), WavError>(
                    (h, size as nat),
                ),
                Err(e) => parse_fmt(b@, pos as int) == Err::<(WavHeader, nat), WavError>(e),
            },
    {
        let _len = b.len();
        let num_channels = read_u16(b, pos + 10);
        let sample_rate = read_u32(b, pos + 12);
        let bits_per_sample = read_u16(b, pos + 22);
        let sample_format = match format_from_bits(bits_per_sample) {
            Some(f) => f,
            None => {
                return Err(WavError::UnsupportedFormat);
            },
        };
        let channels = Channels::from_count(num_channels);
        if channels.count() == 0 {
            return Err(WavError::UnsupportedFormat);
        }
        let max_samples = calculate_max_samples(&channels, sample_format);
        Ok((WavHeader { sample_format, channels, sample_rate, max_samples }, subchunk_size))
    }

    /// Reads a WAVE_FORMAT_EXTENSIBLE `fmt ` chunk, whose channels come from its
    /// channel mask and must agree with its channel count.
    fn from_reader_extensible(b: &[u8], pos: usize, subchunk_size: usize) -> (r: Result<
        (WavHeader, usize),
        WavError,
    >)
        requires
            pos + 8 + subchunk_size <= b@.len(),
            has_name(b@, pos as int, fmt_name()),
            subchunk_size == u32_le(b@, pos + 4),
            subchunk_size >= 16,
            u16_le(b@, pos + 8) == 0xFFFE,
        ensures
            match r {
                Ok((h, size)) => parse_fmt(b@, pos as int) == Ok::<(WavHeader, nat), WavError>(
                    (h, size as nat),
                ),
                Err(e) => parse_fmt(b@, pos as int) == Err::<(WavHeader, nat), WavError>(e),
            },
    {
        let _len = b.len();
        let num_channels = read_u16(b, pos + 10);
        let sample_rate = read_u32(b, pos + 12);
        let bits_per_sample = read_u16(b, pos + 22);
        let sample_format = match format_from_bits(bits_per_sample) {
            Some(f) => f,
            None => {
                return Err(WavError::UnsupportedFormat);
            },
        };
        // cbSize and wValidBitsPerSample are informational only
        if subchunk_size < 24 {
            return Err(WavError::UnsupportedFormat);
        }
        let channel_mask = read_u32(b, pos + 28);
        let channels = Channels::from_mask(channel_mask);
        let count = channels.count();
        if num_channels != count {
            return Err(WavError::UnsupportedFormat);
        }
        if count == 0 {
            return Err(WavError::UnsupportedFormat);
        }
        let max_samples = calculate_max_samples(&channels, sample_format);
        Ok((WavHeader { sample_format, channels, sample_rate, max_samples }, subchunk_size))
    }

    /// The extensible `fmt ` chunk that describes `header`. Fails when the byte
    /// rate does not fit its 32-bit field.
    pub fn to_writer(header: &WavHeader) -> (r: Result<Vec<u8>, WavError>)
        ensures
            ({
                let rate = header.sample_rate * (header.channels.spec_count() * format_bytes(
                    header.sample_format,
                ));
                match r {
                    Ok(v) => rate <= u32::MAX && v@ == fmt_chunk_bytes(*header, rate as u32),
                    Err(e) => rate > u32::MAX && e == WavError::UnsupportedFormat,
                }
            }),
    {
        let num_channels = header.channels.count();
        let bytes_per_sample = header.sample_format.bytes_per_sample();
        assert(num_channels * bytes_per_sample <= 18 * 4) by (nonlinear_arith)
            requires
                num_channels <= 18,
                bytes_per_sample <= 4,
        ;
        let block_align: u16 = num_channels * bytes_per_sample;
        let bytes_per_sec: u32 = match header.sample_rate.checked_mul(block_align as u32) {
            Some(v) => v,
            None => {
                return Err(WavError::UnsupportedFormat);
            },
        };
        let bits_per_sample: u16 = bytes_per_sample * 8;
        let audio_format: u16 = match header.sample_format {
            SampleFormat::Float => 3,
            _ => 1,
        };
        let mut w: Vec<u8> = Vec::new();
        // "fmt "
        w.push(0x66);
        w.push(0x6d);
        w.push(0x74);
        w.push(0x20);
        assert(w@ =~= fmt_name());
        write_u32(&mut w, 18 + 22);
        // wFormatTag: WAVE_FORMAT_EXTENSIBLE
        write_u16(&mut w, 0xFFFE);
        write_u16(&mut w, num_channels);
        write_u32(&mut w, header.sample_rate);
        write_u32(&mut w, bytes_per_sec);
        write_u16(&mut w, block_align);
        write_u16(&mut w, bits_per_sample);
        // cbSize
        write_u16(&mut w, 22);
        // wValidBitsPerSample
        write_u16(&mut w, bits_per_sample);
        write_u32(&mut w, header.channels.channel_mask());
        // SubFormat: the format tag, then the fixed GUID suffix
        write_u16(&mut w, audio_format);
        let suffix: [u8; 14] = [
            0x00, 0x00, 0x00, 0x00, 0x10, 0x00, 0x80, 0x00, 0x00, 0xAA, 0x00, 0x38, 0x9B, 0x71,
        ];
        let mut i: usize = 0;
        let ghost before = w@;
        while i < 14
            invariant
                i <= 14,
                suffix@ == guid_suffix(),
                w@ == before + suffix@.subrange(0, i as int),
            decreases 14 - i,
        {
            w.push(suffix[i]);
            assert(w@ =~= before + suffix@.subrange(0, i + 1));
            i = i + 1;
        }
        assert(suffix@.subrange(0, 14) =~= suffix@);
        assert(w@ =~= fmt_chunk_bytes(*header, bytes_per_sec));
        Ok(w)
    }
}

/// Largest number of samples that keeps a file of `count` channels of `bytes`
/// bytes each within the 4 GiB limit of the RIFF container.
pub open spec fn spec_max_samples(count: nat, bytes: nat) -> int {
    (0xFFFF_FFFF - 32 + 8) / (count as int) / (bytes as int)
}

/// The largest number of samples that a file of these channels and this format
/// can hold.
pub fn calculate_max_samples(channels: &Channels, sample_format: SampleFormat) -> (r: usize)
    requires
        channels.spec_count() > 0,
    ensures
        r == spec_max_samples(channels.spec_count(), format_bytes(sample_format)),
{
    let channels_count = channels.count() as u32;
    let bytes_per_sample = sample_format.bytes_per_sample() as u32;
    let max_samples = (u32::MAX - 32 + 8) / channels_count / bytes_per_sample;
    max_samples as usize
}

/// Serializing channels to a mask and deriving channels back from that mask gives
/// the same channels, with the same count.
pub proof fn lemma_mask_round_trip(c: Channels)
    ensures
        Channels::spec_from_mask(c.spec_mask()) == c,
        Channels::spec_from_mask(c.spec_mask()).spec_count() == c.spec_count(),
{
    lemma_mask_has_bits(c);
    assert(Channels::spec_from_mask(c.spec_mask()) == c);
}

} // verus!
