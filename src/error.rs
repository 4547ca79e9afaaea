use vstd::prelude::*;

verus! {

/// What went wrong while parsing, reading or writing a wav.
#[derive(Debug, Clone, Copy, PartialEq, Eq, Structural)]
pub enum WavError {
    /// The RIFF, WAVE or `fmt ` marker is missing.
    MalformedContainer,
    /// The format tag or bit depth is not supported, or the extensible header's
    /// channel count does not match its channel mask, or no channel is present.
    UnsupportedFormat,
    /// A sample index at or beyond the number of samples in the file.
    OutOfRange,
    /// A narrowing conversion was requested.
    UnsupportedConversion,
    /// Writing would take the file beyond its maximum number of samples.
    CapacityExceeded,
    /// A 24-bit value outside the 24-bit range.
    InvalidSampleValue,
    /// A frame lacks a value for a channel that the file holds.
    MissingChannel,
    /// The bytes end before the item being read.
    UnexpectedEof,
}

} // verus!
