use vstd::prelude::*;

use crate::wave_header::{format_bytes, Channels, SampleFormat, WavHeader};

verus! {

/// An open wav file: its header and its length.
pub trait OpenWav {
    /// The header of the file.
    spec fn spec_header(&self) -> WavHeader;

    /// The number of samples in the file.
    spec fn spec_len_samples(&self) -> nat;

    /// The sample format.
    fn sample_format(&self) -> (r: SampleFormat)
        ensures
            r == self.spec_header().sample_format;

    /// The number of channels.
    fn num_channels(&self) -> (r: u16)
        ensures
            r == self.spec_header().channels.spec_count();

    /// The channels that the file holds.
    fn channels(&self) -> (r: &Channels)
        ensures
            *r == self.spec_header().channels;

    /// The samples per second.
    fn sample_rate(&self) -> (r: u32)
        ensures
            r == self.spec_header().sample_rate;

    /// The bits per sample.
    fn bits_per_sample(&self) -> (r: u16)
        ensures
            r == format_bytes(self.spec_header().sample_format) * 8;

    /// The bytes per sample.
    fn bytes_per_sample(&self) -> (r: u16)
        ensures
            r == format_bytes(self.spec_header().sample_format);

    /// The total number of samples in the file.
    fn len_samples(&self) -> (r: usize)
        ensures
            r == self.spec_len_samples();
}

} // verus!
