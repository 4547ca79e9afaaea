use vstd::prelude::*;

use core::marker::PhantomData;

use crate::bytes::{read_u32, u32_le};
use crate::error::WavError;
use crate::frame::{decode_frame, decode_stored_frame, read_frame, slot_values};
use crate::open_wav::OpenWav;
use crate::sample::{is_int_format, widens_to, Sample};
use crate::samples_by_channel::SamplesByChannel;
use crate::wave_header::{
    format_bytes, has_name, name_at, Channels, SampleFormat, SampleFormatSize, WavHeader,
};

verus! {

/// The chunk name `data`.
pub open spec fn data_name() -> Seq<u8> {
    seq![0x64u8, 0x61u8, 0x74u8, 0x61u8]
}

/// Where the sample data starts, and how many bytes it declares, when the chunks
/// are scanned from `pos` on: every chunk not named `data` is skipped by its
/// declared size.
pub open spec fn find_data(b: Seq<u8>, pos: int) -> Result<(nat, nat), WavError>
    decreases (if 0 <= pos <= b.len() {
        b.len() - pos
    } else {
        0
    }),
{
    if pos < 0 || b.len() < pos + 8 {
        Err(WavError::UnexpectedEof)
    } else if has_name(b, pos, data_name()) {
        Ok(((pos + 8) as nat, u32_le(b, pos + 4) as nat))
    } else {
        find_data(b, pos + 8 + u32_le(b, pos + 4))
    }
}

/// An open wav whose header has been read: where its sample data lies.
pub struct OpenWavReader {
    header: WavHeader,
    data_length: usize,
    data_start: usize,
}

impl OpenWavReader {
    #[verifier::type_invariant]
    spec fn inv(self) -> bool {
        &&& self.header.channels.spec_count() > 0
        &&& self.data_start <= u32::MAX + 8
        &&& self.data_length <= u32::MAX
    }

    /// The byte offset at which the sample data begins.
    pub closed spec fn spec_data_start(&self) -> nat {
        self.data_start as nat
    }

    /// The number of bytes of sample data that the file declares.
    pub closed spec fn spec_data_length(&self) -> nat {
        self.data_length as nat
    }

    /// Scans the chunks of `b` from `position` on for the `data` chunk, and opens
    /// the wav whose header is `header`.
    /// A wav is at most 4 GiB long, and so is the prefix `b` of one.
    pub fn new(b: &[u8], header: WavHeader, position: usize) -> (r: Result<OpenWavReader, WavError>)
        requires
            header.channels.spec_count() > 0,
            b@.len() <= u32::MAX,
        ensures
            match r {
                Ok(w) => find_data(b@, position as int) == Ok::<(nat, nat), WavError>(
                    (w.spec_data_start(), w.spec_data_length()),
                ) && w.spec_header() == header,
                Err(e) => find_data(b@, position as int) == Err::<(nat, nat), WavError>(e),
            },
    {
        let len = b.len();
        let data: [u8; 4] = [0x64, 0x61, 0x74, 0x61];
        assert(data@ =~= data_name());
        let mut data_start = position;
        loop
            invariant
                len == b@.len(),
                len <= u32::MAX,
                data@ == data_name(),
                header.channels.spec_count() > 0,
                find_data(b@, data_start as int) == find_data(b@, position as int),
            decreases len - data_start,
        {
            if len < 8 || data_start > len - 8 {
                return Err(WavError::UnexpectedEof);
            }
            if name_at(b, data_start, &data) {
                let data_length = read_u32(b, data_start + 4) as usize;
                return Ok(OpenWavReader { header, data_length, data_start: data_start + 8 });
            }
            let chunk_size = read_u32(b, data_start + 4) as usize;
            if chunk_size > len - data_start - 8 {
                assert(find_data(b@, data_start + 8 + chunk_size) == Err::<(nat, nat), WavError>(
                    WavError::UnexpectedEof,
                ));
                return Err(WavError::UnexpectedEof);
            }
            data_start = data_start + 8 + chunk_size;
        }
    }
}

impl OpenWavReader {
    /// The number of bytes of one frame: one sample per channel.
    pub open spec fn spec_frame_len(&self) -> nat {
        self.spec_header().channels.spec_count() * format_bytes(self.spec_header().sample_format)
    }

    /// The byte offset of frame `sample`.
    pub open spec fn spec_sample_position(&self, sample: nat) -> nat {
        self.spec_data_start() + sample * self.spec_frame_len()
    }

    /// Whether samples of this file may be read as samples of type `T`: only
    /// widening conversions are offered, and none out of the float format.
    pub open spec fn reads_as<T: Sample>(&self) -> bool {
        is_int_format(self.spec_header().sample_format) && widens_to(
            self.spec_header().sample_format,
            T::spec_format(),
        )
    }

    /// The byte offset at which the sample data begins.
    pub fn data_start(&self) -> (r: usize)
        ensures
            r == self.spec_data_start(),
    {
        self.data_start
    }

    /// The number of bytes of one frame.
    pub fn frame_len(&self) -> (r: usize)
        ensures
            r == self.spec_frame_len(),
    {
        let count = self.header.channels.count();
        let bytes = self.header.sample_format.bytes_per_sample();
        assert(count * bytes <= 18 * 4) by (nonlinear_arith)
            requires
                count <= 18,
                bytes <= 4,
        ;
        (count * bytes) as usize
    }

    /// The byte offset of frame `sample`; fails when the file has no such frame.
    pub fn sample_position(&self, sample: usize) -> (r: Result<u64, WavError>)
        ensures
            match r {
                Ok(p) => sample < self.spec_len_samples() && p == self.spec_sample_position(
                    sample as nat,
                ),
                Err(e) => sample >= self.spec_len_samples() && e == WavError::OutOfRange,
            },
    {
        if sample >= self.len_samples() {
            return Err(WavError::OutOfRange);
        }
        proof {
            use_type_invariant(self);
            lemma_frame_within(self.data_length as nat, format_bytes(self.header.sample_format),
                self.header.channels.spec_count(), sample as nat);
        }
        let fl = self.frame_len() as u64;
        assert(sample * fl <= (sample + 1) * fl) by (nonlinear_arith);
        Ok(self.data_start as u64 + sample as u64 * fl)
    }

    /// The stored values of a frame whose bytes are `frame`: the sample values
    /// for integer formats, the bit patterns for the float format.
    pub fn read_stored_sample(&self, frame: &[u8]) -> (r: Result<SamplesByChannel<i32>, WavError>)
        ensures
            match r {
                Ok(s) => frame@.len() >= self.spec_frame_len() && slot_values(s.slots())
                    == read_frame(
                    self.spec_header().channels,
                    frame@,
                    self.spec_header().sample_format,
                    self.spec_header().sample_format,
                ),
                Err(e) => frame@.len() < self.spec_frame_len() && e == WavError::UnexpectedEof,
            },
    {
        if frame.len() < self.frame_len() {
            return Err(WavError::UnexpectedEof);
        }
        Ok(decode_stored_frame(&self.header.channels, self.header.sample_format, frame))
    }

    fn get_reader<T: Sample>(self) -> (r: Result<OpenWavReader, WavError>)
        ensures
            match r {
                Ok(w) => self.reads_as::<T>() && w == self,
                Err(e) => !self.reads_as::<T>() && e == WavError::UnsupportedConversion,
            },
    {
        let target = T::format();
        let ok = match (self.header.sample_format, target) {
            (SampleFormat::Int8, _) => true,
            (SampleFormat::Int16, SampleFormat::Int16) => true,
            (SampleFormat::Int16, SampleFormat::Int24) => true,
            (SampleFormat::Int24, SampleFormat::Int24) => true,
            _ => false,
        };
        if ok {
            Ok(self)
        } else {
            Err(WavError::UnsupportedConversion)
        }
    }

    /// A random-access reader of samples of type `T`; fails unless the file's
    /// samples widen to `T`.
    pub fn get_random_access_reader<T: Sample>(self) -> (r: Result<RandomAccessWavReader<T>, WavError>)
        ensures
            match r {
                Ok(w) => self.reads_as::<T>() && w.spec_info() == self,
                Err(e) => !self.reads_as::<T>() && e == WavError::UnsupportedConversion,
            },
    {
        let open_wav = self.get_reader::<T>()?;
        Ok(RandomAccessWavReader { open_wav, sample: PhantomData })
    }

    /// Reads the wav as 8-bit samples (narrowing to 8 bits is not supported).
    pub fn get_random_access_i8_reader(self) -> (r: Result<RandomAccessWavReader<i8>, WavError>)
        ensures
            match r {
                Ok(w) => self.reads_as::<i8>() && w.spec_info() == self,
                Err(e) => !self.reads_as::<i8>() && e == WavError::UnsupportedConversion,
            },
    {
        self.get_random_access_reader::<i8>()
    }

    /// Reads the wav as 16-bit samples (narrowing to 16 bits is not supported).
    pub fn get_random_access_i16_reader(self) -> (r: Result<RandomAccessWavReader<i16>, WavError>)
        ensures
            match r {
                Ok(w) => self.reads_as::<i16>() && w.spec_info() == self,
                Err(e) => !self.reads_as::<i16>() && e == WavError::UnsupportedConversion,
            },
    {
        self.get_random_access_reader::<i16>()
    }

    /// Reads the wav as 24-bit samples held in `i32` (narrowing to 24 bits is not
    /// supported).
    pub fn get_random_access_i24_reader(self) -> (r: Result<RandomAccessWavReader<i32>, WavError>)
        ensures
            match r {
                Ok(w) => self.reads_as::<i32>() && w.spec_info() == self,
                Err(e) => !self.reads_as::<i32>() && e == WavError::UnsupportedConversion,
            },
    {
        self.get_random_access_reader::<i32>()
    }

    /// A streaming reader of samples of type `T`; fails unless the file's samples
    /// widen to `T`.
    pub fn get_stream_reader<T: Sample>(self) -> (r: Result<StreamWavReader<T>, WavError>)
        ensures
            match r {
                Ok(w) => self.reads_as::<T>() && w.spec_info() == self,
                Err(e) => !self.reads_as::<T>() && e == WavError::UnsupportedConversion,
            },
    {
        let open_wav = self.get_reader::<T>()?;
        Ok(StreamWavReader { open_wav, sample: PhantomData })
    }

    /// Streams the wav as 8-bit samples.
    pub fn get_stream_i8_reader(self) -> (r: Result<StreamWavReader<i8>, WavError>)
        ensures
            match r {
                Ok(w) => self.reads_as::<i8>() && w.spec_info() == self,
                Err(e) => !self.reads_as::<i8>() && e == WavError::UnsupportedConversion,
            },
    {
        self.get_stream_reader::<i8>()
    }

    /// Streams the wav as 16-bit samples.
    pub fn get_stream_i16_reader(self) -> (r: Result<StreamWavReader<i16>, WavError>)
        ensures
            match r {
                Ok(w) => self.reads_as::<i16>() && w.spec_info() == self,
                Err(e) => !self.reads_as::<i16>() && e == WavError::UnsupportedConversion,
            },
    {
        self.get_stream_reader::<i16>()
    }

    /// Streams the wav as 24-bit samples held in `i32`.
    pub fn get_stream_i24_reader(self) -> (r: Result<StreamWavReader<i32>, WavError>)
        ensures
            match r {
                Ok(w) => self.reads_as::<i32>() && w.spec_info() == self,
                Err(e) => !self.reads_as::<i32>() && e == WavError::UnsupportedConversion,
            },
    {
        self.get_stream_reader::<i32>()
    }
}

/// Every frame before the last whole one ends within the declared data.
proof fn lemma_frame_within(len: nat, bytes: nat, count: nat, sample: nat)
    requires
        bytes > 0,
        count > 0,
        sample < len / bytes / count,
    ensures
        (sample + 1) * (count * bytes) <= len,
{
    assert((sample + 1) * (count * bytes) <= len) by (nonlinear_arith)
        requires
            bytes > 0,
            count > 0,
            sample < len / bytes / count,
    {
        vstd::arithmetic::div_mod::lemma_div_denominator(len as int, bytes as int, count as int);
        vstd::arithmetic::div_mod::lemma_fundamental_div_mod(len as int, (bytes * count) as int);
    }
}

/// Dividing twice by positive numbers does not increase a number.
proof fn lemma_div_le(x: nat, a: nat, b: nat)
    requires
        a > 0,
        b > 0,
    ensures
        x / a / b <= x,
{
    assert(x / a <= x) by (nonlinear_arith)
        requires
            a > 0,
    ;
    let y = x / a;
    assert(y / b <= y) by (nonlinear_arith)
        requires
            b > 0,
            y >= 0,
    ;
}

/// A random-access reader of samples of type `T`: any frame may be read, in any
/// order.
pub struct RandomAccessWavReader<T> {
    open_wav: OpenWavReader,
    sample: PhantomData<T>,
}

impl<T: Sample> RandomAccessWavReader<T> {
    /// The open wav being read.
    pub closed spec fn spec_info(&self) -> OpenWavReader {
        self.open_wav
    }

    /// The open wav being read.
    pub fn info(&self) -> (r: &OpenWavReader)
        ensures
            *r == self.spec_info(),
    {
        &self.open_wav
    }

    /// The byte offset of frame `sample`; fails when the file has no such frame.
    pub fn sample_position(&self, sample: usize) -> (r: Result<u64, WavError>)
        ensures
            match r {
                Ok(p) => sample < self.spec_info().spec_len_samples() && p
                    == self.spec_info().spec_sample_position(sample as nat),
                Err(e) => sample >= self.spec_info().spec_len_samples() && e == WavError::OutOfRange,
            },
    {
        self.open_wav.sample_position(sample)
    }

    /// Reads frame `sample`, whose bytes are `frame`: each present channel's
    /// value widened to `T`, in canonical channel order.
    pub fn read_sample(&self, sample: usize, frame: &[u8]) -> (r: Result<SamplesByChannel<T>, WavError>)
        requires
            self.spec_info().reads_as::<T>(),
        ensures
            ({
                let w = self.spec_info();
                match r {
                    Ok(s) => sample < w.spec_len_samples() && frame@.len() >= w.spec_frame_len()
                        && slot_values(s.slots()) == read_frame(
                        w.spec_header().channels,
                        frame@,
                        w.spec_header().sample_format,
                        T::spec_format(),
                    ),
                    Err(e) => if sample >= w.spec_len_samples() {
                        e == WavError::OutOfRange
                    } else {
                        frame@.len() < w.spec_frame_len() && e == WavError::UnexpectedEof
                    },
                }
            }),
    {
        if sample >= self.open_wav.len_samples() {
            return Err(WavError::OutOfRange);
        }
        if frame.len() < self.open_wav.frame_len() {
            return Err(WavError::UnexpectedEof);
        }
        Ok(decode_frame::<T>(&self.open_wav.header.channels, self.open_wav.header.sample_format, frame))
    }
}

/// A streaming reader of samples of type `T`: frames are read in order, once.
pub struct StreamWavReader<T> {
    open_wav: OpenWavReader,
    sample: PhantomData<T>,
}

impl<T: Sample> StreamWavReader<T> {
    /// The open wav being read.
    pub closed spec fn spec_info(&self) -> OpenWavReader {
        self.open_wav
    }

    /// The open wav being read.
    pub fn info(&self) -> (r: &OpenWavReader)
        ensures
            *r == self.spec_info(),
    {
        &self.open_wav
    }

    /// Starts the pass over the frames.
    pub fn into_iter(self) -> (r: StreamWavReaderIterator<T>)
        ensures
            r.spec_info() == self.spec_info(),
            r.spec_current() == 0,
            !r.spec_poisoned(),
    {
        StreamWavReaderIterator {
            open_wav: self.open_wav,
            current_sample: 0,
            poisoned: false,
            sample: PhantomData,
        }
    }
}

/// A single forward pass over the frames of a wav. The caller reads the bytes of
/// each frame from its stream and hands them over; once a frame fails, the pass
/// is over.
pub struct StreamWavReaderIterator<T> {
    open_wav: OpenWavReader,
    current_sample: usize,
    poisoned: bool,
    sample: PhantomData<T>,
}

impl<T: Sample> StreamWavReaderIterator<T> {
    /// The open wav being read.
    pub closed spec fn spec_info(&self) -> OpenWavReader {
        self.open_wav
    }

    /// The number of frames yielded so far.
    pub closed spec fn spec_current(&self) -> nat {
        self.current_sample as nat
    }

    /// Whether a failure has ended the pass.
    pub closed spec fn spec_poisoned(&self) -> bool {
        self.poisoned
    }

    /// The pass after `k` more frames have been yielded.
    pub closed spec fn spec_advanced(&self, k: nat) -> StreamWavReaderIterator<T> {
        StreamWavReaderIterator {
            open_wav: self.open_wav,
            current_sample: (self.current_sample + k) as usize,
            poisoned: self.poisoned,
            sample: self.sample,
        }
    }

    /// The byte offset of the next frame: frames follow one another from the
    /// start of the data.
    pub open spec fn spec_position(&self) -> nat {
        self.spec_info().spec_sample_position(self.spec_current())
    }

    /// Whether another frame is to come.
    pub open spec fn spec_has_next(&self) -> bool {
        !self.spec_poisoned() && self.spec_current() < self.spec_info().spec_len_samples()
    }

    /// The open wav being read.
    pub fn info(&self) -> (r: &OpenWavReader)
        ensures
            *r == self.spec_info(),
    {
        &self.open_wav
    }

    /// Whether another frame is to come.
    pub fn has_next(&self) -> (r: bool)
        ensures
            r == self.spec_has_next(),
    {
        !self.poisoned && self.current_sample < self.open_wav.len_samples()
    }

    /// The number of bytes of the next frame, which follows the previous one.
    pub fn frame_len(&self) -> (r: usize)
        ensures
            r == self.spec_info().spec_frame_len(),
    {
        self.open_wav.frame_len()
    }

    /// Ends the pass after the caller failed to read the next frame's bytes.
    pub fn fail(&mut self)
        ensures
            final(self).spec_info() == old(self).spec_info(),
            final(self).spec_current() == old(self).spec_current(),
            final(self).spec_poisoned(),
    {
        self.poisoned = true;
    }

    /// The next frame, whose bytes are `frame`; `None` once every frame has been
    /// yielded or the pass has failed. Bytes too short for a frame fail the pass.
    pub fn next(&mut self, frame: &[u8]) -> (r: Option<Result<SamplesByChannel<T>, WavError>>)
        requires
            old(self).spec_info().reads_as::<T>(),
        ensures
            final(self).spec_info() == old(self).spec_info(),
            !old(self).spec_has_next() ==> r is None && *final(self) == *old(self),
            old(self).spec_has_next() && frame@.len() < old(self).spec_info().spec_frame_len() ==> r
                == Some(Err::<SamplesByChannel<T>, WavError>(WavError::UnexpectedEof))
                && final(self).spec_poisoned() && final(self).spec_current() == old(self).spec_current(),
            old(self).spec_has_next() && frame@.len() >= old(self).spec_info().spec_frame_len() ==> ({
                let w = old(self).spec_info();
                &&& r matches Some(Ok(s))
                &&& slot_values(s.slots()) == read_frame(
                    w.spec_header().channels,
                    frame@,
                    w.spec_header().sample_format,
                    T::spec_format(),
                )
                &&& *final(self) == old(self).spec_advanced(1)
                &&& final(self).spec_current() == old(self).spec_current() + 1
                &&& !final(self).spec_poisoned()
            }),
    {
        if !self.has_next() {
            return None;
        }
        if frame.len() < self.open_wav.frame_len() {
            self.poisoned = true;
            return Some(Err(WavError::UnexpectedEof));
        }
        proof {
            use_type_invariant(&self.open_wav);
            lemma_div_le(self.open_wav.data_length as nat, format_bytes(
                self.open_wav.header.sample_format,
            ), self.open_wav.header.channels.spec_count());
        }
        self.current_sample = self.current_sample + 1;
        Some(
            Ok(
                decode_frame::<T>(
                    &self.open_wav.header.channels,
                    self.open_wav.header.sample_format,
                    frame,
                ),
            ),
        )
    }
}

/// A pass over a file of `N` frames yields exactly `N` frames: from the start of
/// the pass, after `k` frames another is to come exactly when `k < N`, and it is
/// read from the offset of frame `k`, where the random-access reader reads frame
/// `k`. Both decode the bytes they are given in the same way (see `next` and
/// `RandomAccessWavReader::read_sample`).
pub proof fn lemma_stream_yields_each_frame<T: Sample>(it: StreamWavReaderIterator<T>, k: nat)
    requires
        it.spec_info().spec_header().channels.spec_count() > 0,
        it.spec_current() == 0,
        !it.spec_poisoned(),
        k <= it.spec_info().spec_len_samples(),
    ensures
        it.spec_advanced(k).spec_info() == it.spec_info(),
        it.spec_advanced(k).spec_current() == k,
        it.spec_advanced(k).spec_has_next() <==> k < it.spec_info().spec_len_samples(),
        it.spec_advanced(k).spec_position() == it.spec_info().spec_sample_position(k),
        !it.spec_advanced(it.spec_info().spec_len_samples()).spec_has_next(),
{
    let w = it.spec_info();
    lemma_div_le(w.data_length as nat, format_bytes(w.header.sample_format), w.header.channels.spec_count());
}

/// Only widening reads are offered: a file of 16-bit, 24-bit or float samples
/// cannot be read as 8-bit samples, a file of 8-bit samples can be read as 16-bit
/// and 24-bit samples, and a widened read gives each stored value widened.
pub proof fn lemma_widening_only(w: OpenWavReader, b: Seq<u8>, target: SampleFormat)
    requires
        crate::sample::is_int_format(w.spec_header().sample_format),
    ensures
        w.spec_header().sample_format != SampleFormat::Int8 ==> !w.reads_as::<i8>(),
        w.spec_header().sample_format == SampleFormat::Int8 ==> w.reads_as::<i16>()
            && w.reads_as::<i32>(),
        forall|i: int|
            0 <= i < 18 ==> #[trigger] read_frame(w.spec_header().channels, b, w.spec_header().sample_format, target)[i]
                == match read_frame(
                w.spec_header().channels,
                b,
                w.spec_header().sample_format,
                w.spec_header().sample_format,
            )[i] {
                Some(v) => Some(crate::sample::widen(v, w.spec_header().sample_format, target)),
                None => None,
            },
{
    let c = w.spec_header().channels;
    let f = w.spec_header().sample_format;
    assert forall|i: int| 0 <= i < 18 implies #[trigger] read_frame(c, b, f, target)[i] == match read_frame(c, b, f, f)[i] {
        Some(v) => Some(crate::sample::widen(v, f, target)),
        None => None,
    } by {
        if c.flags()[i] {
            crate::frame::lemma_count_true_prefix_le(c.flags(), i);
        }
    }
}

impl OpenWav for OpenWavReader {
    closed spec fn spec_header(&self) -> WavHeader {
        self.header
    }

    closed spec fn spec_len_samples(&self) -> nat {
        self.data_length as nat / format_bytes(self.header.sample_format)
            / self.header.channels.spec_count()
    }

    fn sample_format(&self) -> (r: SampleFormat) {
        self.header.sample_format
    }

    fn num_channels(&self) -> (r: u16) {
        self.header.channels.count()
    }

    fn channels(&self) -> (r: &Channels) {
        &self.header.channels
    }

    fn sample_rate(&self) -> (r: u32) {
        self.header.sample_rate
    }

    fn bits_per_sample(&self) -> (r: u16) {
        self.header.sample_format.bits_per_sample()
    }

    fn bytes_per_sample(&self) -> (r: u16) {
        self.header.sample_format.bytes_per_sample()
    }

    fn len_samples(&self) -> (r: usize) {
        proof {
            use_type_invariant(self);
        }
        self.data_length / (self.bytes_per_sample() as usize) / (self.header.channels.count() as usize)
    }
}

} // verus!
