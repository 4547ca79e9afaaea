use vstd::prelude::*;

use core::marker::PhantomData;

use crate::bytes::{u32_bytes, write_u32};
use crate::error::WavError;
use crate::frame::{encode_frame_values, encode_values, gather, gather_values, ints, slot_values};
use crate::open_wav::OpenWav;
use crate::sample::{in_format_range, widens_to, Sample};
use crate::samples_by_channel::SamplesByChannel;
use crate::wave_header::{format_bytes, Channels, SampleFormat, SampleFormatSize, WavHeader};

verus! {

/// The bytes of a frame, as the caller writes them.
#[derive(Debug, Clone, PartialEq, Eq)]
pub enum FrameData {
    /// The frame's bytes.
    Encoded(Vec<u8>),
    /// Integer samples of the writer's sample type, in canonical channel order,
    /// that the caller converts to 32-bit floats and writes little-endian: the
    /// file is a float file.
    ToFloat(Vec<i32>),
}

/// What the caller does to its stream to write one frame: first append
/// `padding` zero bytes at the end of the stream, then write the frame at byte
/// offset `position`.
#[derive(Debug, Clone, PartialEq, Eq)]
pub struct WriteOp {
    pub padding: u64,
    pub position: u64,
    pub data: FrameData,
}

/// What the caller writes to finalize a file: the little-endian `u32`
/// `data_size` at byte offset `data_size_position`, and the little-endian `u32`
/// `riff_size` at byte offset 4.
#[derive(Debug, Clone, Copy, PartialEq, Eq)]
pub struct FlushOp {
    pub data_size_position: u64,
    pub data_size: u32,
    pub riff_size: u32,
}

/// The data region after the caller performed a write: `padding` zero bytes
/// appended, then `bytes` written at `offset` within the data.
pub open spec fn apply_write(data: Seq<u8>, padding: nat, offset: nat, bytes: Seq<u8>) -> Seq<u8> {
    let padded = data + Seq::new(padding, |i: int| 0u8);
    padded.subrange(0, offset as int) + bytes + padded.subrange(
        (offset + bytes.len()) as int,
        padded.len() as int,
    )
}

/// Writing frame `sample` of `fl` bytes past the `len` frames written so far, as
/// the write plan directs (append `(sample + 1 - len) * fl` zero bytes, then write
/// the frame at offset `sample * fl` of the data), leaves `sample + 1` frames:
/// the earlier frames unchanged, every frame in between all zero bytes, so that
/// each of its channels reads back as zero, and frame `sample` as written.
pub proof fn lemma_sparse_write_padding(
    c: Channels,
    f: SampleFormat,
    data: Seq<u8>,
    len: nat,
    sample: nat,
    bytes: Seq<u8>,
)
    requires
        crate::sample::is_int_format(f),
        data.len() == len * (c.spec_count() * format_bytes(f)),
        sample >= len,
        bytes.len() == c.spec_count() * format_bytes(f),
    ensures
        ({
            let fl = c.spec_count() * format_bytes(f);
            let d = apply_write(data, ((sample + 1 - len) * fl) as nat, sample * fl, bytes);
            &&& d.len() == (sample + 1) * fl
            &&& d.subrange(0, (len * fl) as int) == data
            &&& d.subrange((sample * fl) as int, ((sample + 1) * fl) as int) == bytes
            &&& forall|k: int, i: int|
                len <= k < sample && 0 <= i < 18 ==> #[trigger] crate::frame::read_frame(
                    c,
                    d.subrange(k * fl, (k + 1) * fl),
                    f,
                    f,
                )[i] == if c.flags()[i] {
                    Some(0int)
                } else {
                    None
                }
        }),
{
    let fl = c.spec_count() * format_bytes(f);
    let pad = ((sample + 1 - len) * fl) as nat;
    let padded = data + Seq::new(pad, |i: int| 0u8);
    let d = apply_write(data, pad, sample * fl, bytes);
    assert(len * fl + (sample + 1 - len) * fl == (sample + 1) * fl) by (nonlinear_arith)
        requires
            sample >= len,
    ;
    assert(len * fl <= sample * fl && sample * fl + fl == (sample + 1) * fl) by (nonlinear_arith)
        requires
            sample >= len,
    ;
    assert(d.len() == (sample + 1) * fl);
    assert(d.subrange(0, (len * fl) as int) =~= data);
    assert(d.subrange((sample * fl) as int, ((sample + 1) * fl) as int) =~= bytes);
    assert forall|k: int, i: int| len <= k < sample && 0 <= i < 18 implies #[trigger] crate::frame::read_frame(
        c,
        d.subrange(k * fl, (k + 1) * fl),
        f,
        f,
    )[i] == if c.flags()[i] {
        Some(0int)
    } else {
        None
    } by {
        let fr = d.subrange(k * fl, (k + 1) * fl);
        assert(len * fl <= k * fl && (k + 1) * fl <= sample * fl && k * fl + fl == (k + 1) * fl)
            by (nonlinear_arith)
            requires
                len <= k < sample,
        ;
        assert forall|j: int| 0 <= j < fr.len() implies fr[j] == 0u8 by {
            assert(fr[j] == d[k * fl + j]);
            assert(d[k * fl + j] == padded[k * fl + j]);
        }
        let w = format_bytes(f);
        let vals = crate::frame::decode_values(fr, c.spec_count(), f);
        assert forall|m: int| 0 <= m < vals.len() implies vals[m] == 0 by {
            assert(m * w + w <= fr.len()) by (nonlinear_arith)
                requires
                    0 <= m < c.spec_count(),
                    fr.len() == c.spec_count() * w,
            ;
            assert(fr[m * w] == 0u8);
            if w >= 2 {
                assert(fr[m * w + 1] == 0u8);
            }
            if w >= 3 {
                assert(fr[m * w + 2] == 0u8);
            }
            if w >= 4 {
                assert(fr[m * w + 3] == 0u8);
            }
        }
        if c.flags()[i] {
            crate::frame::lemma_count_true_prefix_le(c.flags(), i);
        }
    }
}

/// Whether `d` is what the caller writes for a frame whose present channels
/// hold `vals`, samples of format `src`, in a file of format `file`.
pub open spec fn frame_data_of(d: FrameData, vals: Seq<int>, src: SampleFormat, file: SampleFormat) -> bool {
    &&& file == SampleFormat::Float ==> (d matches FrameData::ToFloat(v) && ints(v@) == vals)
    &&& file != SampleFormat::Float ==> (d matches FrameData::Encoded(b) && b@ == encode_values(
        vals,
        src,
        file,
    ))
}

/// What the caller writes for `frame`, samples of type `T`, in a file whose
/// header is `header`.
fn frame_data<T: Sample>(header: &WavHeader, frame: &SamplesByChannel<T>) -> (r: Result<
    FrameData,
    WavError,
>)
    requires
        widens_to(T::spec_format(), header.sample_format),
    ensures
        ({
            let g = gather(header.channels.flags(), slot_values(frame.slots()), T::spec_format(), 18);
            match r {
                Ok(d) => g is Ok && frame_data_of(d, g->Ok_0, T::spec_format(), header.sample_format),
                Err(e) => g == Err::<Seq<int>, WavError>(e),
            }
        }),
{
    let slots = frame.to_slots();
    let values = gather_values::<T>(&header.channels, &slots)?;
    let file = header.sample_format;
    match file {
        SampleFormat::Float => Ok(FrameData::ToFloat(values)),
        _ => {
            proof {
                assert forall|k: int| 0 <= k < values@.len() implies in_format_range(
                    #[trigger] values@[k] as int,
                    T::spec_format(),
                ) by {
                    assert(ints(values@)[k] == values@[k] as int);
                    crate::frame::lemma_gather_values_in_range(
                        header.channels.flags(),
                        slot_values(slots@),
                        T::spec_format(),
                        18,
                        k,
                    );
                }
            }
            Ok(FrameData::Encoded(encode_frame_values(&values, T::format(), file)))
        },
    }
}

/// After the caller carries out a write plan whose frame lies within the
/// padded data, the frame's place holds its bytes.
pub proof fn lemma_apply_write_frame(data: Seq<u8>, padding: nat, offset: nat, bytes: Seq<u8>)
    requires
        offset + bytes.len() <= data.len() + padding,
    ensures
        apply_write(data, padding, offset, bytes).len() == data.len() + padding,
        apply_write(data, padding, offset, bytes).subrange(
            offset as int,
            (offset + bytes.len()) as int,
        ) == bytes,
{
    let d = apply_write(data, padding, offset, bytes);
    assert(d.subrange(offset as int, (offset + bytes.len()) as int) =~= bytes);
}

/// Writing then reading back: once the caller has carried out the plan of
/// writing a frame of samples of format `src` as frame `sample` of a file of
/// format `file` that holds `len` frames (zero padding when the frame lies past
/// them, then the frame's bytes at its offset), reading frame `sample` back as
/// samples of format `target` gives each present channel's value widened from
/// `src` to `target`, and no value for the other channels. In the same format,
/// the values come back unchanged.
pub proof fn lemma_write_then_read(
    c: Channels,
    vals: Seq<Option<int>>,
    src: SampleFormat,
    file: SampleFormat,
    target: SampleFormat,
    data: Seq<u8>,
    len: nat,
    sample: nat,
)
    requires
        vals.len() == 18,
        gather(c.flags(), vals, src, 18) is Ok,
        widens_to(src, file),
        widens_to(file, target),
        crate::sample::is_int_format(target),
        data.len() == len * (c.spec_count() * format_bytes(file)),
    ensures
        ({
            let fl = c.spec_count() * format_bytes(file);
            let bytes = encode_values(gather(c.flags(), vals, src, 18)->Ok_0, src, file);
            let padding = if sample >= len {
                ((sample + 1 - len) * fl) as nat
            } else {
                0nat
            };
            let d = apply_write(data, padding, sample * fl, bytes);
            let back = crate::frame::read_frame(
                c,
                d.subrange((sample * fl) as int, ((sample + 1) * fl) as int),
                file,
                target,
            );
            &&& forall|i: int|
                0 <= i < 18 ==> #[trigger] back[i] == if c.flags()[i] {
                    Some(
                        crate::sample::widen(
                            crate::sample::widen(vals[i]->Some_0, src, file),
                            file,
                            target,
                        ),
                    )
                } else {
                    None
                }
            &&& src == file && file == target ==> forall|i: int|
                0 <= i < 18 ==> #[trigger] back[i] == if c.flags()[i] {
                    vals[i]
                } else {
                    None
                }
        }),
{
    let flags = c.flags();
    let fl = c.spec_count() * format_bytes(file);
    let g = gather(flags, vals, src, 18)->Ok_0;
    let bytes = encode_values(g, src, file);
    crate::frame::lemma_gather_scatter(flags, vals, src, 18);
    assert(flags.subrange(0, 18) =~= flags);
    crate::frame::lemma_encode_values_len(g, src, file);
    assert(bytes.len() == fl);
    let padding = if sample >= len {
        ((sample + 1 - len) * fl) as nat
    } else {
        0nat
    };
    assert(sample * fl + fl == (sample + 1) * fl) by (nonlinear_arith);
    if sample >= len {
        assert(len * fl + (sample + 1 - len) * fl == (sample + 1) * fl) by (nonlinear_arith)
            requires
                sample >= len,
        ;
    } else {
        assert((sample + 1) * fl <= len * fl) by (nonlinear_arith)
            requires
                sample < len,
        ;
    }
    lemma_apply_write_frame(data, padding, sample * fl, bytes);
    crate::frame::lemma_frame_round_trip(c, vals, src, file, target, Seq::empty());
    assert(bytes + Seq::<u8>::empty() =~= bytes);
}

/// An open wav being written: its header and how many frames it holds.
pub struct OpenWavWriter {
    header: WavHeader,
    frame_len: usize,
    data_start: usize,
    chunk_size_written: bool,
    samples_written: usize,
    max_samples: usize,
}

impl OpenWavWriter {
    #[verifier::type_invariant]
    spec fn inv(self) -> bool {
        &&& self.data_start >= 8
        &&& self.frame_len == self.header.channels.spec_count() * format_bytes(self.header.sample_format)
        &&& self.data_start + self.samples_written * self.frame_len <= u64::MAX
    }

    /// The byte offset at which the sample data begins.
    pub closed spec fn spec_data_start(&self) -> nat {
        self.data_start as nat
    }

    /// Whether the size fields match what has been written.
    pub closed spec fn spec_flushed(&self) -> bool {
        self.chunk_size_written
    }

    /// The largest number of frames that may be written.
    pub closed spec fn spec_max_samples(&self) -> nat {
        self.max_samples as nat
    }

    /// The number of bytes of one frame: one sample per channel.
    pub open spec fn spec_frame_len(&self) -> nat {
        self.spec_header().channels.spec_count() * format_bytes(self.spec_header().sample_format)
    }

    /// Starts the data chunk of a wav whose header is `header` at byte offset
    /// `position`; returns the chunk's own header bytes to write there.
    pub fn new(header: WavHeader, position: usize) -> (r: (Vec<u8>, OpenWavWriter))
        requires
            position + 8 <= usize::MAX,
        ensures
            r.0@ == data_name_bytes() + u32_bytes(0),
            r.1.spec_header() == header,
            r.1.spec_data_start() == position + 8,
            r.1.spec_len_samples() == 0,
            r.1.spec_max_samples() == header.max_samples,
            !r.1.spec_flushed(),
    {
        OpenWavWriter::new_max_samples(header, position, header.max_samples)
    }

    /// As `new`, with the largest number of frames given apart from the header.
    pub fn new_max_samples(header: WavHeader, position: usize, max_samples: usize) -> (r: (
        Vec<u8>,
        OpenWavWriter,
    ))
        requires
            position + 8 <= usize::MAX,
        ensures
            r.0@ == data_name_bytes() + u32_bytes(0),
            r.1.spec_header() == header,
            r.1.spec_data_start() == position + 8,
            r.1.spec_len_samples() == 0,
            r.1.spec_max_samples() == max_samples,
            !r.1.spec_flushed(),
    {
        let mut w: Vec<u8> = Vec::new();
        w.push(0x64);
        w.push(0x61);
        w.push(0x74);
        w.push(0x61);
        assert(w@ =~= data_name_bytes());
        write_u32(&mut w, 0);
        let count = header.channels.count();
        let bytes = header.sample_format.bytes_per_sample();
        assert(count * bytes <= 18 * 4) by (nonlinear_arith)
            requires
                count <= 18,
                bytes <= 4,
        ;
        let frame_len = (count * bytes) as usize;
        assert(0 * frame_len == 0);
        let writer = OpenWavWriter {
            header,
            frame_len,
            data_start: position + 8,
            chunk_size_written: false,
            samples_written: 0,
            max_samples,
        };
        (w, writer)
    }

    /// The byte offset at which the sample data begins.
    pub fn data_start(&self) -> (r: usize)
        ensures
            r == self.spec_data_start(),
    {
        self.data_start
    }

    /// The largest number of frames that may be written.
    pub fn max_samples(&self) -> (r: usize)
        ensures
            r == self.spec_max_samples(),
    {
        self.max_samples
    }

    /// Whether the size fields still need to be written.
    pub fn needs_flush(&self) -> (r: bool)
        ensures
            r == !self.spec_flushed(),
    {
        !self.chunk_size_written
    }

    /// The number of bytes of one frame.
    pub fn frame_len(&self) -> (r: usize)
        ensures
            r == self.spec_frame_len(),
    {
        proof {
            use_type_invariant(self);
        }
        self.frame_len
    }

    /// The size fields that make the file's headers match the frames written:
    /// the data chunk's size, and the RIFF size, which is the file size less 8.
    pub fn flush(&mut self) -> (r: FlushOp)
        ensures
            final(self).spec_header() == old(self).spec_header(),
            final(self).spec_data_start() == old(self).spec_data_start(),
            final(self).spec_len_samples() == old(self).spec_len_samples(),
            final(self).spec_max_samples() == old(self).spec_max_samples(),
            final(self).spec_flushed(),
            ({
                let data_len = old(self).spec_len_samples() * old(self).spec_frame_len();
                &&& r.data_size_position == old(self).spec_data_start() - 4
                &&& r.data_size == data_len % 0x1_0000_0000
                &&& r.riff_size == (old(self).spec_data_start() + data_len - 8) % 0x1_0000_0000
            }),
    {
        proof {
            use_type_invariant(&*self);
        }
        let chunk_size: u64 = self.samples_written as u64 * self.frame_len() as u64;
        let end: u64 = self.data_start as u64 + chunk_size;
        self.chunk_size_written = true;
        FlushOp {
            data_size_position: self.data_start as u64 - 4,
            data_size: (chunk_size % 0x1_0000_0000) as u32,
            riff_size: ((end - 8) % 0x1_0000_0000) as u32,
        }
    }

    /// Whether frame `sample` lies within the file's capacity: below its maximum
    /// number of samples, and ending at an offset that fits 64 bits.
    pub open spec fn spec_fits(&self, sample: nat) -> bool {
        sample < self.spec_max_samples() && self.spec_data_start() + (sample + 1)
            * self.spec_frame_len() <= u64::MAX
    }

    /// Fails with a capacity error unless frame `sample` lies within the file's
    /// capacity.
    pub fn check_capacity(&self, sample: usize) -> (r: Result<(), WavError>)
        ensures
            match r {
                Ok(_) => self.spec_fits(sample as nat),
                Err(e) => !self.spec_fits(sample as nat) && e == WavError::CapacityExceeded,
            },
    {
        if sample >= self.max_samples {
            return Err(WavError::CapacityExceeded);
        }
        let fl = self.frame_len() as u64;
        match (sample as u64).checked_add(1) {
            Some(n) => match n.checked_mul(fl) {
                Some(bytes) => match (self.data_start as u64).checked_add(bytes) {
                    Some(_) => Ok(()),
                    None => Err(WavError::CapacityExceeded),
                },
                None => Err(WavError::CapacityExceeded),
            },
            None => Err(WavError::CapacityExceeded),
        }
    }

    /// Makes room for frame `sample`: when it lies beyond the frames written so
    /// far, the data grows by zero frames up to and including it. Returns the
    /// number of zero bytes to append and the frame's byte offset.
    pub fn reserve_sample(&mut self, sample: usize) -> (r: (u64, u64))
        requires
            old(self).spec_fits(sample as nat),
        ensures
            ({
                let w = *old(self);
                let w2 = *final(self);
                let fl = w.spec_frame_len();
                &&& r.1 == w.spec_data_start() + sample * fl
                &&& r.0 == if sample >= w.spec_len_samples() {
                    (sample + 1 - w.spec_len_samples()) * fl
                } else {
                    0int
                }
                &&& w2.spec_len_samples() == if sample >= w.spec_len_samples() {
                    sample + 1
                } else {
                    w.spec_len_samples() as int
                }
                &&& w2.spec_header() == w.spec_header()
                &&& w2.spec_data_start() == w.spec_data_start()
                &&& w2.spec_max_samples() == w.spec_max_samples()
                &&& !w2.spec_flushed()
            }),
    {
        proof {
            use_type_invariant(&*self);
        }
        let fl = self.frame_len() as u64;
        let data_start = self.data_start as u64;
        let written = self.samples_written;
        let ghost end = data_start + (sample + 1) * fl;
        assert(data_start + sample * fl <= end && sample * fl <= end) by (nonlinear_arith)
            requires
                end == data_start + (sample + 1) * fl,
        ;
        let position = data_start + (sample as u64) * fl;
        let padding: u64 = if sample >= written {
            assert((sample + 1 - written) * fl <= end) by (nonlinear_arith)
                requires
                    written <= sample + 1,
                    end == data_start + (sample + 1) * fl,
            ;
            ((sample + 1 - written) as u64) * fl
        } else {
            0
        };
        if sample >= written {
            self.samples_written = sample + 1;
        }
        self.chunk_size_written = false;
        (padding, position)
    }

    fn get_writer<T: Sample>(self) -> (r: Result<OpenWavWriter, WavError>)
        ensures
            match r {
                Ok(w) => widens_to(T::spec_format(), self.spec_header().sample_format) && w == self,
                Err(e) => !widens_to(T::spec_format(), self.spec_header().sample_format) && e
                    == WavError::UnsupportedConversion,
            },
    {
        let ok = match (T::format(), self.header.sample_format) {
            (_, SampleFormat::Float) => true,
            (SampleFormat::Int8, _) => true,
            (SampleFormat::Int16, SampleFormat::Int16) => true,
            (SampleFormat::Int16, SampleFormat::Int24) => true,
            (SampleFormat::Int24, SampleFormat::Int24) => true,
            _ => false,
        };
        if ok {
            Ok(self)
        } else {
            Err(WavError::UnsupportedConversion)
        }
    }

    /// A random-access writer of samples of type `T`; fails unless `T` widens to
    /// the file's format.
    pub fn get_random_access_writer<T: Sample>(self) -> (r: Result<RandomAccessWavWriter<T>, WavError>)
        ensures
            match r {
                Ok(w) => widens_to(T::spec_format(), self.spec_header().sample_format)
                    && w.spec_info() == self,
                Err(e) => !widens_to(T::spec_format(), self.spec_header().sample_format) && e
                    == WavError::UnsupportedConversion,
            },
    {
        let open_wav = self.get_writer::<T>()?;
        Ok(RandomAccessWavWriter { open_wav, sample: PhantomData })
    }

    /// A streaming writer of samples of type `T`; fails unless `T` widens to the
    /// file's format.
    pub fn get_stream_writer<T: Sample>(self) -> (r: Result<StreamWavWriter<T>, WavError>)
        ensures
            match r {
                Ok(w) => widens_to(T::spec_format(), self.spec_header().sample_format)
                    && w.spec_info() == self,
                Err(e) => !widens_to(T::spec_format(), self.spec_header().sample_format) && e
                    == WavError::UnsupportedConversion,
            },
    {
        let open_wav = self.get_writer::<T>()?;
        Ok(StreamWavWriter { open_wav, sample: PhantomData })
    }

    /// Writes 8-bit samples, widened to the file's format.
    pub fn get_random_access_i8_writer(self) -> (r: Result<RandomAccessWavWriter<i8>, WavError>)
        ensures
            match r {
                Ok(w) => w.spec_info() == self,
                Err(_) => false,
            },
    {
        self.get_random_access_writer::<i8>()
    }

    /// Writes 16-bit samples, widened to the file's format; fails for 8-bit files.
    pub fn get_random_access_i16_writer(self) -> (r: Result<RandomAccessWavWriter<i16>, WavError>)
        ensures
            match r {
                Ok(w) => self.spec_header().sample_format != SampleFormat::Int8 && w.spec_info()
                    == self,
                Err(e) => self.spec_header().sample_format == SampleFormat::Int8 && e
                    == WavError::UnsupportedConversion,
            },
    {
        self.get_random_access_writer::<i16>()
    }

    /// Writes 24-bit samples held in `i32`, to 24-bit or float files.
    pub fn get_random_access_i24_writer(self) -> (r: Result<RandomAccessWavWriter<i32>, WavError>)
        ensures
            match r {
                Ok(w) => (self.spec_header().sample_format == SampleFormat::Int24
                    || self.spec_header().sample_format == SampleFormat::Float) && w.spec_info()
                    == self,
                Err(e) => self.spec_header().sample_format != SampleFormat::Int24
                    && self.spec_header().sample_format != SampleFormat::Float && e
                    == WavError::UnsupportedConversion,
            },
    {
        self.get_random_access_writer::<i32>()
    }
}

/// The chunk name `data`.
pub open spec fn data_name_bytes() -> Seq<u8> {
    seq![0x64u8, 0x61u8, 0x74u8, 0x61u8]
}

impl OpenWav for OpenWavWriter {
    closed spec fn spec_header(&self) -> WavHeader {
        self.header
    }

    closed spec fn spec_len_samples(&self) -> nat {
        self.samples_written as nat
    }

    fn sample_format(&self) -> (r: SampleFormat) {
        self.header.sample_format
    }

    fn num_channels(&self) -> (r: u16) {
        self.header.channels.count()
    }

    fn channels(&self) -> (r: &Channels) {
        &self.header.channels
    }

    fn sample_rate(&self) -> (r: u32) {
        self.header.sample_rate
    }

    fn bits_per_sample(&self) -> (r: u16) {
        self.header.sample_format.bits_per_sample()
    }

    fn bytes_per_sample(&self) -> (r: u16) {
        self.header.sample_format.bytes_per_sample()
    }

    fn len_samples(&self) -> (r: usize) {
        self.samples_written
    }
}

/// A random-access writer of samples of type `T`: frames may be written in any
/// order, and writing beyond the end pads the file with zero frames.
pub struct RandomAccessWavWriter<T> {
    open_wav: OpenWavWriter,
    sample: PhantomData<T>,
}

impl<T: Sample> RandomAccessWavWriter<T> {
    /// The open wav being written.
    pub closed spec fn spec_info(&self) -> OpenWavWriter {
        self.open_wav
    }

    /// Writes frame `sample`: the value of each channel that the file holds,
    /// widened to the file's format. Fails, changing nothing, when the frame is
    /// beyond the file's capacity, or lacks a value for a channel of the file,
    /// or holds a value out of range.
    pub fn write_samples(&mut self, sample: usize, samples_by_channel: SamplesByChannel<T>) -> (r:
        Result<WriteOp, WavError>)
        requires
            widens_to(T::spec_format(), old(self).spec_info().spec_header().sample_format),
        ensures
            ({
                let w = old(self).spec_info();
                let w2 = final(self).spec_info();
                let fl = w.spec_frame_len();
                let file = w.spec_header().sample_format;
                let g = gather(
                    w.spec_header().channels.flags(),
                    slot_values(samples_by_channel.slots()),
                    T::spec_format(),
                    18,
                );
                let fits = sample < w.spec_max_samples() && w.spec_data_start() + (sample + 1) * fl
                    <= u64::MAX;
                match r {
                    Err(e) => *final(self) == *old(self) && if !fits {
                        e == WavError::CapacityExceeded
                    } else {
                        g == Err::<Seq<int>, WavError>(e)
                    },
                    Ok(op) => {
                        &&& fits
                        &&& g is Ok
                        &&& op.position == w.spec_data_start() + sample * fl
                        &&& op.padding == if sample >= w.spec_len_samples() {
                            (sample + 1 - w.spec_len_samples()) * fl
                        } else {
                            0int
                        }
                        &&& w2.spec_len_samples() == if sample >= w.spec_len_samples() {
                            sample + 1
                        } else {
                            w.spec_len_samples() as int
                        }
                        &&& w2.spec_header() == w.spec_header()
                        &&& w2.spec_data_start() == w.spec_data_start()
                        &&& w2.spec_max_samples() == w.spec_max_samples()
                        &&& !w2.spec_flushed()
                        &&& frame_data_of(op.data, g->Ok_0, T::spec_format(), file)
                    },
                }
            }),
    {
        self.open_wav.check_capacity(sample)?;
        let data = frame_data::<T>(&self.open_wav.header, &samples_by_channel)?;
        let (padding, position) = self.open_wav.reserve_sample(sample);
        Ok(WriteOp { padding, position, data })
    }

    /// The open wav being written.
    pub fn info(&self) -> (r: &OpenWavWriter)
        ensures
            *r == self.spec_info(),
    {
        &self.open_wav
    }

    /// The size fields that finalize the file; see `OpenWavWriter::flush`.
    pub fn flush(&mut self) -> (r: FlushOp)
        ensures
            final(self).spec_info().spec_header() == old(self).spec_info().spec_header(),
            final(self).spec_info().spec_data_start() == old(self).spec_info().spec_data_start(),
            final(self).spec_info().spec_len_samples() == old(self).spec_info().spec_len_samples(),
            final(self).spec_info().spec_max_samples() == old(self).spec_info().spec_max_samples(),
            final(self).spec_info().spec_flushed(),
            ({
                let w = old(self).spec_info();
                let data_len = w.spec_len_samples() * w.spec_frame_len();
                &&& r.data_size_position == w.spec_data_start() - 4
                &&& r.data_size == data_len % 0x1_0000_0000
                &&& r.riff_size == (w.spec_data_start() + data_len - 8) % 0x1_0000_0000
            }),
    {
        self.open_wav.flush()
    }
}

/// A streaming writer of samples of type `T`: frames are appended in order,
/// after the frames already written.
pub struct StreamWavWriter<T> {
    open_wav: OpenWavWriter,
    sample: PhantomData<T>,
}

impl<T: Sample> StreamWavWriter<T> {
    /// The open wav being written.
    pub closed spec fn spec_info(&self) -> OpenWavWriter {
        self.open_wav
    }

    /// The open wav being written.
    pub fn info(&self) -> (r: &OpenWavWriter)
        ensures
            *r == self.spec_info(),
    {
        &self.open_wav
    }

    /// The byte offset at which the next frame goes: right after the frames
    /// written so far.
    pub fn next_position(&self) -> (r: u64)
        requires
            self.spec_info().spec_fits(self.spec_info().spec_len_samples()),
        ensures
            r == self.spec_info().spec_data_start() + self.spec_info().spec_len_samples()
                * self.spec_info().spec_frame_len(),
    {
        let n = self.open_wav.samples_written as u64;
        let fl = self.open_wav.frame_len() as u64;
        assert(n * fl <= (n + 1) * fl) by (nonlinear_arith);
        self.open_wav.data_start as u64 + n * fl
    }

    /// Appends one frame. Fails, changing nothing, when the file is full, or the
    /// frame lacks a value for a channel of the file, or holds a value out of
    /// range.
    pub fn write_next(&mut self, samples_by_channel: SamplesByChannel<T>) -> (r: Result<
        FrameData,
        WavError,
    >)
        requires
            widens_to(T::spec_format(), old(self).spec_info().spec_header().sample_format),
        ensures
            ({
                let w = old(self).spec_info();
                let w2 = final(self).spec_info();
                let n = w.spec_len_samples();
                let g = gather(
                    w.spec_header().channels.flags(),
                    slot_values(samples_by_channel.slots()),
                    T::spec_format(),
                    18,
                );
                match r {
                    Err(e) => *final(self) == *old(self) && if !w.spec_fits(n) {
                        e == WavError::CapacityExceeded
                    } else {
                        g == Err::<Seq<int>, WavError>(e)
                    },
                    Ok(d) => {
                        &&& w.spec_fits(n)
                        &&& g is Ok
                        &&& frame_data_of(d, g->Ok_0, T::spec_format(), w.spec_header().sample_format)
                        &&& w2.spec_len_samples() == n + 1
                        &&& w2.spec_header() == w.spec_header()
                        &&& w2.spec_data_start() == w.spec_data_start()
                        &&& w2.spec_max_samples() == w.spec_max_samples()
                        &&& !w2.spec_flushed()
                    },
                }
            }),
    {
        let n = self.open_wav.samples_written;
        self.open_wav.check_capacity(n)?;
        let data = frame_data::<T>(&self.open_wav.header, &samples_by_channel)?;
        let _ = self.open_wav.reserve_sample(n);
        Ok(data)
    }

    /// The size fields that finalize the file; see `OpenWavWriter::flush`.
    pub fn flush(&mut self) -> (r: FlushOp)
        ensures
            final(self).spec_info().spec_header() == old(self).spec_info().spec_header(),
            final(self).spec_info().spec_data_start() == old(self).spec_info().spec_data_start(),
            final(self).spec_info().spec_len_samples() == old(self).spec_info().spec_len_samples(),
            final(self).spec_info().spec_max_samples() == old(self).spec_info().spec_max_samples(),
            final(self).spec_info().spec_flushed(),
            ({
                let w = old(self).spec_info();
                let data_len = w.spec_len_samples() * w.spec_frame_len();
                &&& r.data_size_position == w.spec_data_start() - 4
                &&& r.data_size == data_len % 0x1_0000_0000
                &&& r.riff_size == (w.spec_data_start() + data_len - 8) % 0x1_0000_0000
            }),
    {
        self.open_wav.flush()
    }
}

} // verus!
