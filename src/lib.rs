//! Reading and writing of WAV (RIFF/WAVE) audio: header parsing and emission,
//! a channel model, widening sample conversions, random-access addressing with
//! zero padding, and a forward-only streaming protocol.
//!
//! The library never performs I/O itself. Parsing works on byte slices, and the
//! readers and writers describe the reads, seeks and writes that a caller
//! performs on its byte stream.
use vstd::prelude::*;

pub mod assertions;
pub mod bytes;
pub mod error;
pub mod frame;
pub mod sample;
pub mod samples_by_channel;
pub mod open_wav;
pub mod upconvert;
pub mod wave_header;
pub mod wave_reader;
pub mod wave_writer;

use crate::bytes::{lemma_u16_bytes_le, lemma_u32_bytes_le, u16_bytes, u32_bytes};
use crate::error::WavError;
use crate::open_wav::OpenWav;
use crate::wave_header::{
    fmt_chunk_bytes, fmt_name, format_bytes, has_name, header_of, name_at, parse_fmt,
    spec_format_from_bits, WavHeader,
};
use crate::wave_reader::{find_data, OpenWavReader};
use crate::wave_writer::{data_name_bytes, OpenWavWriter};

verus! {

/// The chunk name `RIFF`.
pub open spec fn riff_name() -> Seq<u8> {
    seq![0x52u8, 0x49u8, 0x46u8, 0x46u8]
}

/// The form type `WAVE`.
pub open spec fn wave_name() -> Seq<u8> {
    seq![0x57u8, 0x41u8, 0x56u8, 0x45u8]
}

/// The header of the wav whose first bytes are `b`, where its sample data starts
/// and how many bytes of it the file declares.
pub open spec fn parse_wav(b: Seq<u8>) -> Result<(WavHeader, nat, nat), WavError> {
    if b.len() < 12 {
        Err(WavError::UnexpectedEof)
    } else if !has_name(b, 0, riff_name()) || !has_name(b, 8, wave_name()) {
        Err(WavError::MalformedContainer)
    } else {
        match parse_fmt(b, 12) {
            Err(e) => Err(e),
            Ok((h, size)) => match find_data(b, (20 + size) as int) {
                Err(e) => Err(e),
                Ok((start, len)) => Ok((h, start, len)),
            },
        }
    }
}

/// Opens a wav from its first bytes `b`, which reach at least to the size field
/// of its `data` chunk (else the result is `UnexpectedEof`). A wav is at most
/// 4 GiB long.
pub fn read_wav(b: &[u8]) -> (r: Result<OpenWavReader, WavError>)
    requires
        b@.len() <= u32::MAX,
    ensures
        match r {
            Ok(w) => parse_wav(b@) == Ok::<(WavHeader, nat, nat), WavError>(
                (w.spec_header(), w.spec_data_start(), w.spec_data_length()),
            ),
            Err(e) => parse_wav(b@) == Err::<(WavHeader, nat, nat), WavError>(e),
        },
{
    if b.len() < 12 {
        return Err(WavError::UnexpectedEof);
    }
    let riff: [u8; 4] = [0x52, 0x49, 0x46, 0x46];
    let wave: [u8; 4] = [0x57, 0x41, 0x56, 0x45];
    assert(riff@ =~= riff_name());
    assert(wave@ =~= wave_name());
    if !name_at(b, 0, &riff) || !name_at(b, 8, &wave) {
        return Err(WavError::MalformedContainer);
    }
    // the `fmt ` chunk starts right after the 12-byte preamble
    let (header, subchunk_size) = WavHeader::from_reader(b, 12)?;
    // the chunk's name and size take 8 bytes before its body
    OpenWavReader::new(b, header, 20 + subchunk_size)
}

/// The first bytes of a wav whose header is `header` and whose data is not yet
/// written: the preamble with its sizes still zero, the `fmt ` chunk and the
/// `data` chunk's own header.
pub open spec fn wav_prefix(header: WavHeader, byte_rate: u32) -> Seq<u8> {
    riff_name() + u32_bytes(0) + wave_name() + fmt_chunk_bytes(header, byte_rate) + data_name_bytes()
        + u32_bytes(0)
}

/// The `fmt ` chunk that `write_wav` emits parses back to the header's format,
/// channels and sample rate, wherever it stands.
proof fn lemma_fmt_round_trip(s: Seq<u8>, p: int, header: WavHeader, byte_rate: u32)
    requires
        header.channels.spec_count() > 0,
        0 <= p,
        p + 48 <= s.len(),
        s.subrange(p, p + 48) == fmt_chunk_bytes(header, byte_rate),
    ensures
        parse_fmt(s, p) == Ok::<(WavHeader, nat), WavError>(
            (header_of(header.sample_format, header.channels, header.sample_rate), 40),
        ),
{
    let c = header.channels;
    let count = c.spec_count() as u16;
    let bytes = format_bytes(header.sample_format) as u16;
    let bits = (bytes * 8) as u16;
    let f = s.subrange(p, p + 48);
    let head = fmt_name() + u32_bytes(40) + u16_bytes(0xFFFE) + u16_bytes(count) + u32_bytes(
        header.sample_rate,
    );
    assert(f.subrange(0, 16) =~= head);
    assert(head.subrange(0, 4) =~= fmt_name());
    assert(head.subrange(4, 8) =~= u32_bytes(40));
    assert(head.subrange(8, 10) =~= u16_bytes(0xFFFE));
    assert(head.subrange(10, 12) =~= u16_bytes(count));
    assert(head.subrange(12, 16) =~= u32_bytes(header.sample_rate));
    assert(f.subrange(22, 24) =~= u16_bytes(bits));
    assert(f.subrange(28, 32) =~= u32_bytes(c.spec_mask()));
    assert(f.subrange(0, 4) =~= head.subrange(0, 4));
    assert(f.subrange(4, 8) =~= head.subrange(4, 8));
    assert(f.subrange(8, 10) =~= head.subrange(8, 10));
    assert(f.subrange(10, 12) =~= head.subrange(10, 12));
    assert(f.subrange(12, 16) =~= head.subrange(12, 16));
    assert(s.subrange(p, p + 4) =~= f.subrange(0, 4));
    assert(s.subrange(p + 4, p + 8) =~= f.subrange(4, 8));
    assert(s.subrange(p + 8, p + 10) =~= f.subrange(8, 10));
    assert(s.subrange(p + 10, p + 12) =~= f.subrange(10, 12));
    assert(s.subrange(p + 12, p + 16) =~= f.subrange(12, 16));
    assert(s.subrange(p + 22, p + 24) =~= f.subrange(22, 24));
    assert(s.subrange(p + 28, p + 32) =~= f.subrange(28, 32));
    lemma_u32_bytes_le(s, p + 4, 40);
    lemma_u16_bytes_le(s, p + 8, 0xFFFE);
    lemma_u16_bytes_le(s, p + 10, count);
    lemma_u32_bytes_le(s, p + 12, header.sample_rate);
    lemma_u16_bytes_le(s, p + 22, bits);
    lemma_u32_bytes_le(s, p + 28, c.spec_mask());
    crate::wave_header::lemma_mask_round_trip(c);
    crate::wave_header::lemma_count_true_le_len(c.flags());
    assert(spec_format_from_bits(bits as int) == Some(header.sample_format));
    assert(has_name(s, p, fmt_name()));
}

/// A written file reads back with the header it was written with: whatever
/// sizes stand in its size fields and whatever follows, the bytes that
/// `write_wav` begins a file with parse to the same format, channels and sample
/// rate (with the maximum number of samples derived from them), with the sample
/// data starting right after them, as long as the `data` size field declares.
pub proof fn lemma_header_round_trip(
    header: WavHeader,
    byte_rate: u32,
    riff_size: u32,
    data_size: u32,
    rest: Seq<u8>,
)
    requires
        header.channels.spec_count() > 0,
    ensures
        parse_wav(
            riff_name() + u32_bytes(riff_size) + wave_name() + fmt_chunk_bytes(header, byte_rate)
                + data_name_bytes() + u32_bytes(data_size) + rest,
        ) == Ok::<(WavHeader, nat, nat), WavError>(
            (
                header_of(header.sample_format, header.channels, header.sample_rate),
                68,
                data_size as nat,
            ),
        ),
{
    let fmt = fmt_chunk_bytes(header, byte_rate);
    let b = riff_name() + u32_bytes(riff_size) + wave_name() + fmt + data_name_bytes() + u32_bytes(
        data_size,
    ) + rest;
    assert(fmt.len() == 48);
    assert(b.subrange(0, 4) =~= riff_name());
    assert(b.subrange(8, 12) =~= wave_name());
    assert(b.subrange(12, 60) =~= fmt);
    lemma_fmt_round_trip(b, 12, header, byte_rate);
    assert(b.subrange(60, 64) =~= data_name_bytes());
    assert(b.subrange(64, 68) =~= u32_bytes(data_size));
    lemma_u32_bytes_le(b, 64, data_size);
    assert(find_data(b, 60) == Ok::<(nat, nat), WavError>((68, data_size as nat)));
}

/// Starts writing a wav whose header is `header`: returns the bytes that begin
/// the file, and the writer of the frames that follow them. Fails when no
/// channel is present or the byte rate does not fit 32 bits.
pub fn write_wav(header: WavHeader) -> (r: Result<(Vec<u8>, OpenWavWriter), WavError>)
    ensures
        ({
            let rate = header.sample_rate * (header.channels.spec_count() * format_bytes(
                header.sample_format,
            ));
            match r {
                Ok((b, w)) => {
                    &&& header.channels.spec_count() > 0
                    &&& rate <= u32::MAX
                    &&& b@ == wav_prefix(header, rate as u32)
                    &&& w.spec_header() == header
                    &&& w.spec_data_start() == b@.len()
                    &&& w.spec_len_samples() == 0
                    &&& w.spec_max_samples() == header.max_samples
                },
                Err(e) => e == WavError::UnsupportedFormat && (header.channels.spec_count() == 0
                    || rate > u32::MAX),
            }
        }),
{
    if header.channels.count() == 0 {
        return Err(WavError::UnsupportedFormat);
    }
    let fmt = WavHeader::to_writer(&header)?;
    let mut out: Vec<u8> = Vec::new();
    // RIFF, a size that flushing fills in, WAVE
    out.push(0x52);
    out.push(0x49);
    out.push(0x46);
    out.push(0x46);
    crate::bytes::write_u32(&mut out, 0);
    out.push(0x57);
    out.push(0x41);
    out.push(0x56);
    out.push(0x45);
    let mut i: usize = 0;
    let ghost before = out@;
    while i < fmt.len()
        invariant
            i <= fmt@.len(),
            out@ == before + fmt@.subrange(0, i as int),
            fmt@.len() == 48,
        decreases fmt@.len() - i,
    {
        out.push(fmt[i]);
        assert(out@ =~= before + fmt@.subrange(0, i + 1));
        i = i + 1;
    }
    assert(fmt@.subrange(0, 48) =~= fmt@);
    let position = out.len();
    let (data_header, writer) = OpenWavWriter::new(header, position);
    let mut j: usize = 0;
    let ghost before2 = out@;
    while j < data_header.len()
        invariant
            j <= data_header@.len(),
            out@ == before2 + data_header@.subrange(0, j as int),
            data_header@.len() == 8,
            before2.len() == 60,
        decreases data_header@.len() - j,
    {
        out.push(data_header[j]);
        assert(out@ =~= before2 + data_header@.subrange(0, j + 1));
        j = j + 1;
    }
    assert(data_header@.subrange(0, 8) =~= data_header@);
    assert(out@ =~= wav_prefix(header, (header.sample_rate * (header.channels.spec_count()
        * format_bytes(header.sample_format))) as u32));
    Ok((out, writer))
}

} // verus!
