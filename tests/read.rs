use wave_stream::error::WavError;
use wave_stream::open_wav::OpenWav;
use wave_stream::read_wav;
use wave_stream::samples_by_channel::SamplesByChannel;
use wave_stream::wave_header::SampleFormat;
use wave_stream::wave_reader::{OpenWavReader, RandomAccessWavReader, StreamWavReader};

const LEN: usize = 1267;

/// A classic (16-byte `fmt `) wav holding `data`, preceded by an unknown chunk.
fn classic_wav(tag: u16, channels: u16, rate: u32, bits: u16, data: &[u8]) -> Vec<u8> {
    let mut b = Vec::new();
    b.extend_from_slice(b"RIFF");
    b.extend_from_slice(&((4 + 24 + 12 + 8 + data.len()) as u32).to_le_bytes());
    b.extend_from_slice(b"WAVE");
    b.extend_from_slice(b"fmt ");
    b.extend_from_slice(&16u32.to_le_bytes());
    b.extend_from_slice(&tag.to_le_bytes());
    b.extend_from_slice(&channels.to_le_bytes());
    b.extend_from_slice(&rate.to_le_bytes());
    let block = channels as u32 * (bits as u32 / 8);
    b.extend_from_slice(&(rate * block).to_le_bytes());
    b.extend_from_slice(&(block as u16).to_le_bytes());
    b.extend_from_slice(&bits.to_le_bytes());
    b.extend_from_slice(b"LIST");
    b.extend_from_slice(&4u32.to_le_bytes());
    b.extend_from_slice(b"INFO");
    b.extend_from_slice(b"data");
    b.extend_from_slice(&(data.len() as u32).to_le_bytes());
    b.extend_from_slice(data);
    b
}

/// A mono file of `LEN` samples of `width` bytes: `first`, `second` and `last`
/// at indices 0, 1 and `LEN - 1`, a filler elsewhere.
fn mono_wav(tag: u16, bits: u16, first: &[u8], second: &[u8], last: &[u8]) -> Vec<u8> {
    let width = first.len();
    let mut data = Vec::new();
    for i in 0..LEN {
        if i == 0 {
            data.extend_from_slice(first);
        } else if i == 1 {
            data.extend_from_slice(second);
        } else if i == LEN - 1 {
            data.extend_from_slice(last);
        } else {
            data.extend(std::iter::repeat(0x11u8).take(width));
        }
    }
    classic_wav(tag, 1, 48000, bits, &data)
}

fn short_8() -> Vec<u8> {
    mono_wav(1, 8, &[0x7D], &[0x7F], &[0x7A])
}

fn short_16() -> Vec<u8> {
    mono_wav(1, 16, &[0x61, 0xFD], &[0xF9, 0xFD], &[0x9C, 0xFE])
}

fn short_24() -> Vec<u8> {
    mono_wav(1, 24, &[0x2E, 0x61, 0xFD], &[0xE7, 0xF8, 0xFD], &[0x94, 0x9C, 0xFE])
}

fn short_float() -> Vec<u8> {
    mono_wav(3, 32, &[0x6D, 0xB4, 0xA7, 0xBC], &[0x02, 0xC6, 0x81, 0xBC], &[0xA0, 0xB5, 0x31, 0xBC])
}

/// Reads frame `sample` as a caller does: seek to its offset, read its bytes.
fn read_at<T: wave_stream::sample::Sample>(
    file: &[u8],
    reader: &RandomAccessWavReader<T>,
    sample: usize,
) -> Result<SamplesByChannel<T>, WavError> {
    let pos = reader.sample_position(sample)? as usize;
    let end = pos + reader.info().frame_len();
    reader.read_sample(sample, &file[pos..end])
}

fn read_random<T: wave_stream::sample::Sample + std::fmt::Debug + PartialEq>(
    file: Vec<u8>,
    get: fn(OpenWavReader) -> Result<RandomAccessWavReader<T>, WavError>,
    expected_0: T,
    expected_1: T,
    expected_end: T,
) {
    let open_wav = read_wav(&file).unwrap();
    let reader = get(open_wav).unwrap();
    let s = read_at(&file, &reader, 0).unwrap();
    assert_eq!(expected_0, s.front_left.expect("Front left missing"));
    let s = read_at(&file, &reader, 1).unwrap();
    assert_eq!(expected_1, s.front_left.expect("Front left missing"));
    let s = read_at(&file, &reader, reader.info().len_samples() - 1).unwrap();
    assert_eq!(expected_end, s.front_left.expect("Front left missing"));
}

fn read_stream<T: wave_stream::sample::Sample + std::fmt::Debug + PartialEq>(
    file: Vec<u8>,
    get: fn(OpenWavReader) -> Result<StreamWavReader<T>, WavError>,
    expected_0: T,
    expected_1: T,
    expected_end: T,
) {
    let open_wav = read_wav(&file).unwrap();
    let mut pos = open_wav.sample_position(0).unwrap() as usize;
    let mut iterator = get(open_wav).unwrap().into_iter();
    let frame_len = iterator.frame_len();
    let mut current_sample: usize = 0;
    loop {
        let end = (pos + frame_len).min(file.len());
        let samples = match iterator.next(&file[pos..end]) {
            None => break,
            Some(r) => r.unwrap(),
        };
        pos = end;
        assert!(samples.front_left.is_some(), "Front left sample not read");
        assert_eq!(None, samples.front_right, "Sample should not be read");
        assert_eq!(None, samples.front_center, "Sample should not be read");
        assert_eq!(None, samples.low_frequency, "Sample should not be read");
        assert_eq!(None, samples.back_left, "Sample should not be read");
        assert_eq!(None, samples.back_right, "Sample should not be read");
        assert_eq!(None, samples.front_left_of_center, "Sample should not be read");
        assert_eq!(None, samples.front_right_of_center, "Sample should not be read");
        assert_eq!(None, samples.back_center, "Sample should not be read");
        assert_eq!(None, samples.side_left, "Sample should not be read");
        assert_eq!(None, samples.side_right, "Sample should not be read");
        assert_eq!(None, samples.top_center, "Sample should not be read");
        assert_eq!(None, samples.top_front_left, "Sample should not be read");
        assert_eq!(None, samples.top_front_center, "Sample should not be read");
        assert_eq!(None, samples.top_front_right, "Sample should not be read");
        assert_eq!(None, samples.top_back_left, "Sample should not be read");
        assert_eq!(None, samples.top_back_center, "Sample should not be read");
        assert_eq!(None, samples.top_back_right, "Sample should not be read");
        if current_sample == 0 {
            assert_eq!(expected_0, samples.front_left.unwrap());
        } else if current_sample == 1 {
            assert_eq!(expected_1, samples.front_left.unwrap());
        } else if current_sample == 1266 {
            assert_eq!(expected_end, samples.front_left.unwrap());
        }
        current_sample += 1;
    }
    assert_eq!(1267, current_sample, "Wrong number of samples read");
}

#[test]
fn open_sanity() {
    let open_wav = read_wav(&short_float()).unwrap();
    assert_eq!(SampleFormat::Float, open_wav.sample_format());
    assert_eq!(1, open_wav.num_channels());
    assert_eq!(32, open_wav.bits_per_sample());
    assert_eq!(48000, open_wav.sample_rate());
    assert_eq!(1267, open_wav.len_samples());

    let open_wav = read_wav(&short_24()).unwrap();
    assert_eq!(SampleFormat::Int24, open_wav.sample_format());
    assert_eq!(1, open_wav.num_channels());
    assert_eq!(24, open_wav.bits_per_sample());
    assert_eq!(48000, open_wav.sample_rate());
    assert_eq!(1267, open_wav.len_samples());

    let open_wav = read_wav(&short_16()).unwrap();
    assert_eq!(SampleFormat::Int16, open_wav.sample_format());
    assert_eq!(1, open_wav.num_channels());
    assert_eq!(16, open_wav.bits_per_sample());
    assert_eq!(48000, open_wav.sample_rate());
    assert_eq!(1267, open_wav.len_samples());
}

#[test]
fn read_random_i8() {
    read_random(short_8(), |w| w.get_random_access_i8_reader(), i8::from_le_bytes([0x7D]), i8::from_le_bytes([0x7F]), i8::from_le_bytes([0x7A]));
}

#[test]
fn read_random_i8_as_i16() {
    read_random(short_8(), |w| w.get_random_access_i16_reader(), 32255, 32767, 31487);
}

#[test]
fn read_random_i8_as_i24() {
    read_random(short_8(), |w| w.get_random_access_i24_reader(), 8257535, 8388607, 8060927);
}

#[test]
fn read_random_i16() {
    read_random(
        short_16(),
        |w| w.get_random_access_i16_reader(),
        i16::from_le_bytes([0x61, 0xFD]),
        i16::from_le_bytes([0xF9, 0xFD]),
        i16::from_le_bytes([0x9C, 0xFE]),
    );
}

#[test]
fn read_random_i16_as_i24() {
    read_random(short_16(), |w| w.get_random_access_i24_reader(), -171776, -132864, -91136);
}

#[test]
fn read_random_i24() {
    read_random(
        short_24(),
        |w| w.get_random_access_i24_reader(),
        i32::from_le_bytes([0x00, 0x2E, 0x61, 0xFD]) >> 8,
        i32::from_le_bytes([0x00, 0xE7, 0xF8, 0xFD]) >> 8,
        i32::from_le_bytes([0x00, 0x94, 0x9C, 0xFE]) >> 8,
    );
}

#[test]
fn read_random_f32() {
    // float samples are read verbatim: their stored bit patterns
    let file = short_float();
    let open_wav = read_wav(&file).unwrap();
    let expected = [
        (0, f32::from_le_bytes([0x6D, 0xB4, 0xA7, 0xBC])),
        (1, f32::from_le_bytes([0x02, 0xC6, 0x81, 0xBC])),
        (LEN - 1, f32::from_le_bytes([0xA0, 0xB5, 0x31, 0xBC])),
    ];
    for (sample, value) in expected {
        let pos = open_wav.sample_position(sample).unwrap() as usize;
        let s = open_wav.read_stored_sample(&file[pos..pos + 4]).unwrap();
        assert_eq!(value, f32::from_bits(s.front_left.unwrap() as u32));
    }
}

#[test]
fn read_stream_i8() {
    read_stream(short_8(), |w| w.get_stream_i8_reader(), i8::from_le_bytes([0x7D]), i8::from_le_bytes([0x7F]), i8::from_le_bytes([0x7A]));
}

#[test]
fn read_stream_i8_as_i16() {
    read_stream(short_8(), |w| w.get_stream_i16_reader(), 32255, 32767, 31487);
}

#[test]
fn read_stream_i8_as_i24() {
    read_stream(short_8(), |w| w.get_stream_i24_reader(), 8257535, 8388607, 8060927);
}

#[test]
fn read_stream_i16() {
    read_stream(
        short_16(),
        |w| w.get_stream_i16_reader(),
        i16::from_le_bytes([0x61, 0xFD]),
        i16::from_le_bytes([0xF9, 0xFD]),
        i16::from_le_bytes([0x9C, 0xFE]),
    );
}

#[test]
fn read_stream_i16_as_i24() {
    read_stream(short_16(), |w| w.get_stream_i24_reader(), -171776, -132864, -91136);
}

#[test]
fn read_stream_i24() {
    read_stream(
        short_24(),
        |w| w.get_stream_i24_reader(),
        i32::from_le_bytes([0x00, 0x2E, 0x61, 0xFD]) >> 8,
        i32::from_le_bytes([0x00, 0xE7, 0xF8, 0xFD]) >> 8,
        i32::from_le_bytes([0x00, 0x94, 0x9C, 0xFE]) >> 8,
    );
}

#[test]
fn narrowing_reads_are_refused() {
    for file in [short_16(), short_24(), short_float()] {
        let open_wav = read_wav(&file).unwrap();
        assert_eq!(Some(WavError::UnsupportedConversion), open_wav.get_random_access_i8_reader().err());
    }
    let open_wav = read_wav(&short_24()).unwrap();
    assert_eq!(Some(WavError::UnsupportedConversion), open_wav.get_stream_i16_reader().err());
    let open_wav = read_wav(&short_float()).unwrap();
    assert_eq!(Some(WavError::UnsupportedConversion), open_wav.get_random_access_i24_reader().err());
    assert!(read_wav(&short_8()).unwrap().get_random_access_i16_reader().is_ok());
}

#[test]
fn read_out_of_range_and_short_frame() {
    let file = short_8();
    let reader = read_wav(&file).unwrap().get_random_access_i8_reader().unwrap();
    assert_eq!(Err(WavError::OutOfRange), reader.sample_position(LEN));
    assert_eq!(Err(WavError::OutOfRange), reader.read_sample(LEN, &[0]));
    assert_eq!(Err(WavError::UnexpectedEof), reader.read_sample(0, &[]));
}

#[test]
fn stream_poisoned_after_failure() {
    let file = short_16();
    let mut it = read_wav(&file).unwrap().get_stream_i16_reader().unwrap().into_iter();
    assert!(it.has_next());
    assert_eq!(Some(Err(WavError::UnexpectedEof)), it.next(&[0x01]));
    assert!(!it.has_next());
    assert_eq!(None, it.next(&[0x01, 0x02]));
}

#[test]
fn stream_matches_random_access() {
    let file = short_16();
    let open_wav = read_wav(&file).unwrap();
    let start = open_wav.sample_position(0).unwrap() as usize;
    let random = read_wav(&file).unwrap().get_random_access_i16_reader().unwrap();
    let mut it = open_wav.get_stream_i16_reader().unwrap().into_iter();
    let mut k = 0usize;
    while it.has_next() {
        let frame = &file[start + 2 * k..start + 2 * k + 2];
        let streamed = it.next(frame).unwrap().unwrap();
        assert_eq!(read_at(&file, &random, k).unwrap(), streamed);
        k += 1;
    }
    assert_eq!(LEN, k);
}

#[test]
fn malformed_containers() {
    let mut file = short_8();
    assert_eq!(Some(WavError::UnexpectedEof), read_wav(&file[..10]).err());
    assert_eq!(Some(WavError::UnexpectedEof), read_wav(&file[..50]).err());
    file[0] = b'X';
    assert_eq!(Some(WavError::MalformedContainer), read_wav(&file).err());
    let mut file = short_8();
    file[8] = b'X';
    assert_eq!(Some(WavError::MalformedContainer), read_wav(&file).err());
    let mut file = short_8();
    file[12] = b'X';
    assert_eq!(Some(WavError::MalformedContainer), read_wav(&file).err());
}

#[test]
fn unsupported_formats() {
    // format tag 2 (ADPCM)
    let file = classic_wav(2, 1, 8000, 8, &[0, 0]);
    assert_eq!(Some(WavError::UnsupportedFormat), read_wav(&file).err());
    // 28 bits per sample
    let file = classic_wav(1, 1, 8000, 28, &[0, 0, 0, 0]);
    assert_eq!(Some(WavError::UnsupportedFormat), read_wav(&file).err());
    // fmt chunk smaller than 16 bytes
    let mut file = classic_wav(1, 1, 8000, 8, &[0, 0]);
    file[16] = 12;
    assert_eq!(Some(WavError::UnsupportedFormat), read_wav(&file).err());
    // 12-bit samples are stored as 16-bit ones
    let file = classic_wav(1, 2, 8000, 12, &[0, 0, 0, 0]);
    let open_wav = read_wav(&file).unwrap();
    assert_eq!(SampleFormat::Int16, open_wav.sample_format());
    assert_eq!(2, open_wav.num_channels());
    assert_eq!(1, open_wav.len_samples());
}

#[test]
fn extensible_channel_count_must_match_mask() {
    let mut b = Vec::new();
    b.extend_from_slice(b"RIFF\0\0\0\0WAVEfmt ");
    b.extend_from_slice(&40u32.to_le_bytes());
    b.extend_from_slice(&0xFFFEu16.to_le_bytes());
    b.extend_from_slice(&3u16.to_le_bytes());
    b.extend_from_slice(&8000u32.to_le_bytes());
    b.extend_from_slice(&16000u32.to_le_bytes());
    b.extend_from_slice(&2u16.to_le_bytes());
    b.extend_from_slice(&8u16.to_le_bytes());
    b.extend_from_slice(&22u16.to_le_bytes());
    b.extend_from_slice(&8u16.to_le_bytes());
    // front left and front right: two channels, while the count says three
    b.extend_from_slice(&3u32.to_le_bytes());
    b.extend_from_slice(&[1, 0, 0, 0, 0, 0, 0x10, 0, 0x80, 0, 0, 0xAA, 0, 0x38, 0x9B, 0x71]);
    b.extend_from_slice(b"data\0\0\0\0");
    assert_eq!(Some(WavError::UnsupportedFormat), read_wav(&b).err());
    b[22] = 2;
    let open_wav = read_wav(&b).unwrap();
    assert_eq!(2, open_wav.num_channels());
    assert_eq!(0, open_wav.len_samples());
}
