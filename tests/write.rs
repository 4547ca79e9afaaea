use wave_stream::error::WavError;
use wave_stream::open_wav::OpenWav;
use wave_stream::sample::Sample;
use wave_stream::samples_by_channel::SamplesByChannel;
use wave_stream::wave_header::{Channels, SampleFormat, WavHeader};
use wave_stream::wave_reader::{OpenWavReader, RandomAccessWavReader};
use wave_stream::wave_writer::{FlushOp, FrameData, OpenWavWriter, RandomAccessWavWriter, WriteOp};
use wave_stream::{read_wav, write_wav};

/// Carries out a write plan on an in-memory file.
fn apply(file: &mut Vec<u8>, op: &WriteOp) {
    file.extend(std::iter::repeat(0u8).take(op.padding as usize));
    let bytes = match &op.data {
        FrameData::Encoded(b) => b.clone(),
        FrameData::ToFloat(_) => panic!("integer file expected"),
    };
    let pos = op.position as usize;
    file[pos..pos + bytes.len()].copy_from_slice(&bytes);
}

fn apply_flush(file: &mut Vec<u8>, op: &FlushOp) {
    let p = op.data_size_position as usize;
    file[p..p + 4].copy_from_slice(&op.data_size.to_le_bytes());
    file[4..8].copy_from_slice(&op.riff_size.to_le_bytes());
}

fn all_channels() -> Channels {
    Channels::from_count(18)
}

fn read_at<T: Sample>(file: &[u8], reader: &RandomAccessWavReader<T>, sample: usize) -> SamplesByChannel<T> {
    let pos = reader.sample_position(sample).unwrap() as usize;
    let end = pos + reader.info().frame_len();
    reader.read_sample(sample, &file[pos..end]).unwrap()
}

fn frame<T: Copy>(v: impl Fn(i32) -> T, base: i32) -> SamplesByChannel<T> {
    SamplesByChannel {
        front_left: Some(v(base)),
        front_right: Some(v(base + 1)),
        front_center: Some(v(base + 2)),
        low_frequency: Some(v(base + 3)),
        back_left: Some(v(base + 4)),
        back_right: Some(v(base + 5)),
        front_left_of_center: Some(v(base + 6)),
        front_right_of_center: Some(v(base + 7)),
        back_center: Some(v(base + 8)),
        side_left: Some(v(base + 9)),
        side_right: Some(v(base + 10)),
        top_center: Some(v(base + 11)),
        top_front_left: Some(v(base + 12)),
        top_front_center: Some(v(base + 13)),
        top_front_right: Some(v(base + 14)),
        top_back_left: Some(v(base + 15)),
        top_back_center: Some(v(base + 16)),
        top_back_right: Some(v(base + 17)),
    }
}

fn write_random<T: Sample + std::fmt::Debug + PartialEq, TFile: Sample>(
    sample_format: SampleFormat,
    get_random_access_reader: fn(OpenWavReader) -> Result<RandomAccessWavReader<TFile>, WavError>,
    convert_sample_to_read: fn(TFile) -> T,
    get_random_access_writer: fn(OpenWavWriter) -> Result<RandomAccessWavWriter<T>, WavError>,
    convert_sample_to_write: fn(i32) -> T,
) {
    let header = WavHeader { sample_format, channels: all_channels(), sample_rate: 96000, max_samples: 9600 };
    let (mut file, open_wav) = write_wav(header).unwrap();
    let mut writer = get_random_access_writer(open_wav).unwrap();
    for sample_inv in 0..100usize {
        let sample = 99 - sample_inv;
        let sample_value = (sample as i32) * 18;
        let op = writer.write_samples(sample, frame(convert_sample_to_write, sample_value)).unwrap();
        apply(&mut file, &op);
    }
    let op = writer.flush();
    apply_flush(&mut file, &op);

    let open_wav = read_wav(&file).unwrap();
    assert_eq!(100, open_wav.len_samples(), "Wrong length of samples");
    let reader = get_random_access_reader(open_wav).unwrap();
    for sample in 0..100usize {
        let expected = frame(convert_sample_to_write, (sample as i32) * 18);
        let actual = read_at(&file, &reader, sample);
        let actual = frame(
            |i| convert_sample_to_read(actual.to_vec()[(i - (sample as i32) * 18) as usize]),
            (sample as i32) * 18,
        );
        assert_eq!(expected, actual, "Wrong sample read at {sample}");
    }
}

#[test]
fn write_sanity() {
    let header = WavHeader {
        sample_format: SampleFormat::Float,
        channels: Channels::new().front_left().front_right().front_center().low_frequency().back_left().back_right(),
        sample_rate: 96000,
        max_samples: 9600,
    };
    let (mut file, mut open_wav) = write_wav(header).unwrap();
    assert_eq!(SampleFormat::Float, open_wav.sample_format(), "Wrong sample format");
    assert_eq!(6, open_wav.num_channels(), "Wrong channels");
    assert_eq!(96000, open_wav.sample_rate(), "Wrong sampling rate");
    assert_eq!(4, open_wav.bytes_per_sample(), "Wrong bytes per sample");
    assert_eq!(32, open_wav.bits_per_sample(), "Wrong bits per sample");
    let op = open_wav.flush();
    apply_flush(&mut file, &op);

    let open_wav = read_wav(&file).unwrap();
    assert_eq!(SampleFormat::Float, open_wav.sample_format(), "Wrong sample format when reading");
    assert_eq!(6, open_wav.num_channels(), "Wrong channels when reading");
    assert_eq!(96000, open_wav.sample_rate(), "Wrong sampling rate when reading");
    assert_eq!(4, open_wav.bytes_per_sample(), "Wrong bytes per sample when reading");
    assert_eq!(32, open_wav.bits_per_sample(), "Wrong bits per sample when reading");
    assert_eq!(0, open_wav.len_samples(), "Wrong length when reading");
    // the RIFF size is the file size less 8
    assert_eq!((file.len() - 8) as u32, u32::from_le_bytes([file[4], file[5], file[6], file[7]]));
}

#[test]
fn write_random_i8() {
    write_random(SampleFormat::Int8, |w| w.get_random_access_i8_reader(), |v| v, |w| w.get_random_access_i8_writer(), |v| v as i8);
}

#[test]
fn write_random_i8_as_i16() {
    write_random(
        SampleFormat::Int16,
        |w| w.get_random_access_i16_reader(),
        |sample_value| {
            let sample_value = sample_value as i32;
            if sample_value > 0 {
                (((sample_value + 1) / 256) - 1) as i8
            } else {
                (sample_value / 256) as i8
            }
        },
        |w| w.get_random_access_i8_writer(),
        |v| v as i8,
    );
}

#[test]
fn write_random_i8_as_i24() {
    write_random(
        SampleFormat::Int24,
        |w| w.get_random_access_i24_reader(),
        |sample_value| {
            if sample_value > 0 {
                (((sample_value + 1) / 65536) - 1) as i8
            } else {
                (sample_value / 65536) as i8
            }
        },
        |w| w.get_random_access_i8_writer(),
        |v| v as i8,
    );
}

#[test]
fn write_random_i16() {
    write_random(SampleFormat::Int16, |w| w.get_random_access_i16_reader(), |v| v, |w| w.get_random_access_i16_writer(), |v| v as i16);
}

#[test]
fn write_random_i16_as_i24() {
    write_random(
        SampleFormat::Int24,
        |w| w.get_random_access_i24_reader(),
        |sample_value| {
            if sample_value > 0 {
                (((sample_value + 1) / 256) - 1) as i16
            } else {
                (sample_value / 256) as i16
            }
        },
        |w| w.get_random_access_i16_writer(),
        |v| v as i16,
    );
}

#[test]
fn write_random_i24() {
    write_random(SampleFormat::Int24, |w| w.get_random_access_i24_reader(), |v| v, |w| w.get_random_access_i24_writer(), |v| v as i32);
}

#[test]
fn write_random_max_samples() {
    let header = WavHeader {
        sample_format: SampleFormat::Int8,
        channels: Channels::new().front_center(),
        sample_rate: 96000,
        max_samples: 1,
    };
    let (_, open_wav) = write_wav(header).unwrap();
    let mut writer = open_wav.get_random_access_i8_writer().unwrap();
    let samples_by_channel = SamplesByChannel::<i8>::new().front_center(1);
    writer.write_samples(0, samples_by_channel.clone()).unwrap();
    let err = writer.write_samples(1, samples_by_channel.clone()).expect_err("Writing at the max length should fail");
    assert_eq!(WavError::CapacityExceeded, err);
    let err = writer.write_samples(2, samples_by_channel).expect_err("Writing beyond the max length should fail");
    assert_eq!(WavError::CapacityExceeded, err);
}

#[test]
fn sparse_write_pads_with_zero_frames() {
    let header = WavHeader {
        sample_format: SampleFormat::Int16,
        channels: Channels::new().front_left().front_right(),
        sample_rate: 8000,
        max_samples: 100,
    };
    let (mut file, open_wav) = write_wav(header).unwrap();
    let mut writer = open_wav.get_random_access_i16_writer().unwrap();
    let op = writer.write_samples(5, SamplesByChannel::new().front_left(-2).front_right(300)).unwrap();
    assert_eq!(24, op.padding);
    assert_eq!(68 + 20, op.position);
    apply(&mut file, &op);
    apply_flush(&mut file, &writer.flush());
    let reader = read_wav(&file).unwrap().get_random_access_i16_reader().unwrap();
    assert_eq!(6, reader.info().len_samples());
    for k in 0..5 {
        assert_eq!(SamplesByChannel::new().front_left(0).front_right(0), read_at(&file, &reader, k));
    }
    assert_eq!(SamplesByChannel::new().front_left(-2).front_right(300), read_at(&file, &reader, 5));
}

#[test]
fn write_frame_errors_change_nothing() {
    let header = WavHeader {
        sample_format: SampleFormat::Int24,
        channels: Channels::new().front_left().front_right(),
        sample_rate: 8000,
        max_samples: 100,
    };
    let (_, open_wav) = write_wav(header).unwrap();
    let mut writer = open_wav.get_random_access_i24_writer().unwrap();
    let missing = SamplesByChannel::new().front_left(1).front_center(2);
    assert_eq!(Some(WavError::MissingChannel), writer.write_samples(3, missing).err());
    let too_big = SamplesByChannel::new().front_left(1).front_right(8388608);
    assert_eq!(Some(WavError::InvalidSampleValue), writer.write_samples(3, too_big).err());
    assert_eq!(0, writer.info().len_samples());
    // values for channels the file lacks are ignored
    let extra = SamplesByChannel::new().front_left(-8388608).front_right(8388607).side_left(5);
    let op = writer.write_samples(0, extra).unwrap();
    assert_eq!(FrameData::Encoded(vec![0x00, 0x00, 0x80, 0xFF, 0xFF, 0x7F]), op.data);
    assert_eq!(1, writer.info().len_samples());
}

#[test]
fn narrowing_writers_are_refused() {
    let header = |f| WavHeader { sample_format: f, channels: Channels::new().front_left(), sample_rate: 8000, max_samples: 10 };
    let (_, w) = write_wav(header(SampleFormat::Int8)).unwrap();
    assert_eq!(Some(WavError::UnsupportedConversion), w.get_random_access_i16_writer().err());
    let (_, w) = write_wav(header(SampleFormat::Int16)).unwrap();
    assert_eq!(Some(WavError::UnsupportedConversion), w.get_random_access_i24_writer().err());
    let (_, w) = write_wav(header(SampleFormat::Float)).unwrap();
    assert!(w.get_random_access_i8_writer().is_ok());
}

#[test]
fn float_files_take_integer_samples_for_conversion() {
    let header = WavHeader { sample_format: SampleFormat::Float, channels: Channels::new().front_left().back_left(), sample_rate: 8000, max_samples: 10 };
    let (_, w) = write_wav(header).unwrap();
    let mut writer = w.get_random_access_i16_writer().unwrap();
    let op = writer.write_samples(0, SamplesByChannel::new().front_left(-7).back_left(9)).unwrap();
    assert_eq!(FrameData::ToFloat(vec![-7, 9]), op.data);
}

#[test]
fn zero_channel_header_is_refused() {
    let header = WavHeader { sample_format: SampleFormat::Int8, channels: Channels::new(), sample_rate: 8000, max_samples: 10 };
    assert_eq!(Some(WavError::UnsupportedFormat), write_wav(header).err());
}

fn short_file(bits: u16, samples: &[Vec<u8>]) -> Vec<u8> {
    let mut data = Vec::new();
    for s in samples {
        data.extend_from_slice(s);
    }
    let mut b = Vec::new();
    b.extend_from_slice(b"RIFF\0\0\0\0WAVEfmt ");
    b.extend_from_slice(&16u32.to_le_bytes());
    b.extend_from_slice(&1u16.to_le_bytes());
    b.extend_from_slice(&1u16.to_le_bytes());
    b.extend_from_slice(&48000u32.to_le_bytes());
    b.extend_from_slice(&0u32.to_le_bytes());
    b.extend_from_slice(&0u16.to_le_bytes());
    b.extend_from_slice(&bits.to_le_bytes());
    b.extend_from_slice(b"data");
    b.extend_from_slice(&(data.len() as u32).to_le_bytes());
    b.extend_from_slice(&data);
    b
}

fn write_stream<T: Sample + std::fmt::Debug + PartialEq, TFile: Sample + std::fmt::Debug + PartialEq>(
    source: Vec<u8>,
    sample_format: SampleFormat,
    get_stream_reader: fn(OpenWavReader) -> Result<wave_stream::wave_reader::StreamWavReader<T>, WavError>,
    get_random_access_reader: fn(OpenWavReader) -> Result<RandomAccessWavReader<TFile>, WavError>,
) {
    let source_wav = read_wav(&source).unwrap();
    let header = WavHeader {
        sample_format,
        channels: source_wav.channels().clone(),
        sample_rate: source_wav.sample_rate(),
        max_samples: 9600,
    };
    let (mut file, open_wav) = write_wav(header).unwrap();
    let mut writer = open_wav.get_stream_writer::<T>().unwrap();
    let mut pos = source_wav.sample_position(0).unwrap() as usize;
    let mut it = get_stream_reader(source_wav).unwrap().into_iter();
    let fl = it.frame_len();
    while it.has_next() {
        let frame = it.next(&source[pos..pos + fl]).unwrap().unwrap();
        pos += fl;
        assert_eq!(file.len() as u64, writer.next_position());
        match writer.write_next(frame).unwrap() {
            FrameData::Encoded(b) => file.extend_from_slice(&b),
            FrameData::ToFloat(_) => panic!("integer file expected"),
        }
    }
    let op = writer.flush();
    apply_flush(&mut file, &op);

    let expected_wav = read_wav(&source).unwrap();
    let actual_wav = read_wav(&file).unwrap();
    assert_eq!(expected_wav.num_channels(), actual_wav.num_channels());
    assert_eq!(expected_wav.len_samples(), actual_wav.len_samples());
    let len_samples = expected_wav.len_samples();
    let expected_reader = get_random_access_reader(expected_wav).unwrap();
    let actual_reader = get_random_access_reader(actual_wav).unwrap();
    for sample_ctr in 0..len_samples {
        assert_eq!(
            read_at(&source, &expected_reader, sample_ctr),
            read_at(&file, &actual_reader, sample_ctr),
            "Wrong value for sample {sample_ctr}"
        );
    }
}

fn samples(width: usize) -> Vec<Vec<u8>> {
    (0..1267usize).map(|i| (0..width).map(|k| ((i * 7 + k * 13) % 256) as u8).collect()).collect()
}

#[test]
fn write_stream_i8() {
    write_stream::<i8, i8>(short_file(8, &samples(1)), SampleFormat::Int8, |w| w.get_stream_i8_reader(), |w| w.get_random_access_i8_reader());
}

#[test]
fn write_stream_i8_as_i16() {
    write_stream::<i8, i16>(short_file(8, &samples(1)), SampleFormat::Int16, |w| w.get_stream_i8_reader(), |w| w.get_random_access_i16_reader());
}

#[test]
fn write_stream_i8_as_i24() {
    write_stream::<i8, i32>(short_file(8, &samples(1)), SampleFormat::Int24, |w| w.get_stream_i8_reader(), |w| w.get_random_access_i24_reader());
}

#[test]
fn write_stream_i16() {
    write_stream::<i16, i16>(short_file(16, &samples(2)), SampleFormat::Int16, |w| w.get_stream_i16_reader(), |w| w.get_random_access_i16_reader());
}

#[test]
fn write_stream_i16_as_i24() {
    write_stream::<i16, i32>(short_file(16, &samples(2)), SampleFormat::Int24, |w| w.get_stream_i16_reader(), |w| w.get_random_access_i24_reader());
}

#[test]
fn write_stream_i24() {
    write_stream::<i32, i32>(short_file(24, &samples(3)), SampleFormat::Int24, |w| w.get_stream_i24_reader(), |w| w.get_random_access_i24_reader());
}

#[test]
fn stream_writer_stops_at_capacity() {
    let header = WavHeader { sample_format: SampleFormat::Int8, channels: Channels::new().front_left(), sample_rate: 8000, max_samples: 2 };
    let (_, w) = write_wav(header).unwrap();
    let mut writer = w.get_stream_writer::<i8>().unwrap();
    let f = SamplesByChannel::new().front_left(3i8);
    assert_eq!(FrameData::Encoded(vec![3]), writer.write_next(f.clone()).unwrap());
    assert_eq!(FrameData::Encoded(vec![3]), writer.write_next(f.clone()).unwrap());
    assert_eq!(Some(WavError::CapacityExceeded), writer.write_next(f).err());
    let op = writer.flush();
    assert_eq!(64, op.data_size_position);
    assert_eq!(2, op.data_size);
    assert_eq!(62, op.riff_size);
}
