use wave_stream::assertions::assert_int_24;
use wave_stream::error::WavError;
use wave_stream::upconvert::{i16_to_i24, i8_to_i16, i8_to_i24};
use wave_stream::wave_header::{calculate_max_samples, Channels, SampleFormat, SampleFormatSize, WavHeader};

fn all_channels() -> Channels {
    Channels {
        front_left: true,
        front_right: true,
        front_center: true,
        low_frequency: true,
        back_left: true,
        back_right: true,
        front_left_of_center: true,
        front_right_of_center: true,
        back_center: true,
        side_left: true,
        side_right: true,
        top_center: true,
        top_front_left: true,
        top_front_center: true,
        top_front_right: true,
        top_back_left: true,
        top_back_center: true,
        top_back_right: true,
    }
}

#[test]
fn calculate_max_samples_sanity() {
    let channels = all_channels();
    let max_samples = calculate_max_samples(&channels, SampleFormat::Float);
    // (u32::MAX - 32 + 8) / 18 / 4
    assert_eq!(59652323, max_samples);
}

#[test]
fn max_samples_mono_int8() {
    let channels = Channels::new().front_left();
    assert_eq!(4294967271, calculate_max_samples(&channels, SampleFormat::Int8));
    let stereo = Channels::new().front_left().front_right();
    assert_eq!(4294967271 / 2 / 3, calculate_max_samples(&stereo, SampleFormat::Int24));
}

#[test]
fn channel_count_and_mask() {
    assert_eq!(0, Channels::new().count());
    assert_eq!(0, Channels::new().channel_mask());
    assert_eq!(18, all_channels().count());
    assert_eq!(0x3FFFF, all_channels().channel_mask());
    let c = Channels::new().front_left().front_right().low_frequency().top_back_right();
    assert_eq!(4, c.count());
    assert_eq!(0x1 | 0x2 | 0x8 | 0x20000, c.channel_mask());
}

#[test]
fn channel_mask_round_trip() {
    let c = Channels::new().front_center().back_left().side_right().top_front_center();
    let back = Channels::from_mask(c.channel_mask());
    assert_eq!(c, back);
    assert_eq!(c.count(), back.count());
    assert_eq!(all_channels(), Channels::from_mask(all_channels().channel_mask()));
    // bits above the eighteen positions are ignored
    assert_eq!(Channels::new().front_left(), Channels::from_mask(0x1 | 0x40000));
}

#[test]
fn channels_from_count_fill_canonical_order() {
    assert_eq!(Channels::new(), Channels::from_count(0));
    assert_eq!(Channels::new().front_left().front_right(), Channels::from_count(2));
    assert_eq!(all_channels(), Channels::from_count(18));
    assert_eq!(all_channels(), Channels::from_count(40));
}

#[test]
fn sample_format_sizes() {
    assert_eq!(1, SampleFormat::Int8.bytes_per_sample());
    assert_eq!(16, SampleFormat::Int16.bits_per_sample());
    assert_eq!(3, SampleFormat::Int24.bytes_per_sample());
    assert_eq!(32, SampleFormat::Float.bits_per_sample());
}

#[test]
fn widening_formulas() {
    assert_eq!(i16::MAX, i8_to_i16(i8::MAX));
    assert_eq!(i16::MIN, i8_to_i16(i8::MIN));
    assert_eq!(255, i8_to_i16(0));
    assert_eq!(-256, i8_to_i16(-1));
    assert_eq!(i16::MAX / 2, i8_to_i16(i8::MAX / 2));
    assert_eq!(8388607, i8_to_i24(i8::MAX));
    assert_eq!(-8388608, i8_to_i24(i8::MIN));
    assert_eq!(65535, i8_to_i24(0));
    assert_eq!(-65536, i8_to_i24(-1));
    assert_eq!(8388607, i16_to_i24(i16::MAX));
    assert_eq!(-8388608, i16_to_i24(i16::MIN));
    assert_eq!(255, i16_to_i24(0));
    assert_eq!(-256, i16_to_i24(-1));
    assert_eq!(8388607 / 4, i16_to_i24(i16::MAX / 4));
}

#[test]
fn int_24_range() {
    assert_eq!(Ok(()), assert_int_24(8388607));
    assert_eq!(Ok(()), assert_int_24(-8388608));
    assert_eq!(Err(WavError::InvalidSampleValue), assert_int_24(8388608));
    assert_eq!(Err(WavError::InvalidSampleValue), assert_int_24(-8388609));
}

#[test]
fn fmt_chunk_bytes() {
    let header = WavHeader {
        sample_format: SampleFormat::Int16,
        channels: Channels::new().front_left().front_right(),
        sample_rate: 44100,
        max_samples: 10,
    };
    let b = WavHeader::to_writer(&header).unwrap();
    assert_eq!(48, b.len());
    assert_eq!(b"fmt ", &b[0..4]);
    assert_eq!(40, u32::from_le_bytes([b[4], b[5], b[6], b[7]]));
    assert_eq!(0xFFFE, u16::from_le_bytes([b[8], b[9]]));
    assert_eq!(2, u16::from_le_bytes([b[10], b[11]]));
    assert_eq!(44100, u32::from_le_bytes([b[12], b[13], b[14], b[15]]));
    assert_eq!(44100 * 4, u32::from_le_bytes([b[16], b[17], b[18], b[19]]));
    assert_eq!(4, u16::from_le_bytes([b[20], b[21]]));
    assert_eq!(16, u16::from_le_bytes([b[22], b[23]]));
    assert_eq!(22, u16::from_le_bytes([b[24], b[25]]));
    assert_eq!(16, u16::from_le_bytes([b[26], b[27]]));
    assert_eq!(3, u32::from_le_bytes([b[28], b[29], b[30], b[31]]));
    assert_eq!(1, u16::from_le_bytes([b[32], b[33]]));
    assert_eq!(
        &[0x00, 0x00, 0x00, 0x00, 0x10, 0x00, 0x80, 0x00, 0x00, 0xAA, 0x00, 0x38, 0x9B, 0x71],
        &b[34..48]
    );
}

#[test]
fn fmt_chunk_float_tag_and_byte_rate_overflow() {
    let header = WavHeader {
        sample_format: SampleFormat::Float,
        channels: Channels::new().front_left(),
        sample_rate: 48000,
        max_samples: 10,
    };
    let b = WavHeader::to_writer(&header).unwrap();
    assert_eq!(3, u16::from_le_bytes([b[32], b[33]]));
    let huge = WavHeader { sample_rate: u32::MAX, ..header };
    assert_eq!(Err(WavError::UnsupportedFormat), WavHeader::to_writer(&huge));
}
