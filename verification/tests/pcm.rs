use audiomock::audio::{AudioFormat, SampleFormat};
use audiomock::pcm::{
    decode_f32le, decode_f32le_prefix, decode_s16le_to_f32, decode_stream_chunk, encode_f32le, encode_i16le, s16_to_f32_bits,
    sink_sample_count,
};
use audiomock::wav::encode_wav;

#[test]
fn f32le_bytes_of_one() {
    let bytes = encode_f32le(&[1.0f32.to_bits(), (-2.5f32).to_bits()]);
    let mut expected = 1.0f32.to_le_bytes().to_vec();
    expected.extend_from_slice(&(-2.5f32).to_le_bytes());
    assert_eq!(bytes, expected);
    assert_eq!(&bytes[..4], &[0x00, 0x00, 0x80, 0x3f]);
}

#[test]
fn f32le_roundtrip_bits() {
    let samples: Vec<u32> = [0.0f32, 0.8, -0.25, f32::MAX, f32::MIN_POSITIVE]
        .iter()
        .map(|x| x.to_bits())
        .collect();
    let bytes = encode_f32le(&samples);
    assert_eq!(decode_f32le(&bytes), samples);
}

#[test]
fn decode_drops_trailing_bytes() {
    let mut bytes = 0.5f32.to_le_bytes().to_vec();
    bytes.extend_from_slice(&[1, 2, 3]);
    assert_eq!(decode_f32le(&bytes), vec![0.5f32.to_bits()]);
    assert_eq!(decode_f32le(&[1, 2]), Vec::<u32>::new());
}

#[test]
fn decode_prefix_takes_count() {
    let bytes = [1u8, 0, 0, 0, 2, 0, 0, 0, 3, 0, 0, 0];
    assert_eq!(decode_f32le_prefix(&bytes, 2), vec![1, 2]);
}

#[test]
fn sink_count_prefers_chunk_size() {
    assert_eq!(sink_sample_count(64, 4096), 16);
    assert_eq!(sink_sample_count(0, 4096), 1024);
    assert_eq!(sink_sample_count(7, 4096), 1);
}

#[test]
fn i16le_bytes() {
    let mut out = vec![9u8];
    encode_i16le(&[1, -1, 0x1234, i16::MIN], &mut out);
    assert_eq!(out, vec![9, 1, 0, 0xff, 0xff, 0x34, 0x12, 0x00, 0x80]);
}

#[test]
fn wav_file_layout() {
    let format = AudioFormat { sample_rate: 48000, channels: 2, sample_format: SampleFormat::F32LE };
    let bytes = encode_wav(&[1, -1], &format);
    let mut expected: Vec<u8> = Vec::new();
    expected.extend_from_slice(b"RIFF");
    expected.extend_from_slice(&40u32.to_le_bytes());
    expected.extend_from_slice(b"WAVE");
    expected.extend_from_slice(b"fmt ");
    expected.extend_from_slice(&16u32.to_le_bytes());
    expected.extend_from_slice(&1u16.to_le_bytes());
    expected.extend_from_slice(&2u16.to_le_bytes());
    expected.extend_from_slice(&48000u32.to_le_bytes());
    expected.extend_from_slice(&192000u32.to_le_bytes());
    expected.extend_from_slice(&4u16.to_le_bytes());
    expected.extend_from_slice(&16u16.to_le_bytes());
    expected.extend_from_slice(b"data");
    expected.extend_from_slice(&4u32.to_le_bytes());
    expected.extend_from_slice(&[1, 0, 0xff, 0xff]);
    assert_eq!(bytes, expected);
    assert_eq!(bytes.len(), 48);
}

#[test]
fn wav_of_no_samples_is_header_only() {
    let format = AudioFormat { sample_rate: 8000, channels: 1, sample_format: SampleFormat::S16LE };
    let bytes = encode_wav(&[], &format);
    assert_eq!(bytes.len(), 44);
    assert_eq!(&bytes[4..8], &36u32.to_le_bytes());
    assert_eq!(&bytes[28..32], &16000u32.to_le_bytes());
    assert_eq!(&bytes[40..44], &0u32.to_le_bytes());
}

#[test]
fn s16_samples_scale_exactly() {
    for v in [0i16, 1, -1, 2, 100, -100, 12345, -12345, 16384, -16384, 32767, -32768] {
        assert_eq!(f32::from_bits(s16_to_f32_bits(v)), v as f32 / 32768.0, "sample {v}");
    }
    assert_eq!(s16_to_f32_bits(0), 0);
    assert_eq!(s16_to_f32_bits(-32768), (-1.0f32).to_bits());
    assert_eq!(s16_to_f32_bits(16384), 0.5f32.to_bits());
}

#[test]
fn s16_samples_scale_exactly_everywhere() {
    for v in i16::MIN..=i16::MAX {
        assert_eq!(s16_to_f32_bits(v), (v as f32 / 32768.0).to_bits());
    }
}

#[test]
fn decode_s16le_stream_bytes() {
    let bytes = [0x00, 0x40, 0x00, 0xC0, 0xFF, 0x7F, 0x01];
    let out = decode_s16le_to_f32(&bytes);
    assert_eq!(out, vec![0.5f32.to_bits(), (-0.5f32).to_bits(), (32767.0f32 / 32768.0).to_bits()]);
    assert_eq!(decode_stream_chunk(SampleFormat::S16LE, &bytes), out);
    let f = encode_f32le(&[1.0f32.to_bits(), 0.25f32.to_bits()]);
    assert_eq!(decode_stream_chunk(SampleFormat::F32LE, &f), vec![1.0f32.to_bits(), 0.25f32.to_bits()]);
    assert_eq!(decode_stream_chunk(SampleFormat::S32LE, &f), vec![1.0f32.to_bits(), 0.25f32.to_bits()]);
}
