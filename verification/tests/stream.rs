use audiomock::audio::SampleFormat;
use audiomock::stream::StreamDecoder;
use audiomock::stream::{push_decimal, stream_socket_path, xorshift64, STREAM_BUFFER_CAPACITY, STREAM_CHUNK_SIZE};

#[test]
fn decimal_digits() {
    for n in [0u32, 7, 10, 99, 4096, u32::MAX] {
        let mut s = String::from("x");
        push_decimal(&mut s, n);
        assert_eq!(s, format!("x{n}"));
    }
}

#[test]
fn data_socket_path() {
    assert_eq!(
        stream_socket_path(Some("/run/user/1000"), "default", 4242),
        "/run/user/1000/audiomockd-stream-default-4242.sock"
    );
    assert_eq!(stream_socket_path(None, "dev-b", 1), "/tmp/audiomockd-stream-dev-b-1.sock");
}

#[test]
fn stream_constants() {
    assert_eq!(STREAM_BUFFER_CAPACITY, 48000 * 2);
    assert_eq!(STREAM_CHUNK_SIZE, 4096);
}

#[test]
fn xorshift_step() {
    let mut x: u64 = 0xdeadbeef_cafebabe;
    let mut y = x;
    y ^= y << 13;
    y ^= y >> 7;
    y ^= y << 17;
    assert_eq!(xorshift64(x), y);
    x = 1;
    assert_eq!(xorshift64(x), 1 ^ (1 << 13) ^ ((1 ^ (1 << 13)) >> 7) ^ (((1u64 ^ (1 << 13)) ^ ((1 ^ (1 << 13)) >> 7)) << 17));
}

#[test]
fn decoder_keeps_split_samples() {
    let bytes = audiomock::pcm::encode_f32le(&[1.0f32.to_bits(), (-0.5f32).to_bits(), 0.25f32.to_bits()]);
    let mut dec = StreamDecoder::new(SampleFormat::F32LE);
    let mut out = dec.feed(&bytes[..3]);
    assert!(out.is_empty());
    out.extend(dec.feed(&bytes[3..9]));
    assert_eq!(out, vec![1.0f32.to_bits(), (-0.5f32).to_bits()]);
    out.extend(dec.feed(&bytes[9..]));
    assert_eq!(out, vec![1.0f32.to_bits(), (-0.5f32).to_bits(), 0.25f32.to_bits()]);

    let mut dec = StreamDecoder::new(SampleFormat::S16LE);
    let mut out = dec.feed(&[0x00]);
    out.extend(dec.feed(&[0x40, 0x00, 0xC0, 0xFF]));
    out.extend(dec.feed(&[0x7F]));
    assert_eq!(out, vec![0.5f32.to_bits(), (-0.5f32).to_bits(), (32767.0f32 / 32768.0).to_bits()]);
}
