//! The byte layout of a 16-bit PCM WAV file.
use vstd::prelude::*;

use crate::audio::AudioFormat;
use crate::pcm::{
    encode_i16_le, encode_i16le, le_bytes_u16, le_bytes_u32, le_i16_at, le_u32_at, lemma_div_mod_2,
    lemma_le_u32_roundtrip, push_u16_le, push_u32_le,
};

verus! {

/// Bits per sample of the WAV files written here.
pub const WAV_BITS_PER_SAMPLE: u16 = 16;

/// The bytes `RIFF`.
pub open spec fn tag_riff() -> Seq<u8> {
    seq![0x52u8, 0x49u8, 0x46u8, 0x46u8]
}

/// The bytes `WAVE`.
pub open spec fn tag_wave() -> Seq<u8> {
    seq![0x57u8, 0x41u8, 0x56u8, 0x45u8]
}

/// The bytes `fmt `.
pub open spec fn tag_fmt() -> Seq<u8> {
    seq![0x66u8, 0x6du8, 0x74u8, 0x20u8]
}

/// The bytes `data`.
pub open spec fn tag_data() -> Seq<u8> {
    seq![0x64u8, 0x61u8, 0x74u8, 0x61u8]
}

/// Size field of the data chunk for `n` 16-bit samples, as the 32-bit field
/// holds it.
pub open spec fn wav_data_size(n: nat) -> u32 {
    ((2 * n) % 4294967296) as u32
}

/// When the header fields of a WAV file for `n` samples in `format` fit
/// their integer types.
pub open spec fn wav_fields_fit(format: AudioFormat, n: nat) -> bool {
    &&& format.channels <= 32767
    &&& format.sample_rate * format.channels * 2 <= u32::MAX
    &&& 2 * n <= usize::MAX
    &&& wav_data_size(n) + 36 <= u32::MAX
}

/// The 44-byte header of a 16-bit PCM WAV file holding `n` samples.
pub open spec fn wav_header(format: AudioFormat, n: nat) -> Seq<u8> {
    let channels = format.channels;
    let rate = format.sample_rate;
    let data_size = wav_data_size(n);
    tag_riff() + le_bytes_u32((36 + data_size) as u32) + tag_wave() + tag_fmt() + le_bytes_u32(16)
        + le_bytes_u16(1) + le_bytes_u16(channels) + le_bytes_u32(rate) + le_bytes_u32(
        (rate * channels * 2) as u32,
    ) + le_bytes_u16((channels * 2) as u16) + le_bytes_u16(16) + tag_data() + le_bytes_u32(
        data_size,
    )
}

/// A whole 16-bit PCM WAV file: header, then the samples little-endian.
pub open spec fn wav_file(format: AudioFormat, samples: Seq<i16>) -> Seq<u8> {
    wav_header(format, samples.len()) + encode_i16_le(samples)
}

fn push_tag(out: &mut Vec<u8>, a: u8, b: u8, c: u8, d: u8)
    ensures
        final(out)@ == old(out)@ + seq![a, b, c, d],
{
    out.push(a);
    out.push(b);
    out.push(c);
    out.push(d);
    assert(out@ =~= old(out)@ + seq![a, b, c, d]);
}

/// The bytes of a WAV file holding 16-bit samples in the given format.
pub fn encode_wav(samples: &[i16], format: &AudioFormat) -> (r: Vec<u8>)
    requires
        wav_fields_fit(*format, samples@.len()),
    ensures
        r@ == wav_file(*format, samples@),
{
    let num_channels = format.channels as u32;
    let sample_rate = format.sample_rate;
    let bits_per_sample: u16 = WAV_BITS_PER_SAMPLE;
    assert(num_channels as u16 == format.channels);
    let byte_rate = sample_rate * num_channels * 2;
    let channels16: u16 = num_channels as u16;
    assert(channels16 <= 32767);
    let block_align: u16 = channels16 * 2;
    let data_size: u32 = (((samples.len() * 2) as u64) % 4294967296u64) as u32;
    let file_size = 36 + data_size;
    let mut out: Vec<u8> = Vec::new();
    push_tag(&mut out, 0x52, 0x49, 0x46, 0x46);
    push_u32_le(&mut out, file_size);
    push_tag(&mut out, 0x57, 0x41, 0x56, 0x45);
    push_tag(&mut out, 0x66, 0x6d, 0x74, 0x20);
    push_u32_le(&mut out, 16);
    push_u16_le(&mut out, 1);
    push_u16_le(&mut out, num_channels as u16);
    push_u32_le(&mut out, sample_rate);
    push_u32_le(&mut out, byte_rate);
    push_u16_le(&mut out, block_align);
    push_u16_le(&mut out, bits_per_sample);
    push_tag(&mut out, 0x64, 0x61, 0x74, 0x61);
    push_u32_le(&mut out, data_size);
    assert(out@ =~= wav_header(*format, samples@.len()));
    encode_i16le(samples, &mut out);
    out
}

/// The 16-bit value of the two little-endian bytes at `off`.
pub open spec fn le_u16_at(b: Seq<u8>, off: int) -> int {
    b[off] + b[off + 1] * 256
}

proof fn lemma_le_u16_roundtrip(x: u16)
    ensures
        le_u16_at(le_bytes_u16(x), 0) == x,
{
    let b = le_bytes_u16(x);
    assert(b[0] + b[1] * 256 == x) by (nonlinear_arith)
        requires b[0] == x % 256, b[1] == x / 256, 0 <= x < 65536;
}

proof fn lemma_i16_le_roundtrip(x: i16)
    ensures
        le_i16_at(le_bytes_u16(x as u16), 0) == x,
{
    lemma_le_u16_roundtrip(x as u16);
    assert((x as u16) as int == if x < 0 { x + 65536 } else { x as int }) by (bit_vector);
}

proof fn lemma_u32_read(f: Seq<u8>, a: int, x: u32)
    requires
        0 <= a,
        a + 4 <= f.len(),
        f.subrange(a, a + 4) == le_bytes_u32(x),
    ensures
        le_u32_at(f, a) == x,
{
    lemma_le_u32_roundtrip(x);
    assert(f[a] == f.subrange(a, a + 4)[0]);
    assert(f[a + 1] == f.subrange(a, a + 4)[1]);
    assert(f[a + 2] == f.subrange(a, a + 4)[2]);
    assert(f[a + 3] == f.subrange(a, a + 4)[3]);
}

proof fn lemma_u16_read(f: Seq<u8>, a: int, x: u16)
    requires
        0 <= a,
        a + 2 <= f.len(),
        f.subrange(a, a + 2) == le_bytes_u16(x),
    ensures
        le_u16_at(f, a) == x,
{
    lemma_le_u16_roundtrip(x);
    assert(f[a] == f.subrange(a, a + 2)[0]);
    assert(f[a + 1] == f.subrange(a, a + 2)[1]);
}

#[verifier::rlimit(50)]
proof fn lemma_header_pieces(format: AudioFormat, n: nat)
    ensures
        ({
            let h = wav_header(format, n);
            let ds = wav_data_size(n);
            let c = format.channels;
            let r = format.sample_rate;
            &&& h.len() == 44
            &&& h.subrange(0, 4) == tag_riff()
            &&& h.subrange(4, 8) == le_bytes_u32((36 + ds) as u32)
            &&& h.subrange(8, 12) == tag_wave()
            &&& h.subrange(12, 16) == tag_fmt()
            &&& h.subrange(16, 20) == le_bytes_u32(16)
            &&& h.subrange(20, 22) == le_bytes_u16(1)
            &&& h.subrange(22, 24) == le_bytes_u16(c)
            &&& h.subrange(24, 28) == le_bytes_u32(r)
            &&& h.subrange(28, 32) == le_bytes_u32((r * c * 2) as u32)
            &&& h.subrange(32, 34) == le_bytes_u16((c * 2) as u16)
            &&& h.subrange(34, 36) == le_bytes_u16(16)
            &&& h.subrange(36, 40) == tag_data()
            &&& h.subrange(40, 44) == le_bytes_u32(ds)
        }),
{
    let h = wav_header(format, n);
    let ds = wav_data_size(n);
    let c = format.channels;
    let r = format.sample_rate;
    let p1 = tag_riff() + le_bytes_u32((36 + ds) as u32);
    let p2 = p1 + tag_wave();
    let p3 = p2 + tag_fmt();
    let p4 = p3 + le_bytes_u32(16);
    let p5 = p4 + le_bytes_u16(1);
    let p6 = p5 + le_bytes_u16(c);
    let p7 = p6 + le_bytes_u32(r);
    let p8 = p7 + le_bytes_u32((r * c * 2) as u32);
    let p9 = p8 + le_bytes_u16((c * 2) as u16);
    let p10 = p9 + le_bytes_u16(16);
    let p11 = p10 + tag_data();
    assert(h == p11 + le_bytes_u32(ds));
    assert(h.subrange(0, 44 - 4) =~= p11);
    assert(p11.subrange(0, 36) =~= p10);
    assert(p10.subrange(0, 34) =~= p9);
    assert(p9.subrange(0, 32) =~= p8);
    assert(p8.subrange(0, 28) =~= p7);
    assert(p7.subrange(0, 24) =~= p6);
    assert(p6.subrange(0, 22) =~= p5);
    assert(p5.subrange(0, 20) =~= p4);
    assert(p4.subrange(0, 16) =~= p3);
    assert(p3.subrange(0, 12) =~= p2);
    assert(p2.subrange(0, 8) =~= p1);
    assert(h.subrange(40, 44) =~= le_bytes_u32(ds));
    assert(h.subrange(36, 40) =~= tag_data());
    assert(h.subrange(34, 36) =~= le_bytes_u16(16));
    assert(h.subrange(32, 34) =~= le_bytes_u16((c * 2) as u16));
    assert(h.subrange(28, 32) =~= le_bytes_u32((r * c * 2) as u32));
    assert(h.subrange(24, 28) =~= le_bytes_u32(r));
    assert(h.subrange(22, 24) =~= le_bytes_u16(c));
    assert(h.subrange(20, 22) =~= le_bytes_u16(1));
    assert(h.subrange(16, 20) =~= le_bytes_u32(16));
    assert(h.subrange(12, 16) =~= tag_fmt());
    assert(h.subrange(8, 12) =~= tag_wave());
    assert(h.subrange(4, 8) =~= le_bytes_u32((36 + ds) as u32));
    assert(h.subrange(0, 4) =~= tag_riff());
}

proof fn lemma_prefix(h: Seq<u8>, e: Seq<u8>)
    ensures
        (h + e).subrange(0, h.len() as int) == h,
        (h + e).len() == h.len() + e.len(),
{
    assert((h + e).subrange(0, h.len() as int) =~= h);
}

proof fn lemma_samples_read(h: Seq<u8>, samples: Seq<i16>)
    requires
        h.len() == 44,
    ensures
        forall|k: int| 0 <= k < samples.len() ==> #[trigger] le_i16_at(h + encode_i16_le(samples), 44 + 2 * k) == samples[k],
{
    let e = encode_i16_le(samples);
    let f = h + e;
    assert forall|k: int| 0 <= k < samples.len() implies #[trigger] le_i16_at(f, 44 + 2 * k) == samples[k] by {
        lemma_div_mod_2(k, 0);
        lemma_div_mod_2(k, 1);
        assert(f[44 + 2 * k] == e[2 * k]);
        assert(f[44 + 2 * k + 1] == e[2 * k + 1]);
        lemma_i16_le_roundtrip(samples[k]);
        assert(le_i16_at(f, 44 + 2 * k) == le_i16_at(le_bytes_u16(samples[k] as u16), 0));
    }
}

proof fn lemma_field_u32(f: Seq<u8>, h: Seq<u8>, a: int, x: u32)
    requires
        h.len() == 44,
        44 <= f.len(),
        f.subrange(0, 44) == h,
        0 <= a,
        a + 4 <= 44,
        h.subrange(a, a + 4) == le_bytes_u32(x),
    ensures
        le_u32_at(f, a) == x,
{
    assert(f.subrange(a, a + 4) =~= h.subrange(a, a + 4));
    lemma_u32_read(f, a, x);
}

proof fn lemma_field_u16(f: Seq<u8>, h: Seq<u8>, a: int, x: u16)
    requires
        h.len() == 44,
        44 <= f.len(),
        f.subrange(0, 44) == h,
        0 <= a,
        a + 2 <= 44,
        h.subrange(a, a + 2) == le_bytes_u16(x),
    ensures
        le_u16_at(f, a) == x,
{
    assert(f.subrange(a, a + 2) =~= h.subrange(a, a + 2));
    lemma_u16_read(f, a, x);
}

proof fn lemma_field_tag(f: Seq<u8>, h: Seq<u8>, a: int)
    requires
        h.len() == 44,
        44 <= f.len(),
        f.subrange(0, 44) == h,
        0 <= a,
        a + 4 <= 44,
    ensures
        f.subrange(a, a + 4) == h.subrange(a, a + 4),
{
    assert(f.subrange(a, a + 4) =~= h.subrange(a, a + 4));
}

/// WAV layout law: the file for `n` samples is 44 + 2n bytes; it starts with
/// `RIFF`, the file size less 8, `WAVE`, and a PCM `fmt ` chunk giving the
/// channel count, sample rate, byte rate (rate x channels x 2), block
/// alignment (channels x 2) and 16 bits per sample; then `data`, its size
/// 2n, and each sample in order, reading back as itself. (Past 2^32 - 37
/// data bytes the 32-bit size fields wrap, so the law is stated below that.)
pub proof fn law_wav_layout(format: AudioFormat, samples: Seq<i16>)
    requires
        wav_fields_fit(format, samples.len()),
        2 * samples.len() + 36 <= u32::MAX,
    ensures
        ({
            let f = wav_file(format, samples);
            let n = samples.len();
            &&& f.len() == 44 + 2 * n
            &&& f.subrange(0, 4) == tag_riff()
            &&& le_u32_at(f, 4) == 36 + 2 * n
            &&& f.subrange(8, 12) == tag_wave()
            &&& f.subrange(12, 16) == tag_fmt()
            &&& le_u32_at(f, 16) == 16
            &&& le_u16_at(f, 20) == 1
            &&& le_u16_at(f, 22) == format.channels
            &&& le_u32_at(f, 24) == format.sample_rate
            &&& le_u32_at(f, 28) == format.sample_rate * format.channels * 2
            &&& le_u16_at(f, 32) == format.channels * 2
            &&& le_u16_at(f, 34) == 16
            &&& f.subrange(36, 40) == tag_data()
            &&& le_u32_at(f, 40) == 2 * n
            &&& forall|k: int| 0 <= k < n ==> #[trigger] le_i16_at(f, 44 + 2 * k) == samples[k]
        }),
{
    let f = wav_file(format, samples);
    let n = samples.len();
    let h = wav_header(format, n);
    let e = encode_i16_le(samples);
    let ds = wav_data_size(n);
    let c = format.channels;
    let r = format.sample_rate;
    lemma_header_pieces(format, n);
    assert(ds == 2 * n);
    assert(c * 2 <= 65534) by (nonlinear_arith)
        requires c <= 32767;
    lemma_prefix(h, e);
    lemma_field_u32(f, h, 4, (36 + ds) as u32);
    lemma_field_u32(f, h, 16, 16);
    lemma_field_u16(f, h, 20, 1);
    lemma_field_u16(f, h, 22, c);
    lemma_field_u32(f, h, 24, r);
    lemma_field_u32(f, h, 28, (r * c * 2) as u32);
    lemma_field_u16(f, h, 32, (c * 2) as u16);
    lemma_field_u16(f, h, 34, 16);
    lemma_field_u32(f, h, 40, ds);
    lemma_field_tag(f, h, 0);
    lemma_field_tag(f, h, 8);
    lemma_field_tag(f, h, 12);
    lemma_field_tag(f, h, 36);
    lemma_samples_read(h, samples);
}

} // verus!
