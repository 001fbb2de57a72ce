//! Little-endian byte codecs for PCM samples. A 32-bit float sample is carried
//! as its IEEE-754 bit pattern (`u32`), so moving samples between bytes and
//! buffers never rounds.
use vstd::prelude::*;
use vstd::arithmetic::power2::{lemma2_to64, lemma_pow2_unfold, pow2};

use crate::audio::SampleFormat;

verus! {

/// Little-endian bytes of a 32-bit value.
pub open spec fn le_bytes_u32(x: u32) -> Seq<u8> {
    seq![
        (x % 256) as u8,
        ((x / 256) % 256) as u8,
        ((x / 65536) % 256) as u8,
        (x / 16777216) as u8,
    ]
}

/// Little-endian bytes of a 16-bit value.
pub open spec fn le_bytes_u16(x: u16) -> Seq<u8> {
    seq![(x % 256) as u8, (x / 256) as u8]
}

/// The 32-bit value of the four little-endian bytes at `off`.
pub open spec fn le_u32_at(b: Seq<u8>, off: int) -> int {
    b[off] + b[off + 1] * 256 + b[off + 2] * 65536 + b[off + 3] * 16777216
}

/// Samples laid out as consecutive little-endian 32-bit words.
pub open spec fn encode_u32_le(s: Seq<u32>) -> Seq<u8> {
    Seq::new(4 * s.len(), |k: int| le_bytes_u32(s[k / 4])[k % 4])
}

/// The whole 32-bit words in a byte sequence; trailing bytes that do not
/// fill a word are left out.
pub open spec fn decode_u32_le(b: Seq<u8>) -> Seq<u32> {
    Seq::new(b.len() / 4, |i: int| le_u32_at(b, 4 * i) as u32)
}

/// 16-bit samples laid out as consecutive little-endian words.
pub open spec fn encode_i16_le(s: Seq<i16>) -> Seq<u8> {
    Seq::new(2 * s.len(), |k: int| le_bytes_u16(s[k / 2] as u16)[k % 2])
}

/// Splitting an index into a 4-byte group and an offset in it.
pub proof fn lemma_div_mod_4(i: int, j: int)
    requires
        0 <= i,
        0 <= j < 4,
    ensures
        (4 * i + j) / 4 == i,
        (4 * i + j) % 4 == j,
{
    assert((4 * i + j) / 4 == i) by (nonlinear_arith)
        requires 0 <= i, 0 <= j < 4;
    assert((4 * i + j) % 4 == j) by (nonlinear_arith)
        requires 0 <= i, 0 <= j < 4;
}

/// Splitting an index into a 2-byte group and an offset in it.
pub proof fn lemma_div_mod_2(i: int, j: int)
    requires
        0 <= i,
        0 <= j < 2,
    ensures
        (2 * i + j) / 2 == i,
        (2 * i + j) % 2 == j,
{
    assert((2 * i + j) / 2 == i) by (nonlinear_arith)
        requires 0 <= i, 0 <= j < 2;
    assert((2 * i + j) % 2 == j) by (nonlinear_arith)
        requires 0 <= i, 0 <= j < 2;
}

/// Append the little-endian bytes of a 32-bit value.
pub fn push_u32_le(out: &mut Vec<u8>, x: u32)
    ensures
        final(out)@ == old(out)@ + le_bytes_u32(x),
{
    out.push((x % 256) as u8);
    out.push(((x / 256) % 256) as u8);
    out.push(((x / 65536) % 256) as u8);
    out.push((x / 16777216) as u8);
    assert(out@ =~= old(out)@ + le_bytes_u32(x));
}

/// Append the little-endian bytes of a 16-bit value.
pub fn push_u16_le(out: &mut Vec<u8>, x: u16)
    ensures
        final(out)@ == old(out)@ + le_bytes_u16(x),
{
    out.push((x % 256) as u8);
    out.push((x / 256) as u8);
    assert(out@ =~= old(out)@ + le_bytes_u16(x));
}

/// Bytes of 32-bit float samples (given by their bit patterns), little-endian.
pub fn encode_f32le(samples: &[u32]) -> (r: Vec<u8>)
    requires
        4 * samples@.len() <= usize::MAX,
    ensures
        r@ == encode_u32_le(samples@),
{
    let n = samples.len();
    let mut out: Vec<u8> = Vec::new();
    let mut i: usize = 0;
    while i < n
        invariant
            n == samples@.len(),
            i <= n,
            out@ == encode_u32_le(samples@.subrange(0, i as int)),
        decreases n - i,
    {
        let ghost prev = out@;
        push_u32_le(&mut out, samples[i]);
        proof {
            let s1 = samples@.subrange(0, i + 1);
            assert forall|k: int| 0 <= k < 4 * (i + 1) implies #[trigger] out@[k]
                == encode_u32_le(s1)[k] by {
                if k < 4 * i {
                    assert(k / 4 < i) by (nonlinear_arith)
                        requires 0 <= k < 4 * i;
                    assert(k / 4 >= 0) by (nonlinear_arith)
                        requires 0 <= k;
                    assert(prev[k] == encode_u32_le(samples@.subrange(0, i as int))[k]);
                } else {
                    lemma_div_mod_4(i as int, k - 4 * i);
                }
            }
            assert(out@ =~= encode_u32_le(s1));
        }
        i = i + 1;
    }
    assert(samples@.subrange(0, n as int) =~= samples@);
    out
}

/// The 32-bit float samples (as bit patterns) in the first `4 * count` bytes.
pub fn decode_f32le_prefix(bytes: &[u8], count: usize) -> (r: Vec<u32>)
    requires
        4 * count <= bytes@.len(),
    ensures
        r@ == decode_u32_le(bytes@.subrange(0, 4 * count)),
{
    let len = bytes.len();
    let mut out: Vec<u32> = Vec::new();
    let mut i: usize = 0;
    while i < count
        invariant
            len == bytes@.len(),
            4 * count <= bytes@.len(),
            i <= count,
            out@.len() == i,
            forall|j: int| 0 <= j < i ==> #[trigger] out@[j] == le_u32_at(bytes@, 4 * j) as u32,
        decreases count - i,
    {
        assert(4 * i + 4 <= 4 * count);
        let off = 4 * i;
        let b0 = bytes[off] as u32;
        let b1 = bytes[off + 1] as u32;
        let b2 = bytes[off + 2] as u32;
        let b3 = bytes[off + 3] as u32;
        out.push(b0 + b1 * 256 + b2 * 65536 + b3 * 16777216);
        i = i + 1;
    }
    proof {
        let pre = bytes@.subrange(0, 4 * count);
        assert(pre.len() / 4 == count) by (nonlinear_arith)
            requires pre.len() == 4 * count;
        assert forall|j: int| 0 <= j < count implies #[trigger] out@[j] == decode_u32_le(pre)[j] by {
            assert(le_u32_at(pre, 4 * j) == le_u32_at(bytes@, 4 * j));
        }
        assert(out@ =~= decode_u32_le(pre));
    }
    out
}

/// The 32-bit float samples (as bit patterns) in a byte chunk; trailing bytes
/// that do not fill a sample are dropped.
pub fn decode_f32le(bytes: &[u8]) -> (r: Vec<u32>)
    ensures
        r@ == decode_u32_le(bytes@),
{
    let count = bytes.len() / 4;
    let r = decode_f32le_prefix(bytes, count);
    proof {
        let pre = bytes@.subrange(0, 4 * count);
        assert(pre.len() / 4 == count) by (nonlinear_arith)
            requires pre.len() == 4 * count;
        assert forall|j: int| 0 <= j < count implies #[trigger] decode_u32_le(pre)[j]
            == decode_u32_le(bytes@)[j] by {
            assert(4 * j + 3 < 4 * count) by (nonlinear_arith)
                requires 0 <= j < count;
        }
        assert(decode_u32_le(pre) =~= decode_u32_le(bytes@));
    }
    r
}

/// The signed 16-bit value of the two little-endian bytes at `off`.
pub open spec fn le_i16_at(b: Seq<u8>, off: int) -> int {
    let u = b[off] + b[off + 1] * 256;
    if u >= 32768 {
        u - 65536
    } else {
        u
    }
}

/// `bits` is the IEEE-754 single-precision float whose value is exactly
/// `v / 32768`. Zero is `+0.0`; otherwise the float is normal, and a normal
/// float with sign bit `s`, biased exponent `e` and fraction `f` has the value
/// `(-1)^s * (2^23 + f) * 2^(e - 150)`, which is `v / 2^15` exactly when the
/// sign is `v`'s and `|v| * 2^(135 - e) == 2^23 + f`.
pub open spec fn f32_bits_of_ratio(bits: u32, v: int) -> bool {
    if v == 0 {
        bits == 0
    } else {
        let sign = bits / 0x8000_0000;
        let e = (bits / 0x80_0000) % 256;
        let f = bits % 0x80_0000;
        let mag: int = if v < 0 {
            -v
        } else {
            v
        };
        &&& sign == (if v < 0 {
            1int
        } else {
            0int
        })
        &&& 1 <= e <= 135
        &&& mag * pow2((135 - e) as nat) == 0x80_0000 + f
    }
}

/// The float sample, by its bit pattern, of a 16-bit sample: `v / 32768`.
pub fn s16_to_f32_bits(v: i16) -> (r: u32)
    ensures
        f32_bits_of_ratio(r, v as int),
{
    if v == 0 {
        return 0;
    }
    let sign: u32 = if v < 0 {
        1
    } else {
        0
    };
    let wide: i32 = v as i32;
    let m: u32 = if wide < 0 {
        (-wide) as u32
    } else {
        wide as u32
    };
    let mut x: u32 = m;
    let mut k: u32 = 0;
    proof {
        lemma2_to64();
    }
    while x < 0x80_0000
        invariant
            1 <= m <= 32768,
            m <= x < 0x100_0000,
            k <= 23,
            x == m * pow2(k as nat),
            pow2(23) == 0x80_0000,
        decreases 23 - k,
    {
        proof {
            lemma_pow2_unfold((k + 1) as nat);
            if k == 23 {
                assert(m * pow2(23) >= pow2(23)) by (nonlinear_arith)
                    requires m >= 1;
            }
        }
        x = x * 2;
        k = k + 1;
        assert(x == m * pow2(k as nat)) by (nonlinear_arith)
            requires x == 2 * (m * pow2((k - 1) as nat)), pow2(k as nat) == 2 * pow2((k - 1) as nat);
    }
    let e: u32 = 135 - k;
    let f: u32 = x - 0x80_0000;
    let r = sign * 0x8000_0000 + e * 0x80_0000 + f;
    assert(r / 0x8000_0000 == sign && (r / 0x80_0000) % 256 == e && r % 0x80_0000 == f) by (nonlinear_arith)
        requires
            r == sign * 0x8000_0000 + e * 0x80_0000 + f,
            sign <= 1,
            e < 256,
            f < 0x80_0000;
    r
}

/// The 16-bit samples of a byte chunk as float samples (bit patterns) of
/// value `v / 32768`; a trailing odd byte is dropped.
pub fn decode_s16le_to_f32(bytes: &[u8]) -> (r: Vec<u32>)
    ensures
        r@.len() == bytes@.len() / 2,
        forall|i: int| 0 <= i < r@.len() ==> f32_bits_of_ratio(#[trigger] r@[i], le_i16_at(bytes@, 2 * i)),
{
    let len = bytes.len();
    let count = len / 2;
    let mut out: Vec<u32> = Vec::new();
    let mut i: usize = 0;
    while i < count
        invariant
            len == bytes@.len(),
            count == bytes@.len() / 2,
            i <= count,
            out@.len() == i,
            forall|j: int| 0 <= j < i ==> f32_bits_of_ratio(#[trigger] out@[j], le_i16_at(bytes@, 2 * j)),
        decreases count - i,
    {
        assert(2 * i + 1 < bytes@.len()) by (nonlinear_arith)
            requires i < count, count == len / 2, len == bytes@.len();
        let lo = bytes[2 * i] as u32;
        let hi = bytes[2 * i + 1] as u32;
        let u = lo + hi * 256;
        let v: i16 = if u >= 32768 {
            (u as i32 - 65536) as i16
        } else {
            u as i16
        };
        assert(v as int == le_i16_at(bytes@, 2 * i));
        out.push(s16_to_f32_bits(v));
        i = i + 1;
    }
    out
}

/// Bytes per sample of a raw stream: 2 for S16LE, 4 for the 32-bit formats.
pub open spec fn stream_sample_width(format: SampleFormat) -> nat {
    if format == SampleFormat::S16LE {
        2
    } else {
        4
    }
}

/// `out` are the float samples (bit patterns) of the stream bytes `bytes`:
/// for S16LE each 16-bit sample `v` becomes the float `v / 32768`; 32-bit
/// words are taken as they are (F32LE, and S32LE, which no client offers, is
/// carried the same way). Trailing bytes that do not fill a sample give none.
pub open spec fn stream_samples(format: SampleFormat, bytes: Seq<u8>, out: Seq<u32>) -> bool {
    if format == SampleFormat::S16LE {
        &&& out.len() == bytes.len() / 2
        &&& forall|i: int| 0 <= i < out.len() ==> f32_bits_of_ratio(#[trigger] out[i], le_i16_at(bytes, 2 * i))
    } else {
        out == decode_u32_le(bytes)
    }
}

/// Float samples (bit patterns) from a chunk of stream bytes in the stream's
/// sample format.
pub fn decode_stream_chunk(format: SampleFormat, bytes: &[u8]) -> (r: Vec<u32>)
    ensures
        stream_samples(format, bytes@, r@),
{
    match format {
        SampleFormat::S16LE => decode_s16le_to_f32(bytes),
        _ => decode_f32le(bytes),
    }
}

/// Decoding law: the samples of two byte runs, the first a whole number of
/// samples long, are the samples of the joined run.
pub proof fn lemma_stream_samples_concat(format: SampleFormat, a: Seq<u8>, b: Seq<u8>, x: Seq<u32>, y: Seq<u32>)
    requires
        a.len() % stream_sample_width(format) == 0,
        stream_samples(format, a, x),
        stream_samples(format, b, y),
    ensures
        stream_samples(format, a + b, x + y),
{
    let ab = a + b;
    if format == SampleFormat::S16LE {
        assert(ab.len() / 2 == a.len() / 2 + b.len() / 2) by (nonlinear_arith)
            requires ab.len() == a.len() + b.len(), a.len() % 2 == 0;
        assert forall|i: int| 0 <= i < (x + y).len() implies f32_bits_of_ratio(#[trigger] (x + y)[i], le_i16_at(ab, 2 * i)) by {
            if i < x.len() {
                assert(2 * i + 1 < a.len()) by (nonlinear_arith)
                    requires 0 <= i < x.len(), x.len() == a.len() / 2;
                assert(le_i16_at(ab, 2 * i) == le_i16_at(a, 2 * i));
            } else {
                let j = i - x.len();
                assert(2 * i == a.len() + 2 * j) by (nonlinear_arith)
                    requires j == i - x.len(), x.len() == a.len() / 2, a.len() % 2 == 0;
                assert(2 * j + 1 < b.len()) by (nonlinear_arith)
                    requires 0 <= j < y.len(), y.len() == b.len() / 2;
                assert(le_i16_at(ab, 2 * i) == le_i16_at(b, 2 * j));
                assert((x + y)[i] == y[j]);
            }
        }
    } else {
        assert(ab.len() / 4 == a.len() / 4 + b.len() / 4) by (nonlinear_arith)
            requires ab.len() == a.len() + b.len(), a.len() % 4 == 0;
        let d = decode_u32_le(ab);
        assert forall|i: int| 0 <= i < d.len() implies #[trigger] d[i] == (x + y)[i] by {
            if i < a.len() / 4 {
                assert(4 * i + 3 < a.len()) by (nonlinear_arith)
                    requires 0 <= i < a.len() / 4;
                assert(le_u32_at(ab, 4 * i) == le_u32_at(a, 4 * i));
            } else {
                let j = i - a.len() / 4;
                assert(4 * i == a.len() + 4 * j) by (nonlinear_arith)
                    requires j == i - a.len() / 4, a.len() % 4 == 0;
                assert(4 * j + 3 < b.len()) by (nonlinear_arith)
                    requires 0 <= j, j < b.len() / 4;
                assert(le_u32_at(ab, 4 * i) == le_u32_at(b, 4 * j));
            }
        }
        assert(d =~= x + y);
    }
}

/// How many samples the sink takes from a buffer: the chunk's announced size
/// when it is non-zero, else the whole mapped data, in 4-byte samples.
pub open spec fn spec_sink_sample_count(chunk_size: nat, data_len: nat) -> nat {
    if chunk_size > 0 {
        chunk_size / 4
    } else {
        data_len / 4
    }
}

/// Number of `f32` samples in a sink block: from the chunk size when it is
/// set, else from the whole data area.
pub fn sink_sample_count(chunk_size: usize, data_len: usize) -> (r: usize)
    ensures
        r == spec_sink_sample_count(chunk_size as nat, data_len as nat),
{
    if chunk_size > 0 {
        chunk_size / 4
    } else {
        data_len / 4
    }
}

/// Bytes of 16-bit samples, little-endian.
pub fn encode_i16le(samples: &[i16], out: &mut Vec<u8>)
    requires
        2 * samples@.len() <= usize::MAX,
    ensures
        final(out)@ == old(out)@ + encode_i16_le(samples@),
{
    let n = samples.len();
    let ghost start = out@;
    let mut i: usize = 0;
    while i < n
        invariant
            n == samples@.len(),
            i <= n,
            out@ == start + encode_i16_le(samples@.subrange(0, i as int)),
        decreases n - i,
    {
        let ghost prev = out@;
        let u = samples[i] as u16;
        push_u16_le(out, u);
        proof {
            let s1 = samples@.subrange(0, i + 1);
            let e1 = encode_i16_le(s1);
            let e0 = encode_i16_le(samples@.subrange(0, i as int));
            assert forall|k: int| 0 <= k < 2 * (i + 1) implies #[trigger] out@[start.len() + k]
                == e1[k] by {
                if k < 2 * i {
                    assert(k / 2 < i) by (nonlinear_arith)
                        requires 0 <= k < 2 * i;
                    assert(k / 2 >= 0) by (nonlinear_arith)
                        requires 0 <= k;
                    assert(prev[start.len() + k] == e0[k]);
                } else {
                    lemma_div_mod_2(i as int, k - 2 * i);
                }
            }
            assert(out@ =~= start + e1);
        }
        i = i + 1;
    }
    assert(samples@.subrange(0, n as int) =~= samples@);
}

/// Byte order law: decoding the bytes of a 32-bit value gives the value back.
pub proof fn lemma_le_u32_roundtrip(x: u32)
    ensures
        le_u32_at(le_bytes_u32(x), 0) == x,
{
    let b = le_bytes_u32(x);
    assert(b[0] + b[1] * 256 + b[2] * 65536 + b[3] * 16777216 == x) by (nonlinear_arith)
        requires
            b[0] == x % 256,
            b[1] == (x / 256) % 256,
            b[2] == (x / 65536) % 256,
            b[3] == x / 16777216,
            0 <= x < 4294967296;
}

/// Stream codec law: decoding the bytes of a sequence of samples gives the
/// samples back, bit for bit.
pub proof fn lemma_f32le_roundtrip(s: Seq<u32>)
    ensures
        decode_u32_le(encode_u32_le(s)) == s,
{
    let e = encode_u32_le(s);
    assert(e.len() / 4 == s.len()) by (nonlinear_arith)
        requires e.len() == 4 * s.len();
    assert forall|i: int| 0 <= i < s.len() implies #[trigger] decode_u32_le(e)[i] == s[i] by {
        lemma_div_mod_4(i, 0);
        lemma_div_mod_4(i, 1);
        lemma_div_mod_4(i, 2);
        lemma_div_mod_4(i, 3);
        assert(4 * i + 3 < e.len()) by (nonlinear_arith)
            requires 0 <= i < s.len(), e.len() == 4 * s.len();
        let b = le_bytes_u32(s[i]);
        assert(le_u32_at(e, 4 * i) == le_u32_at(b, 0));
        lemma_le_u32_roundtrip(s[i]);
    }
    assert(decode_u32_le(e) =~= s);
}

} // verus!
