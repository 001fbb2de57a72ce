//! Raw PCM streaming between a client's data socket and a device's ring
//! buffer: the buffer size, the socket path and the noise generator step.
use vstd::prelude::*;
use vstd::string::*;

use crate::audio::SampleFormat;
use crate::pcm::{decode_stream_chunk, lemma_stream_samples_concat, stream_sample_width, stream_samples};

verus! {

/// Capacity of the ring buffer of a stream, in samples: one second of
/// stereo audio at 48 kHz.
pub const STREAM_BUFFER_CAPACITY: usize = 96000;

/// Bytes moved per read or write on a data socket.
pub const STREAM_CHUNK_SIZE: usize = 4096;

/// The decimal digit character for `d < 10`.
pub open spec fn digit_char(d: nat) -> char {
    if d == 0 {
        '0'
    } else if d == 1 {
        '1'
    } else if d == 2 {
        '2'
    } else if d == 3 {
        '3'
    } else if d == 4 {
        '4'
    } else if d == 5 {
        '5'
    } else if d == 6 {
        '6'
    } else if d == 7 {
        '7'
    } else if d == 8 {
        '8'
    } else {
        '9'
    }
}

/// Decimal digits of a number, most significant first, without leading zeros.
pub open spec fn decimal(n: nat) -> Seq<char>
    decreases n,
{
    if n < 10 {
        seq![digit_char(n)]
    } else {
        decimal(n / 10) + seq![digit_char(n % 10)]
    }
}

fn digit_str(d: u32) -> (r: &'static str)
    requires
        d < 10,
    ensures
        r@ == seq![digit_char(d as nat)],
{
    if d == 0 {
        proof { reveal_strlit("0"); }
        "0"
    } else if d == 1 {
        proof { reveal_strlit("1"); }
        "1"
    } else if d == 2 {
        proof { reveal_strlit("2"); }
        "2"
    } else if d == 3 {
        proof { reveal_strlit("3"); }
        "3"
    } else if d == 4 {
        proof { reveal_strlit("4"); }
        "4"
    } else if d == 5 {
        proof { reveal_strlit("5"); }
        "5"
    } else if d == 6 {
        proof { reveal_strlit("6"); }
        "6"
    } else if d == 7 {
        proof { reveal_strlit("7"); }
        "7"
    } else if d == 8 {
        proof { reveal_strlit("8"); }
        "8"
    } else {
        proof { reveal_strlit("9"); }
        "9"
    }
}

/// Append the decimal digits of `n`.
pub fn push_decimal(s: &mut String, n: u32)
    ensures
        final(s)@ == old(s)@ + decimal(n as nat),
    decreases n,
{
    if n >= 10 {
        push_decimal(s, n / 10);
    }
    s.append(digit_str(n % 10));
    proof {
        assert(final(s)@ =~= old(s)@ + decimal(n as nat)) by {
            if n >= 10 {
                assert(decimal(n as nat) == decimal((n / 10) as nat) + seq![digit_char((n % 10) as nat)]);
            }
        }
    }
}

/// Path of the data socket of a stream on `device`, in the runtime directory
/// (else `/tmp`), named after the device and the daemon's process id.
pub open spec fn spec_stream_socket_path(xdg_runtime_dir: Option<Seq<char>>, device: Seq<char>, pid: u32) -> Seq<char> {
    let dir = match xdg_runtime_dir {
        Some(d) => d,
        None => "/tmp"@,
    };
    dir + "/audiomockd-stream-"@ + device + "-"@ + decimal(pid as nat) + ".sock"@
}

/// Path of the data socket of a raw stream on `device` by process `pid`.
pub fn stream_socket_path(xdg_runtime_dir: Option<&str>, device: &str, pid: u32) -> (r: String)
    ensures
        r@ == spec_stream_socket_path(crate::config::opt_view(xdg_runtime_dir), device@, pid),
{
    let mut s = match xdg_runtime_dir {
        Some(d) => String::from_str(d),
        None => String::from_str("/tmp"),
    };
    s.append("/audiomockd-stream-");
    s.append(device);
    s.append("-");
    push_decimal(&mut s, pid);
    s.append(".sock");
    s
}

/// One step of the xorshift generator behind noise tones.
pub open spec fn spec_xorshift64(x: u64) -> u64 {
    let a = x ^ ((x << 13u64) as u64);
    let b = a ^ (a >> 7u64);
    b ^ ((b << 17u64) as u64)
}

/// The generator's next state.
pub fn xorshift64(x: u64) -> (r: u64)
    ensures
        r == spec_xorshift64(x),
{
    let mut y = x;
    y = y ^ (y << 13u64);
    y = y ^ (y >> 7u64);
    y = y ^ (y << 17u64);
    y
}

/// The whole samples at the front of a byte run.
pub open spec fn whole_samples(format: SampleFormat, bytes: Seq<u8>) -> Seq<u8> {
    let w = stream_sample_width(format);
    bytes.subrange(0, ((bytes.len() / w) * w) as int)
}

/// The bytes after the whole samples of a byte run: an unfinished sample.
pub open spec fn partial_sample(format: SampleFormat, bytes: Seq<u8>) -> Seq<u8> {
    let w = stream_sample_width(format);
    bytes.subrange(((bytes.len() / w) * w) as int, bytes.len() as int)
}

/// Turns the bytes a client sends on a data socket, read by read, into float
/// samples. A sample split across two reads is kept until its last byte
/// arrives.
pub struct StreamDecoder {
    format: SampleFormat,
    pending: Vec<u8>,
}

impl StreamDecoder {
    /// The sample format of the stream.
    pub closed spec fn spec_format(&self) -> SampleFormat {
        self.format
    }

    /// The bytes of an unfinished sample, waiting for the rest.
    pub closed spec fn pending(&self) -> Seq<u8> {
        self.pending@
    }

    /// Fewer bytes wait than make up a sample.
    #[verifier::type_invariant]
    spec fn inv(&self) -> bool {
        self.pending@.len() < stream_sample_width(self.format)
    }

    /// A decoder for a stream in `format`, with nothing pending.
    pub fn new(format: SampleFormat) -> (r: Self)
        ensures
            r.spec_format() == format,
            r.pending() == Seq::<u8>::empty(),
    {
        StreamDecoder { format, pending: Vec::new() }
    }

    /// The samples completed by the bytes of one read: the pending bytes and
    /// `bytes` together give their whole samples; what is left waits.
    pub fn feed(&mut self, bytes: &[u8]) -> (r: Vec<u32>)
        ensures
            final(self).spec_format() == old(self).spec_format(),
            stream_samples(old(self).spec_format(), whole_samples(old(self).spec_format(), old(self).pending() + bytes@), r@),
            final(self).pending() == partial_sample(old(self).spec_format(), old(self).pending() + bytes@),
    {
        proof {
            use_type_invariant(&*self);
        }
        let format = self.format;
        let ghost all = self.pending@ + bytes@;
        let w: usize = match format {
            SampleFormat::S16LE => 2,
            _ => 4,
        };
        let mut joined: Vec<u8> = Vec::new();
        let p = self.pending.len();
        let mut i: usize = 0;
        while i < p
            invariant
                p == self.pending@.len(),
                i <= p,
                joined@ == self.pending@.subrange(0, i as int),
            decreases p - i,
        {
            joined.push(self.pending[i]);
            i = i + 1;
        }
        let n = bytes.len();
        let mut k: usize = 0;
        assert(p < 4);
        while k < n
            invariant
                p == self.pending@.len(),
                p < 4,
                n == bytes@.len(),
                k <= n,
                joined@ == self.pending@ + bytes@.subrange(0, k as int),
            decreases n - k,
        {
            joined.push(bytes[k]);
            k = k + 1;
        }
        assert(joined@ =~= all);
        let total = joined.len();
        let whole = (total / w) * w;
        assert(whole <= total && total - whole < w) by (nonlinear_arith)
            requires whole == (total / w) * w, w > 0;
        let mut head: Vec<u8> = Vec::new();
        let mut tail: Vec<u8> = Vec::new();
        let mut j: usize = 0;
        while j < total
            invariant
                total == joined@.len(),
                whole <= total,
                j <= total,
                j <= whole ==> head@ == joined@.subrange(0, j as int) && tail@.len() == 0,
                j > whole ==> head@ == joined@.subrange(0, whole as int) && tail@ == joined@.subrange(whole as int, j as int),
            decreases total - j,
        {
            if j < whole {
                head.push(joined[j]);
            } else {
                tail.push(joined[j]);
            }
            j = j + 1;
        }
        proof {
            if whole == total {
                assert(tail@ =~= joined@.subrange(whole as int, total as int));
            }
        }
        let r = decode_stream_chunk(format, head.as_slice());
        self.pending = tail;
        r
    }
}

/// Continuity law: feeding a stream in two reads gives the samples of the
/// whole samples of both reads together, in order, and leaves pending what
/// is left of them; so no sample is lost or split by where a read ends.
pub proof fn law_feed_continuity(format: SampleFormat, c1: Seq<u8>, c2: Seq<u8>, x: Seq<u32>, y: Seq<u32>)
    requires
        stream_samples(format, whole_samples(format, c1), x),
        stream_samples(format, whole_samples(format, partial_sample(format, c1) + c2), y),
    ensures
        stream_samples(format, whole_samples(format, c1 + c2), x + y),
        partial_sample(format, partial_sample(format, c1) + c2) == partial_sample(format, c1 + c2),
{
    let w = stream_sample_width(format);
    let l1 = c1.len();
    let l2 = c2.len();
    let q1 = l1 / w;
    let r1 = (l1 - q1 * w) as nat;
    let q2 = (r1 + l2) / w;
    assert(l1 == q1 * w + r1 && r1 < w && (l1 + l2) / w == q1 + q2) by (nonlinear_arith)
        requires w > 0, q1 == l1 / w, r1 == l1 - q1 * w, q2 == (r1 + l2) / w;
    let a = whole_samples(format, c1);
    let rest = partial_sample(format, c1) + c2;
    let b = whole_samples(format, rest);
    assert((q1 + q2) * w == q1 * w + q2 * w) by (nonlinear_arith);
    assert(a.len() == q1 * w);
    assert(a.len() % w == 0) by (nonlinear_arith)
        requires a.len() == q1 * w, w > 0;
    assert(rest.len() == r1 + l2);
    assert(b.len() == q2 * w);
    assert(a + b =~= whole_samples(format, c1 + c2));
    assert(partial_sample(format, rest) =~= partial_sample(format, c1 + c2));
    lemma_stream_samples_concat(format, a, b, x, y);
}

/// The number a string of decimal digits stands for.
pub open spec fn digits_value(s: Seq<char>) -> int
    decreases s.len(),
{
    if s.len() == 0 {
        0
    } else {
        digits_value(s.drop_last()) * 10 + ((s.last() as int) - ('0' as int))
    }
}

proof fn lemma_digit_char_value(d: nat)
    requires
        d < 10,
    ensures
        (digit_char(d) as int) - ('0' as int) == d,
        '0' <= digit_char(d) <= '9',
{
    if d == 0 {} else if d == 1 {} else if d == 2 {} else if d == 3 {} else if d == 4 {}
    else if d == 5 {} else if d == 6 {} else if d == 7 {} else if d == 8 {} else {}
}

/// Decimal law: the digits written for `n` are decimal digits, with no
/// leading zero unless `n` is zero, and stand for `n`.
pub proof fn law_decimal_digits(n: nat)
    ensures
        digits_value(decimal(n)) == n,
        decimal(n).len() >= 1,
        forall|i: int| 0 <= i < decimal(n).len() ==> '0' <= #[trigger] decimal(n)[i] <= '9',
        n > 0 ==> decimal(n)[0] != '0',
        n == 0 ==> decimal(n) == seq!['0'],
    decreases n,
{
    if n < 10 {
        lemma_digit_char_value(n);
        let d = decimal(n);
        assert(d == seq![digit_char(n)]);
        assert(d.drop_last() =~= Seq::<char>::empty());
        assert(digits_value(d.drop_last()) == 0);
        assert(d.last() == digit_char(n));
        assert(digits_value(d) == digits_value(d.drop_last()) * 10 + ((d.last() as int) - ('0' as int)));
    } else {
        law_decimal_digits(n / 10);
        lemma_digit_char_value(n % 10);
        let d = decimal(n);
        let p = decimal(n / 10);
        assert(d == p + seq![digit_char(n % 10)]);
        assert(d.drop_last() =~= p);
        assert(d.last() == digit_char(n % 10));
        assert(digits_value(d) == digits_value(p) * 10 + ((d.last() as int) - ('0' as int)));
        assert(n == (n / 10) * 10 + n % 10);
        assert forall|i: int| 0 <= i < d.len() implies '0' <= #[trigger] d[i] <= '9' by {
            if i < p.len() {
                assert(d[i] == p[i]);
            }
        }
        assert(d[0] == p[0]);
    }
}

} // verus!
