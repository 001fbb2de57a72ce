//! Audio format descriptions shared by the daemon and its clients.
use vstd::prelude::*;

use crate::text::{all_ascii, ascii_lower, str_equals, to_lowercase, unicode_lowercase};

verus! {

/// Sample encodings a stream can carry.
#[derive(Debug, Clone, Copy, PartialEq, Eq, Structural)]
pub enum SampleFormat {
    S16LE,
    S32LE,
    F32LE,
}

impl SampleFormat {
    /// Size in bytes of one sample of this format.
    pub open spec fn spec_bytes_per_sample(self) -> nat {
        match self {
            SampleFormat::S16LE => 2,
            SampleFormat::S32LE => 4,
            SampleFormat::F32LE => 4,
        }
    }

    /// Size in bytes of one sample.
    pub fn bytes_per_sample(self) -> (r: usize)
        ensures
            r == self.spec_bytes_per_sample(),
    {
        match self {
            SampleFormat::S16LE => 2,
            SampleFormat::S32LE | SampleFormat::F32LE => 4,
        }
    }

    /// The name under which the format is displayed.
    pub fn as_str(&self) -> (r: &'static str)
        ensures
            r@ == sample_format_name(*self),
    {
        match self {
            SampleFormat::S16LE => "S16LE",
            SampleFormat::S32LE => "S32LE",
            SampleFormat::F32LE => "F32LE",
        }
    }
}

/// Display name of a sample format.
pub open spec fn sample_format_name(f: SampleFormat) -> Seq<char> {
    match f {
        SampleFormat::S16LE => "S16LE"@,
        SampleFormat::S32LE => "S32LE"@,
        SampleFormat::F32LE => "F32LE"@,
    }
}

/// Rate, channel count and sample encoding of a stream.
#[derive(Debug, Clone, Copy, PartialEq, Eq, Structural)]
pub struct AudioFormat {
    pub sample_rate: u32,
    pub channels: u16,
    pub sample_format: SampleFormat,
}

impl Default for AudioFormat {
    /// 48 kHz, stereo, 32-bit float.
    fn default() -> (r: Self)
        ensures
            r.sample_rate == 48000,
            r.channels == 2,
            r.sample_format == SampleFormat::F32LE,
    {
        AudioFormat { sample_rate: 48000, channels: 2, sample_format: SampleFormat::F32LE }
    }
}

/// Shapes of generated test tones.
#[derive(Debug, Clone, Copy, PartialEq, Eq, Structural)]
pub enum WaveformKind {
    Sine,
    Square,
    Sawtooth,
    Noise,
}

/// Display name of a waveform.
pub open spec fn waveform_name(w: WaveformKind) -> Seq<char> {
    match w {
        WaveformKind::Sine => "sine"@,
        WaveformKind::Square => "square"@,
        WaveformKind::Sawtooth => "sawtooth"@,
        WaveformKind::Noise => "noise"@,
    }
}

impl WaveformKind {
    /// The name under which the waveform is displayed.
    pub fn as_str(&self) -> (r: &'static str)
        ensures
            r@ == waveform_name(*self),
    {
        match self {
            WaveformKind::Sine => "sine",
            WaveformKind::Square => "square",
            WaveformKind::Sawtooth => "sawtooth",
            WaveformKind::Noise => "noise",
        }
    }
}

/// Container formats a recording can be written in.
#[derive(Debug, Clone, Copy, PartialEq, Eq, Structural)]
pub enum OutputFormat {
    Wav,
    Flac,
    Ogg,
}

/// Display name of an output format.
pub open spec fn output_format_name(f: OutputFormat) -> Seq<char> {
    match f {
        OutputFormat::Wav => "wav"@,
        OutputFormat::Flac => "flac"@,
        OutputFormat::Ogg => "ogg"@,
    }
}

/// The output format named by an already lowercased file extension.
pub open spec fn spec_format_of_lowercase(ext: Seq<char>) -> Option<OutputFormat> {
    if ext == "wav"@ {
        Some(OutputFormat::Wav)
    } else if ext == "flac"@ {
        Some(OutputFormat::Flac)
    } else if ext == "ogg"@ || ext == "oga"@ {
        Some(OutputFormat::Ogg)
    } else {
        None
    }
}

impl OutputFormat {
    /// The name under which the format is displayed.
    pub fn as_str(&self) -> (r: &'static str)
        ensures
            r@ == output_format_name(*self),
    {
        match self {
            OutputFormat::Wav => "wav",
            OutputFormat::Flac => "flac",
            OutputFormat::Ogg => "ogg",
        }
    }

    /// The format named by a file extension given in lowercase.
    pub fn from_lowercase_extension(ext: &str) -> (r: Option<Self>)
        ensures
            r == spec_format_of_lowercase(ext@),
    {
        if str_equals(ext, "wav") {
            Some(OutputFormat::Wav)
        } else if str_equals(ext, "flac") {
            Some(OutputFormat::Flac)
        } else if str_equals(ext, "ogg") || str_equals(ext, "oga") {
            Some(OutputFormat::Ogg)
        } else {
            None
        }
    }

    /// The format named by a file extension, compared without regard to case.
    pub fn from_extension(ext: &str) -> (r: Option<Self>)
        ensures
            r == spec_format_of_lowercase(unicode_lowercase(ext@)),
            all_ascii(ext@) ==> r == spec_format_of_lowercase(ext@.map_values(|c: char| ascii_lower(c))),
    {
        let lower = to_lowercase(ext);
        Self::from_lowercase_extension(lower.as_str())
    }
}

} // verus!
