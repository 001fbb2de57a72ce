//! How a finished recording is written out: the container, rate and channel
//! count that were asked for (else WAV at the captured rate and channels),
//! and the GStreamer pipeline description that encodes it when it is not a
//! plain 16-bit WAV of the captured samples.
use vstd::prelude::*;
use vstd::string::*;

use crate::audio::{AudioFormat, OutputFormat};
use crate::device::RecordSettings;
use crate::stream::{decimal, push_decimal};
use crate::text::{escape_spaces, shell_escape};

verus! {

/// What a finished recording is written as.
#[derive(Debug, Clone, Copy, PartialEq, Eq, Structural)]
pub struct RecordingPlan {
    pub output: OutputFormat,
    pub sample_rate: u32,
    pub channels: u16,
    /// Whether the file is a 16-bit WAV of the samples as captured, written
    /// directly; otherwise an encoding pipeline converts and encodes them.
    pub direct_wav: bool,
}

/// The plan for samples captured in `captured`, written as `settings` ask:
/// each setting not given falls back to WAV, the captured rate, the captured
/// channel count.
pub open spec fn spec_recording_plan(captured: AudioFormat, settings: RecordSettings) -> RecordingPlan {
    let output = match settings.output {
        Some(f) => f,
        None => OutputFormat::Wav,
    };
    let sample_rate = match settings.sample_rate {
        Some(r) => r,
        None => captured.sample_rate,
    };
    let channels = match settings.channels {
        Some(c) => c,
        None => captured.channels,
    };
    RecordingPlan {
        output,
        sample_rate,
        channels,
        direct_wav: output == OutputFormat::Wav && sample_rate == captured.sample_rate && channels
            == captured.channels,
    }
}

/// The plan for a recording captured in `captured` and written as `settings` ask.
pub fn recording_plan(captured: AudioFormat, settings: RecordSettings) -> (r: RecordingPlan)
    ensures
        r == spec_recording_plan(captured, settings),
{
    let output = match settings.output {
        Some(f) => f,
        None => OutputFormat::Wav,
    };
    let sample_rate = match settings.sample_rate {
        Some(r) => r,
        None => captured.sample_rate,
    };
    let channels = match settings.channels {
        Some(c) => c,
        None => captured.channels,
    };
    let is_wav = match output {
        OutputFormat::Wav => true,
        _ => false,
    };
    RecordingPlan {
        output,
        sample_rate,
        channels,
        direct_wav: is_wav && sample_rate == captured.sample_rate && channels == captured.channels,
    }
}

/// The sample format the encoder is handed: 16-bit integers for WAV and FLAC,
/// left to negotiation for Vorbis.
pub open spec fn encoder_sample_caps(output: OutputFormat) -> Seq<char> {
    match output {
        OutputFormat::Wav => "format=S16LE,"@,
        OutputFormat::Flac => "format=S16LE,"@,
        OutputFormat::Ogg => ""@,
    }
}

/// The encoding elements of an output format.
pub open spec fn encoder_elements(output: OutputFormat) -> Seq<char> {
    match output {
        OutputFormat::Wav => "wavenc"@,
        OutputFormat::Flac => "flacenc ! flacparse"@,
        OutputFormat::Ogg => "vorbisenc ! oggmux"@,
    }
}

/// The pipeline that takes interleaved F32LE samples in `captured` from an
/// application source named `src`, converts them to the plan's rate and
/// channel count, encodes them and writes them to `path`.
pub open spec fn spec_encode_pipeline(captured: AudioFormat, plan: RecordingPlan, path: Seq<char>) -> Seq<char> {
    "appsrc name=src format=time caps=audio/x-raw,format=F32LE,rate="@ + decimal(captured.sample_rate as nat)
        + ",channels="@ + decimal(captured.channels as nat)
        + ",layout=interleaved ! audioconvert ! audioresample ! audio/x-raw,"@ + encoder_sample_caps(
        plan.output,
    ) + "rate="@ + decimal(plan.sample_rate as nat) + ",channels="@ + decimal(plan.channels as nat) + " ! "@
        + encoder_elements(plan.output) + " ! filesink location="@ + escape_spaces(path)
}

/// The description of the pipeline that encodes a recording per `plan`.
pub fn encode_pipeline(captured: AudioFormat, plan: RecordingPlan, path: &str) -> (r: String)
    ensures
        r@ == spec_encode_pipeline(captured, plan, path@),
{
    let mut d = String::from_str("appsrc name=src format=time caps=audio/x-raw,format=F32LE,rate=");
    push_decimal(&mut d, captured.sample_rate);
    d.append(",channels=");
    push_decimal(&mut d, captured.channels as u32);
    d.append(",layout=interleaved ! audioconvert ! audioresample ! audio/x-raw,");
    match plan.output {
        OutputFormat::Wav => d.append("format=S16LE,"),
        OutputFormat::Flac => d.append("format=S16LE,"),
        OutputFormat::Ogg => d.append(""),
    }
    d.append("rate=");
    push_decimal(&mut d, plan.sample_rate);
    d.append(",channels=");
    push_decimal(&mut d, plan.channels as u32);
    d.append(" ! ");
    match plan.output {
        OutputFormat::Wav => d.append("wavenc"),
        OutputFormat::Flac => d.append("flacenc ! flacparse"),
        OutputFormat::Ogg => d.append("vorbisenc ! oggmux"),
    }
    d.append(" ! filesink location=");
    let escaped = shell_escape(path);
    d.append(escaped.as_str());
    proof {
        assert(d@ =~= spec_encode_pipeline(captured, plan, path@));
    }
    d
}

/// Plan law: what a recording asks for is what it gets, and each thing it
/// leaves open falls back to WAV, the captured rate, the captured channel
/// count; the file is written directly exactly when it is a WAV at the
/// captured rate and channel count, so a FLAC or Ogg request is always
/// encoded.
pub proof fn law_recording_plan(captured: AudioFormat, settings: RecordSettings)
    ensures
        ({
            let plan = spec_recording_plan(captured, settings);
            &&& settings.output matches Some(f) ==> plan.output == f
            &&& settings.output is None ==> plan.output == OutputFormat::Wav
            &&& settings.sample_rate matches Some(r) ==> plan.sample_rate == r
            &&& settings.sample_rate is None ==> plan.sample_rate == captured.sample_rate
            &&& settings.channels matches Some(c) ==> plan.channels == c
            &&& settings.channels is None ==> plan.channels == captured.channels
            &&& plan.direct_wav <==> (plan.output == OutputFormat::Wav && plan.sample_rate == captured.sample_rate
                && plan.channels == captured.channels)
            &&& plan.output != OutputFormat::Wav ==> !plan.direct_wav
        }),
{
}

} // verus!
