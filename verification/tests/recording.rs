use audiomock::audio::{AudioFormat, OutputFormat, SampleFormat};
use audiomock::device::RecordSettings;
use audiomock::recording::{encode_pipeline, recording_plan, RecordingPlan};

fn captured() -> AudioFormat {
    AudioFormat { sample_rate: 48000, channels: 2, sample_format: SampleFormat::F32LE }
}

#[test]
fn plan_defaults_to_direct_wav() {
    let plan = recording_plan(captured(), RecordSettings { output: None, sample_rate: None, channels: None });
    assert_eq!(plan, RecordingPlan { output: OutputFormat::Wav, sample_rate: 48000, channels: 2, direct_wav: true });
    let plan = recording_plan(
        captured(),
        RecordSettings { output: Some(OutputFormat::Wav), sample_rate: Some(48000), channels: Some(2) },
    );
    assert!(plan.direct_wav);
}

#[test]
fn plan_honours_requested_format_rate_and_channels() {
    let plan = recording_plan(
        captured(),
        RecordSettings { output: Some(OutputFormat::Flac), sample_rate: None, channels: Some(1) },
    );
    assert_eq!(plan, RecordingPlan { output: OutputFormat::Flac, sample_rate: 48000, channels: 1, direct_wav: false });
    let plan = recording_plan(
        captured(),
        RecordSettings { output: None, sample_rate: Some(44100), channels: None },
    );
    assert_eq!(plan, RecordingPlan { output: OutputFormat::Wav, sample_rate: 44100, channels: 2, direct_wav: false });
}

#[test]
fn pipeline_descriptions() {
    let flac = RecordingPlan { output: OutputFormat::Flac, sample_rate: 44100, channels: 1, direct_wav: false };
    assert_eq!(
        encode_pipeline(captured(), flac, "/tmp/my rec.flac"),
        "appsrc name=src format=time caps=audio/x-raw,format=F32LE,rate=48000,channels=2,layout=interleaved ! \
         audioconvert ! audioresample ! audio/x-raw,format=S16LE,rate=44100,channels=1 ! flacenc ! flacparse ! \
         filesink location=/tmp/my\\ rec.flac"
    );
    let ogg = RecordingPlan { output: OutputFormat::Ogg, sample_rate: 48000, channels: 2, direct_wav: false };
    assert_eq!(
        encode_pipeline(captured(), ogg, "/tmp/r.ogg"),
        "appsrc name=src format=time caps=audio/x-raw,format=F32LE,rate=48000,channels=2,layout=interleaved ! \
         audioconvert ! audioresample ! audio/x-raw,rate=48000,channels=2 ! vorbisenc ! oggmux ! \
         filesink location=/tmp/r.ogg"
    );
    let wav = RecordingPlan { output: OutputFormat::Wav, sample_rate: 8000, channels: 1, direct_wav: false };
    assert!(encode_pipeline(captured(), wav, "/tmp/r.wav").contains("format=S16LE,rate=8000,channels=1 ! wavenc ! filesink"));
}
