use audiomock::audio::{OutputFormat, SampleFormat, WaveformKind};
use audiomock::cli::{parse_direction, parse_stream_format, parse_waveform, resolve_record_format};
use audiomock::device::StreamDirection;

#[test]
fn waveform_names() {
    assert_eq!(parse_waveform("sine"), Ok(WaveformKind::Sine));
    assert_eq!(parse_waveform("SQUARE"), Ok(WaveformKind::Square));
    assert_eq!(parse_waveform("saw"), Ok(WaveformKind::Sawtooth));
    assert_eq!(parse_waveform("Sawtooth"), Ok(WaveformKind::Sawtooth));
    assert_eq!(parse_waveform("white"), Ok(WaveformKind::Noise));
    assert_eq!(parse_waveform("noise"), Ok(WaveformKind::Noise));
    assert_eq!(
        parse_waveform("Triangle"),
        Err("Unknown waveform: triangle. Use: sine, square, sawtooth, noise".to_string())
    );
}

#[test]
fn direction_names() {
    assert_eq!(parse_direction("in"), Ok(StreamDirection::In));
    assert_eq!(parse_direction("OUT"), Ok(StreamDirection::Out));
    assert_eq!(parse_direction("up"), Err("Unknown direction: up. Use: in, out".to_string()));
}

#[test]
fn stream_format_names() {
    assert_eq!(parse_stream_format("f32le"), Ok(SampleFormat::F32LE));
    assert_eq!(parse_stream_format("S16LE"), Ok(SampleFormat::S16LE));
    assert_eq!(
        parse_stream_format("s32le"),
        Err("Unknown format: s32le. Use: s16le, f32le".to_string())
    );
}

#[test]
fn record_format_named_or_inferred() {
    assert_eq!(resolve_record_format(Some("FLAC"), "/tmp/a.wav"), Ok(Some(OutputFormat::Flac)));
    assert_eq!(
        resolve_record_format(Some("oga"), "/tmp/a.wav"),
        Err("Unknown format: oga. Use: wav, flac, ogg".to_string())
    );
    assert_eq!(resolve_record_format(None, "/tmp/a.OGA"), Ok(Some(OutputFormat::Ogg)));
    assert_eq!(resolve_record_format(None, "capture.wav"), Ok(Some(OutputFormat::Wav)));
    assert_eq!(resolve_record_format(None, "capture.mp3"), Ok(None));
    assert_eq!(resolve_record_format(None, "capture"), Ok(None));
    assert_eq!(resolve_record_format(None, "/tmp/.hidden"), Ok(None));
    assert_eq!(resolve_record_format(None, "/tmp/dir.d/take"), Ok(None));
    assert_eq!(resolve_record_format(None, "/tmp/out.FLAC/"), Ok(Some(OutputFormat::Flac)));
}
