use audiomock::audio::{AudioFormat, OutputFormat, SampleFormat, WaveformKind};

#[test]
fn bytes_per_sample() {
    assert_eq!(SampleFormat::S16LE.bytes_per_sample(), 2);
    assert_eq!(SampleFormat::S32LE.bytes_per_sample(), 4);
    assert_eq!(SampleFormat::F32LE.bytes_per_sample(), 4);
}

#[test]
fn default_audio_format() {
    let f = AudioFormat::default();
    assert_eq!(f.sample_rate, 48000);
    assert_eq!(f.channels, 2);
    assert_eq!(f.sample_format, SampleFormat::F32LE);
}

#[test]
fn display_names() {
    assert_eq!(SampleFormat::S16LE.as_str(), "S16LE");
    assert_eq!(SampleFormat::S32LE.as_str(), "S32LE");
    assert_eq!(SampleFormat::F32LE.as_str(), "F32LE");
    assert_eq!(WaveformKind::Sine.as_str(), "sine");
    assert_eq!(WaveformKind::Square.as_str(), "square");
    assert_eq!(WaveformKind::Sawtooth.as_str(), "sawtooth");
    assert_eq!(WaveformKind::Noise.as_str(), "noise");
    assert_eq!(OutputFormat::Wav.as_str(), "wav");
    assert_eq!(OutputFormat::Flac.as_str(), "flac");
    assert_eq!(OutputFormat::Ogg.as_str(), "ogg");
}

#[test]
fn from_extension_ignores_case() {
    assert_eq!(OutputFormat::from_extension("wav"), Some(OutputFormat::Wav));
    assert_eq!(OutputFormat::from_extension("WAV"), Some(OutputFormat::Wav));
    assert_eq!(OutputFormat::from_extension("Flac"), Some(OutputFormat::Flac));
    assert_eq!(OutputFormat::from_extension("ogg"), Some(OutputFormat::Ogg));
    assert_eq!(OutputFormat::from_extension("OGA"), Some(OutputFormat::Ogg));
    assert_eq!(OutputFormat::from_extension("mp3"), None);
    assert_eq!(OutputFormat::from_extension(""), None);
}

#[test]
fn from_lowercase_extension_is_exact() {
    assert_eq!(OutputFormat::from_lowercase_extension("oga"), Some(OutputFormat::Ogg));
    assert_eq!(OutputFormat::from_lowercase_extension("WAV"), None);
}
