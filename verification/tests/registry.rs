use audiomock::audio::{AudioFormat, SampleFormat, WaveformKind};
use audiomock::audio::OutputFormat;
use audiomock::device::{ActiveJob, DevicePair, RecordSettings, SourceMode, StreamDirection, FREQUENCY_440_BITS};
use audiomock::registry::DeviceRegistry;

fn format() -> AudioFormat {
    AudioFormat { sample_rate: 48000, channels: 2, sample_format: SampleFormat::F32LE }
}

fn plain() -> RecordSettings {
    RecordSettings { output: None, sample_rate: None, channels: None }
}

fn with_default() -> DeviceRegistry<u32> {
    let mut reg = DeviceRegistry::new();
    reg.create("default", "Virtual Mic", "Virtual Speaker", format()).unwrap();
    reg
}

fn job_of(reg: &DeviceRegistry<u32>, name: &str) -> Option<ActiveJob> {
    reg.list().into_iter().find(|d| d.name == name).unwrap().active_job
}

#[test]
fn device_lifecycle() {
    let mut reg = with_default();
    assert_eq!(reg.create("test-dev", "Test Source", "Test Sink", format()), Ok(()));
    let names: Vec<String> = reg.list().into_iter().map(|d| d.name).collect();
    assert_eq!(names, vec!["default".to_string(), "test-dev".to_string()]);
    assert_eq!(
        reg.create("test-dev", "test-dev Source", "test-dev Sink", format()),
        Err("Device 'test-dev' already exists".to_string())
    );
    assert_eq!(reg.destroy("test-dev"), Ok(()));
    assert_eq!(reg.list().len(), 1);
    assert_eq!(reg.destroy("nope"), Err("Device 'nope' not found".to_string()));
}

#[test]
fn status_reports_default_device() {
    let reg = with_default();
    let list = reg.list();
    assert_eq!(list.len(), 1);
    assert_eq!(list[0].name, "default");
    assert_eq!(list[0].source_description, "Virtual Mic");
    assert_eq!(list[0].sink_description, "Virtual Speaker");
    assert_eq!(list[0].format, format());
    assert!(list[0].active_job.is_none());
}

#[test]
fn tone_reported_then_stopped() {
    let mut reg = with_default();
    let vol = 0.8f32.to_bits();
    assert_eq!(reg.start_tone("default", WaveformKind::Sine, FREQUENCY_440_BITS, vol, None), Ok(()));
    match job_of(&reg, "default") {
        Some(ActiveJob::Tone { waveform, frequency_bits, volume_bits }) => {
            assert_eq!(waveform, WaveformKind::Sine);
            assert_eq!(f64::from_bits(frequency_bits), 440.0);
            assert_eq!(volume_bits, vol);
        }
        other => panic!("Expected Tone, got {other:?}"),
    }
    assert!(matches!(reg.stop_job("default"), Ok(None)));
    assert!(job_of(&reg, "default").is_none());
}

#[test]
fn different_frequencies_are_reported() {
    let mut reg = with_default();
    for freq in [220.0f64, 440.0, 880.0, 1000.0, 4000.0] {
        reg.start_tone("default", WaveformKind::Sine, freq.to_bits(), 0.7f32.to_bits(), None).unwrap();
        match job_of(&reg, "default") {
            Some(ActiveJob::Tone { frequency_bits, .. }) => assert_eq!(f64::from_bits(frequency_bits), freq),
            other => panic!("Expected Tone job at {freq}Hz, got: {other:?}"),
        }
        reg.stop_job("default").unwrap();
    }
}

#[test]
fn commands_on_missing_device_fail() {
    let mut reg = with_default();
    assert!(matches!(reg.stop_job("does-not-exist"), Err(e) if e == "Device 'does-not-exist' not found"));
    assert_eq!(
        reg.start_tone("ghost", WaveformKind::Sine, FREQUENCY_440_BITS, 1.0f32.to_bits(), Some(48000)),
        Err("Device 'ghost' not found".to_string())
    );
    assert_eq!(reg.start_recording("ghost", "/tmp/x.wav", plain()), Err("Device 'ghost' not found".to_string()));
    assert_eq!(reg.start_stream("ghost", StreamDirection::In, 1), Err("Device 'ghost' not found".to_string()));
    assert_eq!(
        reg.start_playback("ghost", "/tmp/x.wav", None, 1.0f32.to_bits(), vec![]),
        Err("Device 'ghost' not found".to_string())
    );
    assert_eq!(reg.format_of("ghost"), None);
    assert_eq!(reg.source_mode("ghost"), None);
}

#[test]
fn multiple_devices_independent() {
    let mut reg = with_default();
    reg.create("dev-b", "Dev B Source", "Dev B Sink", format()).unwrap();
    reg.start_tone("default", WaveformKind::Sine, 440.0f64.to_bits(), 0.8f32.to_bits(), None).unwrap();
    reg.start_tone("dev-b", WaveformKind::Square, 880.0f64.to_bits(), 0.5f32.to_bits(), None).unwrap();
    assert!(reg.list().iter().all(|d| d.active_job.is_some()));
    reg.stop_job("default").unwrap();
    assert!(job_of(&reg, "default").is_none());
    assert!(job_of(&reg, "dev-b").is_some());
}

#[test]
fn stop_clears_both_source_and_sink() {
    let mut reg = with_default();
    reg.start_tone("default", WaveformKind::Sine, 440.0f64.to_bits(), 1.0f32.to_bits(), None).unwrap();
    reg.start_recording("default", "/tmp/test.wav", plain()).unwrap();
    assert!(matches!(job_of(&reg, "default"), Some(ActiveJob::Tone { .. })));
    reg.stop_job("default").unwrap();
    assert!(job_of(&reg, "default").is_none());
}

#[test]
fn recording_is_flushed_on_stop() {
    let mut reg = with_default();
    reg.start_recording("default", "/tmp/rec.wav", plain()).unwrap();
    assert!(matches!(job_of(&reg, "default"), Some(ActiveJob::Recording { file_path }) if file_path == "/tmp/rec.wav"));
    assert!(reg.capture("default", &[1, 2, 3]));
    assert!(reg.capture("default", &[4]));
    let flush = reg.stop_job("default").unwrap().expect("recording to flush");
    assert_eq!(flush.samples, vec![1, 2, 3, 4]);
    assert_eq!(flush.path, "/tmp/rec.wav");
    assert_eq!(flush.format, format());
}

#[test]
fn recording_buffer_cleared_on_start() {
    let mut reg = with_default();
    reg.start_recording("default", "/tmp/first.wav", plain()).unwrap();
    reg.capture("default", &[9, 9, 9]);
    reg.start_recording("default", "/tmp/second.wav", plain()).unwrap();
    reg.capture("default", &[5]);
    let flush = reg.stop_job("default").unwrap().unwrap();
    assert_eq!(flush.samples, vec![5]);
    assert_eq!(flush.path, "/tmp/second.wav");
}

#[test]
fn empty_recording_is_not_flushed() {
    let mut reg = with_default();
    reg.start_recording("default", "/tmp/empty.wav", plain()).unwrap();
    assert!(matches!(reg.stop_job("default"), Ok(None)));
}

#[test]
fn idle_sink_takes_nothing() {
    let mut reg = with_default();
    assert!(!reg.capture("default", &[1, 2]));
    assert!(!reg.capture("missing", &[1, 2]));
}

#[test]
fn rapid_start_stop_cycles() {
    let mut reg = with_default();
    for i in 0..10 {
        let freq = 440.0 + i as f64 * 100.0;
        reg.start_tone("default", WaveformKind::Sine, freq.to_bits(), 0.5f32.to_bits(), None).unwrap();
        reg.stop_job("default").unwrap();
    }
    assert!(job_of(&reg, "default").is_none());
}

#[test]
fn tone_with_duration_ends() {
    let mut reg = with_default();
    reg.start_tone("default", WaveformKind::Square, 1000.0f64.to_bits(), 0.5f32.to_bits(), Some(1000)).unwrap();
    assert_eq!(reg.source_mode("default"), Some(SourceMode::Tone));
    assert!(reg.finish_tone_block("default", 512, 7));
    assert_eq!(reg.source_mode("default"), Some(SourceMode::Tone));
    assert_eq!(reg.source_state("default").unwrap().tone_phase_bits, 7);
    assert!(reg.finish_tone_block("default", 512, 9));
    assert_eq!(reg.source_mode("default"), Some(SourceMode::Silence));
    assert!(job_of(&reg, "default").is_none());
    assert!(!reg.finish_tone_block("nope", 1, 0));
}

#[test]
fn playback_once_then_silence() {
    let mut reg = with_default();
    reg.start_playback("default", "/tmp/a.wav", None, 1.0f32.to_bits(), vec![10, 11, 12]).unwrap();
    match job_of(&reg, "default") {
        Some(ActiveJob::Playback { file_path, looping, .. }) => {
            assert_eq!(file_path, "/tmp/a.wav");
            assert!(!looping);
        }
        other => panic!("Expected Playback, got {other:?}"),
    }
    let block = reg.render_playback("default", 2, 2).unwrap();
    assert_eq!(block, vec![Some(10), Some(11), None, None]);
    assert!(job_of(&reg, "default").is_none());
    assert_eq!(reg.render_playback("default", 2, 2), None);
}

#[test]
fn playback_loops_counted_passes() {
    let mut reg = with_default();
    reg.start_playback("default", "/tmp/b.wav", Some(2), 1.0f32.to_bits(), vec![1, 2]).unwrap();
    assert!(matches!(job_of(&reg, "default"), Some(ActiveJob::Playback { looping: true, .. })));
    assert_eq!(reg.render_playback("default", 3, 1).unwrap(), vec![Some(1), Some(2), Some(1)]);
    assert!(job_of(&reg, "default").is_some());
    assert_eq!(reg.render_playback("default", 3, 1).unwrap(), vec![Some(2), None, None]);
    assert!(job_of(&reg, "default").is_none());
}

#[test]
fn playback_single_pass_count_is_not_looping() {
    let mut reg = with_default();
    reg.start_playback("default", "/tmp/c.wav", Some(1), 1.0f32.to_bits(), vec![3]).unwrap();
    assert!(matches!(job_of(&reg, "default"), Some(ActiveJob::Playback { looping: false, .. })));
    assert_eq!(reg.render_playback("default", 2, 1).unwrap(), vec![Some(3), None]);
    assert!(job_of(&reg, "default").is_none());
}

#[test]
fn playback_loops_forever_with_zero() {
    let mut reg = with_default();
    reg.start_playback("default", "/tmp/d.wav", Some(0), 1.0f32.to_bits(), vec![4, 5]).unwrap();
    assert_eq!(
        reg.render_playback("default", 3, 2).unwrap(),
        vec![Some(4), Some(5), Some(4), Some(5), Some(4), Some(5)]
    );
    assert!(job_of(&reg, "default").is_some());
}

#[test]
fn playback_of_empty_buffer_is_silence() {
    let mut reg = with_default();
    reg.start_playback("default", "/tmp/e.wav", None, 1.0f32.to_bits(), vec![]).unwrap();
    assert_eq!(reg.render_playback("default", 2, 2).unwrap(), vec![None, None, None, None]);
    assert!(job_of(&reg, "default").is_some());
}

#[test]
fn streaming_buffers() {
    let mut reg = with_default();
    reg.start_stream("default", StreamDirection::In, 7).unwrap();
    assert_eq!(reg.source_mode("default"), Some(SourceMode::StreamIn));
    assert_eq!(reg.stream_in_buffer("default"), Some(&7));
    assert!(matches!(job_of(&reg, "default"), Some(ActiveJob::Streaming { direction: StreamDirection::In })));
    reg.start_stream("default", StreamDirection::Out, 8).unwrap();
    assert_eq!(reg.stream_out_buffer("default"), Some(&8));
    assert!(reg.capture("default", &[1]));
    reg.stop_job("default").unwrap();
    assert_eq!(reg.stream_in_buffer("default"), None);
    assert_eq!(reg.stream_out_buffer("default"), None);
    assert_eq!(reg.source_mode("default"), Some(SourceMode::Silence));
}

#[test]
fn recording_settings_reach_the_flush() {
    let mut reg = with_default();
    let settings = RecordSettings { output: Some(OutputFormat::Flac), sample_rate: Some(44100), channels: Some(1) };
    reg.start_recording("default", "/tmp/r.flac", settings).unwrap();
    reg.capture("default", &[7, 8]);
    let flush = reg.stop_job("default").unwrap().unwrap();
    assert_eq!(flush.settings, settings);
    assert_eq!(flush.format, format());
    assert_eq!(flush.samples, vec![7, 8]);
}

#[test]
fn replace_puts_new_pair_last() {
    let mut reg = with_default();
    reg.create("b", "B Source", "B Sink", format()).unwrap();
    reg.start_tone("default", WaveformKind::Sine, 440.0f64.to_bits(), 1.0f32.to_bits(), None).unwrap();
    assert!(reg.replace(DevicePair::new("default", "Mic 2", "Speaker 2", format())));
    let list = reg.list();
    let names: Vec<String> = list.iter().map(|d| d.name.clone()).collect();
    assert_eq!(names, vec!["b".to_string(), "default".to_string()]);
    assert_eq!(list[1].source_description, "Mic 2");
    assert!(list[1].active_job.is_none());
    assert!(!reg.replace(DevicePair::new("c", "C Source", "C Sink", format())));
    assert_eq!(reg.list().len(), 3);
}

#[test]
fn playback_blocks_keep_the_buffer_and_tone() {
    let mut reg = with_default();
    reg.start_tone("default", WaveformKind::Square, 1000.0f64.to_bits(), 0.5f32.to_bits(), None).unwrap();
    reg.start_playback("default", "/tmp/p.wav", Some(0), 1.0f32.to_bits(), vec![1, 2, 3]).unwrap();
    for _ in 0..3 {
        assert!(reg.render_playback("default", 2, 2).is_some());
        let st = reg.source_state("default").unwrap();
        assert_eq!(st.playback_buffer, vec![1, 2, 3]);
        assert_eq!(f64::from_bits(st.tone_frequency_bits), 1000.0);
        assert_eq!(st.tone_waveform, WaveformKind::Square);
    }
}
