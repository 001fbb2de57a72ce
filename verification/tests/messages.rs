use audiomock::audio::{OutputFormat, SampleFormat, WaveformKind};
use audiomock::device::{RecordSettings, StreamDirection};
use audiomock::messages::{command_for, outcome_response, DeviceCommand, Request, Response};

#[test]
fn create_fills_default_descriptions() {
    let cmd = command_for(Request::DevicesCreate {
        name: "test-dev".to_string(),
        source_description: None,
        sink_description: Some("Test Sink".to_string()),
    });
    match cmd {
        DeviceCommand::CreateDevice { name, source_description, sink_description } => {
            assert_eq!(name, "test-dev");
            assert_eq!(source_description, "test-dev Source");
            assert_eq!(sink_description, "Test Sink");
        }
        other => panic!("unexpected {other:?}"),
    }
}

#[test]
fn status_and_list_ask_for_devices() {
    assert!(matches!(command_for(Request::Status), DeviceCommand::ListDevices));
    assert!(matches!(command_for(Request::DevicesList), DeviceCommand::ListDevices));
}

#[test]
fn generate_passes_tone_parameters() {
    let cmd = command_for(Request::Generate {
        device: "default".to_string(),
        waveform: WaveformKind::Square,
        frequency_bits: 1000.0f64.to_bits(),
        volume_bits: 0.5f32.to_bits(),
        duration_secs_bits: Some(1.0f64.to_bits()),
        continuous: false,
    });
    match cmd {
        DeviceCommand::StartTone { device, waveform, frequency_bits, volume_bits, duration_secs_bits } => {
            assert_eq!(device, "default");
            assert_eq!(waveform, WaveformKind::Square);
            assert_eq!(f64::from_bits(frequency_bits), 1000.0);
            assert_eq!(f32::from_bits(volume_bits), 0.5);
            assert_eq!(duration_secs_bits, Some(1.0f64.to_bits()));
        }
        other => panic!("unexpected {other:?}"),
    }
}

#[test]
fn record_and_stream_keep_their_formats() {
    let cmd = command_for(Request::Record {
        device: "default".to_string(),
        file_path: "/tmp/r.flac".to_string(),
        format: Some(OutputFormat::Flac),
        duration_secs_bits: None,
        sample_rate: Some(44100),
        channels: Some(1),
    });
    match cmd {
        DeviceCommand::StartRecord { device, file_path, settings } => {
            assert_eq!(device, "default");
            assert_eq!(file_path, "/tmp/r.flac");
            assert_eq!(settings, RecordSettings { output: Some(OutputFormat::Flac), sample_rate: Some(44100), channels: Some(1) });
        }
        other => panic!("unexpected {other:?}"),
    }
    let cmd = command_for(Request::StreamStart {
        device: "default".to_string(),
        direction: StreamDirection::In,
        sample_rate: 48000,
        channels: 2,
        sample_format: SampleFormat::S16LE,
    });
    match cmd {
        DeviceCommand::StartStream { device, direction, sample_rate, channels, sample_format } => {
            assert_eq!(device, "default");
            assert_eq!(direction, StreamDirection::In);
            assert_eq!(sample_rate, 48000);
            assert_eq!(channels, 2);
            assert_eq!(sample_format, SampleFormat::S16LE);
        }
        other => panic!("unexpected {other:?}"),
    }
}

#[test]
fn outcomes_become_responses() {
    let stop = command_for(Request::Stop { device: "default".to_string() });
    assert!(matches!(outcome_response(stop, Ok(())), Response::Stopped { device } if device == "default"));
    let stop = command_for(Request::Stop { device: "ghost".to_string() });
    assert!(matches!(
        outcome_response(stop, Err("Device 'ghost' not found".to_string())),
        Response::Error { message } if message == "Device 'ghost' not found"
    ));
    let play = command_for(Request::Play {
        device: "default".to_string(),
        file_path: "/tmp/p.wav".to_string(),
        loop_count: None,
        volume_bits: 1.0f32.to_bits(),
    });
    assert!(matches!(outcome_response(play, Ok(())), Response::PlayStarted { device } if device == "default"));
    let destroy = command_for(Request::DevicesDestroy { name: "x".to_string() });
    assert!(matches!(outcome_response(destroy, Ok(())), Response::DeviceDestroyed { name } if name == "x"));
}
