use audiomock::config::{
    default_buffer_size, default_channels, default_log_level, default_sample_format,
    default_sample_rate, default_sink_description, default_socket_path,
    default_source_description, AudioSection, DaemonConfig, DaemonSection, DevicePairConfig,
};
use audiomock::audio::SampleFormat;

#[test]
fn section_defaults() {
    assert_eq!(default_log_level(), "info");
    assert_eq!(default_sample_rate(), 48000);
    assert_eq!(default_channels(), 2);
    assert_eq!(default_sample_format(), "F32LE");
    assert_eq!(default_buffer_size(), 1024);
    let d = DaemonSection::default();
    assert_eq!(d.socket_path, None);
    assert_eq!(d.log_level, "info");
    let a = AudioSection::default();
    assert_eq!(a.default_sample_rate, 48000);
    assert_eq!(a.default_channels, 2);
    assert_eq!(a.default_sample_format, "F32LE");
    assert_eq!(a.buffer_size, 1024);
}

#[test]
fn default_config_has_default_pair() {
    let c = DaemonConfig::default();
    assert_eq!(c.device_pairs.len(), 1);
    assert_eq!(c.device_pairs[0].name, "default");
    assert_eq!(c.device_pairs[0].source_description.as_deref(), Some("Virtual Mic"));
    assert_eq!(c.device_pairs[0].sink_description.as_deref(), Some("Virtual Speaker"));
    assert_eq!(c.device_pairs[0].auto_link_pattern, None);
}

#[test]
fn socket_paths() {
    assert_eq!(default_socket_path(Some("/run/user/1000")), "/run/user/1000/audiomockd.sock");
    assert_eq!(default_socket_path(None), "/tmp/audiomockd.sock");
    let mut c = DaemonConfig::default();
    assert_eq!(c.socket_path(None), "/tmp/audiomockd.sock");
    assert_eq!(c.socket_path(Some("/run/x")), "/run/x/audiomockd.sock");
    c.daemon.socket_path = Some("/var/mock.sock".to_string());
    assert_eq!(c.socket_path(Some("/run/x")), "/var/mock.sock");
}

#[test]
fn pair_descriptions() {
    assert_eq!(default_source_description("qemu"), "qemu Source");
    assert_eq!(default_sink_description("qemu"), "qemu Sink");
    let p = DevicePairConfig {
        name: "dev".to_string(),
        source_description: None,
        sink_description: Some("Speaker".to_string()),
        auto_link_pattern: None,
    };
    assert_eq!(p.source_description_or_default(), "dev Source");
    assert_eq!(p.sink_description_or_default(), "Speaker");
}

#[test]
fn device_format_is_float() {
    let mut a = AudioSection::default();
    a.default_sample_rate = 44100;
    a.default_channels = 1;
    a.default_sample_format = "S16LE".to_string();
    let f = a.device_format();
    assert_eq!(f.sample_rate, 44100);
    assert_eq!(f.channels, 1);
    assert_eq!(f.sample_format, SampleFormat::F32LE);
}
