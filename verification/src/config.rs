//! Daemon configuration: its sections, their defaults, and the values the
//! daemon derives from them.
use vstd::prelude::*;
use vstd::string::*;

use crate::audio::{AudioFormat, SampleFormat};

verus! {

/// Top-level daemon configuration.
#[derive(Debug, Clone)]
pub struct DaemonConfig {
    pub daemon: DaemonSection,
    pub audio: AudioSection,
    pub device_pairs: Vec<DevicePairConfig>,
}

/// The `[daemon]` section.
#[derive(Debug, Clone)]
pub struct DaemonSection {
    pub socket_path: Option<String>,
    pub log_level: String,
}

/// The `[audio]` section.
#[derive(Debug, Clone)]
pub struct AudioSection {
    pub default_sample_rate: u32,
    pub default_channels: u16,
    pub default_sample_format: String,
    pub buffer_size: u32,
}

/// One `[[device_pairs]]` entry.
#[derive(Debug, Clone)]
pub struct DevicePairConfig {
    pub name: String,
    pub source_description: Option<String>,
    pub sink_description: Option<String>,
    pub auto_link_pattern: Option<String>,
}

/// The daemon section as it is when the configuration leaves it out.
pub open spec fn is_default_daemon_section(s: DaemonSection) -> bool {
    &&& s.socket_path is None
    &&& s.log_level@ == "info"@
}

/// The audio section as it is when the configuration leaves it out.
pub open spec fn is_default_audio_section(s: AudioSection) -> bool {
    &&& s.default_sample_rate == 48000
    &&& s.default_channels == 2
    &&& s.default_sample_format@ == "F32LE"@
    &&& s.buffer_size == 1024
}

/// The configuration used when no file is given: default sections and the
/// single device pair `default` ("Virtual Mic" / "Virtual Speaker").
pub open spec fn is_default_config(c: DaemonConfig) -> bool {
    &&& is_default_daemon_section(c.daemon)
    &&& is_default_audio_section(c.audio)
    &&& c.device_pairs.len() == 1
    &&& c.device_pairs[0].name@ == "default"@
    &&& c.device_pairs[0].source_description matches Some(d) && d@ == "Virtual Mic"@
    &&& c.device_pairs[0].sink_description matches Some(d) && d@ == "Virtual Speaker"@
    &&& c.device_pairs[0].auto_link_pattern is None
}

/// Default log level: `"info"`.
pub fn default_log_level() -> (r: String)
    ensures
        r@ == "info"@,
{
    String::from_str("info")
}

/// Default sample rate: 48000 Hz.
pub fn default_sample_rate() -> (r: u32)
    ensures
        r == 48000,
{
    48000
}

/// Default channel count: 2.
pub fn default_channels() -> (r: u16)
    ensures
        r == 2,
{
    2
}

/// Default sample format name: `"F32LE"`.
pub fn default_sample_format() -> (r: String)
    ensures
        r@ == "F32LE"@,
{
    String::from_str("F32LE")
}

/// Default buffer size: 1024 frames.
pub fn default_buffer_size() -> (r: u32)
    ensures
        r == 1024,
{
    1024
}

impl Default for DaemonSection {
    fn default() -> (r: Self)
        ensures
            is_default_daemon_section(r),
    {
        DaemonSection { socket_path: None, log_level: default_log_level() }
    }
}

impl Default for AudioSection {
    fn default() -> (r: Self)
        ensures
            is_default_audio_section(r),
    {
        AudioSection {
            default_sample_rate: default_sample_rate(),
            default_channels: default_channels(),
            default_sample_format: default_sample_format(),
            buffer_size: default_buffer_size(),
        }
    }
}

impl Default for DaemonConfig {
    fn default() -> (r: Self)
        ensures
            is_default_config(r),
    {
        let pair = DevicePairConfig {
            name: String::from_str("default"),
            source_description: Some(String::from_str("Virtual Mic")),
            sink_description: Some(String::from_str("Virtual Speaker")),
            auto_link_pattern: None,
        };
        let mut device_pairs = Vec::new();
        device_pairs.push(pair);
        DaemonConfig {
            daemon: DaemonSection::default(),
            audio: AudioSection::default(),
            device_pairs,
        }
    }
}

/// The socket path used when the configuration names none: inside the
/// runtime directory when one is known, else under `/tmp`.
pub open spec fn spec_default_socket_path(xdg_runtime_dir: Option<Seq<char>>) -> Seq<char> {
    match xdg_runtime_dir {
        Some(dir) => dir + "/audiomockd.sock"@,
        None => "/tmp/audiomockd.sock"@,
    }
}

/// The characters of an optional string slice.
pub open spec fn opt_view(s: Option<&str>) -> Option<Seq<char>> {
    match s {
        Some(x) => Some(x@),
        None => None,
    }
}

/// The daemon's socket path, given the value of `XDG_RUNTIME_DIR` if it is set.
pub fn default_socket_path(xdg_runtime_dir: Option<&str>) -> (r: String)
    ensures
        r@ == spec_default_socket_path(opt_view(xdg_runtime_dir)),
{
    match xdg_runtime_dir {
        Some(dir) => {
            let mut path = String::from_str(dir);
            path.append("/audiomockd.sock");
            path
        },
        None => String::from_str("/tmp/audiomockd.sock"),
    }
}

/// The source and sink descriptions used for a device pair when none is given.
pub open spec fn spec_source_description(name: Seq<char>) -> Seq<char> {
    name + " Source"@
}

/// The sink description used for a device pair when none is given.
pub open spec fn spec_sink_description(name: Seq<char>) -> Seq<char> {
    name + " Sink"@
}

/// `"{name} Source"`.
pub fn default_source_description(name: &str) -> (r: String)
    ensures
        r@ == spec_source_description(name@),
{
    let mut s = String::from_str(name);
    s.append(" Source");
    s
}

/// `"{name} Sink"`.
pub fn default_sink_description(name: &str) -> (r: String)
    ensures
        r@ == spec_sink_description(name@),
{
    let mut s = String::from_str(name);
    s.append(" Sink");
    s
}

impl DaemonConfig {
    /// The socket path: the configured one if any, else the default for the
    /// given `XDG_RUNTIME_DIR` value.
    pub fn socket_path(&self, xdg_runtime_dir: Option<&str>) -> (r: String)
        ensures
            r@ == match self.daemon.socket_path {
                Some(p) => p@,
                None => spec_default_socket_path(opt_view(xdg_runtime_dir)),
            },
    {
        match &self.daemon.socket_path {
            Some(path) => path.clone(),
            None => default_socket_path(xdg_runtime_dir),
        }
    }
}

impl DevicePairConfig {
    /// The configured source description, or `"{name} Source"`.
    pub fn source_description_or_default(&self) -> (r: String)
        ensures
            r@ == match self.source_description {
                Some(d) => d@,
                None => spec_source_description(self.name@),
            },
    {
        match &self.source_description {
            Some(d) => d.clone(),
            None => default_source_description(self.name.as_str()),
        }
    }

    /// The configured sink description, or `"{name} Sink"`.
    pub fn sink_description_or_default(&self) -> (r: String)
        ensures
            r@ == match self.sink_description {
                Some(d) => d@,
                None => spec_sink_description(self.name@),
            },
    {
        match &self.sink_description {
            Some(d) => d.clone(),
            None => default_sink_description(self.name.as_str()),
        }
    }
}

impl AudioSection {
    /// The format given to every device pair: the configured rate and channel
    /// count, always as 32-bit float samples.
    pub fn device_format(&self) -> (r: AudioFormat)
        ensures
            r.sample_rate == self.default_sample_rate,
            r.channels == self.default_channels,
            r.sample_format == SampleFormat::F32LE,
    {
        AudioFormat {
            sample_rate: self.default_sample_rate,
            channels: self.default_channels,
            sample_format: SampleFormat::F32LE,
        }
    }
}

/// Default naming law: the socket is always a file named `audiomockd.sock`,
/// in the runtime directory when one is known and in `/tmp` otherwise; a
/// pair's default descriptions are its name followed by ` Source` and
/// ` Sink`, so they always differ.
pub proof fn law_default_names(xdg_runtime_dir: Option<Seq<char>>, name: Seq<char>)
    ensures
        ({
            let p = spec_default_socket_path(xdg_runtime_dir);
            &&& p.len() >= 16
            &&& p.subrange(p.len() - 16, p.len() as int) == "/audiomockd.sock"@
            &&& xdg_runtime_dir matches Some(d) ==> p.subrange(0, d.len() as int) == d && p.len() == d.len() + 16
            &&& xdg_runtime_dir is None ==> p == "/tmp/audiomockd.sock"@
        }),
        spec_source_description(name).subrange(0, name.len() as int) == name,
        spec_source_description(name).subrange(name.len() as int, spec_source_description(name).len() as int) == " Source"@,
        spec_sink_description(name).subrange(0, name.len() as int) == name,
        spec_sink_description(name).subrange(name.len() as int, spec_sink_description(name).len() as int) == " Sink"@,
        spec_source_description(name) != spec_sink_description(name),
{
    reveal_strlit("/audiomockd.sock");
    reveal_strlit("/tmp/audiomockd.sock");
    reveal_strlit(" Source");
    reveal_strlit(" Sink");
    let p = spec_default_socket_path(xdg_runtime_dir);
    match xdg_runtime_dir {
        Some(d) => {
            assert(p.subrange(p.len() - 16, p.len() as int) =~= "/audiomockd.sock"@);
            assert(p.subrange(0, d.len() as int) =~= d);
        },
        None => {
            assert(p.subrange(p.len() - 16, p.len() as int) =~= "/audiomockd.sock"@);
        },
    }
    let so = spec_source_description(name);
    let si = spec_sink_description(name);
    assert(so.subrange(0, name.len() as int) =~= name);
    assert(so.subrange(name.len() as int, so.len() as int) =~= " Source"@);
    assert(si.subrange(0, name.len() as int) =~= name);
    assert(si.subrange(name.len() as int, si.len() as int) =~= " Sink"@);
    assert(so.len() != si.len());
}

} // verus!
