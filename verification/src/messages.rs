//! Requests from the client to the daemon, the responses it sends back, and
//! what the daemon makes of them: the command it runs on its device registry
//! for a request, and the response for that command's outcome. Float-valued
//! fields are carried as their IEEE-754 bit patterns.
use vstd::prelude::*;

use crate::audio::{OutputFormat, SampleFormat, WaveformKind};
use crate::config::{default_sink_description, default_source_description, spec_sink_description, spec_source_description};
use crate::device::{DeviceInfo, RecordSettings, StreamDirection};

verus! {

/// Requests sent from the client to the daemon.
#[derive(Debug)]
pub enum Request {
    Status,
    DevicesList,
    DevicesCreate { name: String, source_description: Option<String>, sink_description: Option<String> },
    DevicesDestroy { name: String },
    Generate {
        device: String,
        waveform: WaveformKind,
        frequency_bits: u64,
        volume_bits: u32,
        duration_secs_bits: Option<u64>,
        continuous: bool,
    },
    Play { device: String, file_path: String, loop_count: Option<u32>, volume_bits: u32 },
    Record {
        device: String,
        file_path: String,
        format: Option<OutputFormat>,
        duration_secs_bits: Option<u64>,
        sample_rate: Option<u32>,
        channels: Option<u16>,
    },
    StreamStart {
        device: String,
        direction: StreamDirection,
        sample_rate: u32,
        channels: u16,
        sample_format: SampleFormat,
    },
    Stop { device: String },
}

/// Responses sent from the daemon to the client.
#[derive(Debug)]
pub enum Response {
    Status { version: String, uptime_secs_bits: u64, devices: Vec<DeviceInfo> },
    DevicesList { devices: Vec<DeviceInfo> },
    DeviceCreated { name: String },
    DeviceDestroyed { name: String },
    GenerateStarted { device: String },
    PlayStarted { device: String },
    RecordStarted { device: String },
    StreamStarted { data_socket: String },
    Stopped { device: String },
    Completed { device: String, message: String },
    Progress { device: String, elapsed_secs_bits: u64, total_secs_bits: Option<u64> },
    Error { message: String },
}

/// Commands the daemon runs on its device registry.
#[derive(Debug, Clone)]
pub enum DeviceCommand {
    ListDevices,
    CreateDevice { name: String, source_description: String, sink_description: String },
    DestroyDevice { name: String },
    StartTone {
        device: String,
        waveform: WaveformKind,
        frequency_bits: u64,
        volume_bits: u32,
        duration_secs_bits: Option<u64>,
    },
    StopJob { device: String },
    PlayFile { device: String, file_path: String, loop_count: Option<u32>, volume_bits: u32 },
    StartRecord { device: String, file_path: String, settings: RecordSettings },
    StartStream {
        device: String,
        direction: StreamDirection,
        sample_rate: u32,
        channels: u16,
        sample_format: SampleFormat,
    },
}

/// `cmd` is the command the daemon runs for `req`: a device pair created
/// without descriptions gets `"{name} Source"` and `"{name} Sink"`; a
/// recording keeps its output format, rate and channels, and a stream its
/// rate, channels and sample format. A recording's duration and a tone's
/// `continuous` flag are the client's business (it sends the stop) and are
/// not passed on.
pub open spec fn command_for_request(req: Request, cmd: DeviceCommand) -> bool {
    match req {
        Request::Status => cmd is ListDevices,
        Request::DevicesList => cmd is ListDevices,
        Request::DevicesCreate { name, source_description, sink_description } => match cmd {
            DeviceCommand::CreateDevice { name: n, source_description: s, sink_description: k } => {
                &&& n@ == name@
                &&& s@ == match source_description {
                    Some(d) => d@,
                    None => spec_source_description(name@),
                }
                &&& k@ == match sink_description {
                    Some(d) => d@,
                    None => spec_sink_description(name@),
                }
            },
            _ => false,
        },
        Request::DevicesDestroy { name } => cmd matches DeviceCommand::DestroyDevice { name: n } && n@ == name@,
        Request::Generate { device, waveform, frequency_bits, volume_bits, duration_secs_bits, .. } => cmd
            == (DeviceCommand::StartTone { device, waveform, frequency_bits, volume_bits, duration_secs_bits }),
        Request::Play { device, file_path, loop_count, volume_bits } => cmd == (DeviceCommand::PlayFile {
            device,
            file_path,
            loop_count,
            volume_bits,
        }),
        Request::Record { device, file_path, format, sample_rate, channels, .. } => cmd == (DeviceCommand::StartRecord {
            device,
            file_path,
            settings: RecordSettings { output: format, sample_rate, channels },
        }),
        Request::StreamStart { device, direction, sample_rate, channels, sample_format } => cmd
            == (DeviceCommand::StartStream { device, direction, sample_rate, channels, sample_format }),
        Request::Stop { device } => cmd == (DeviceCommand::StopJob { device }),
    }
}

/// The command the daemon runs for a request.
pub fn command_for(req: Request) -> (cmd: DeviceCommand)
    ensures
        command_for_request(req, cmd),
{
    match req {
        Request::Status => DeviceCommand::ListDevices,
        Request::DevicesList => DeviceCommand::ListDevices,
        Request::DevicesCreate { name, source_description, sink_description } => {
            let source_description = match source_description {
                Some(d) => d,
                None => default_source_description(name.as_str()),
            };
            let sink_description = match sink_description {
                Some(d) => d,
                None => default_sink_description(name.as_str()),
            };
            DeviceCommand::CreateDevice { name, source_description, sink_description }
        },
        Request::DevicesDestroy { name } => DeviceCommand::DestroyDevice { name },
        Request::Generate { device, waveform, frequency_bits, volume_bits, duration_secs_bits, continuous: _ } => {
            DeviceCommand::StartTone { device, waveform, frequency_bits, volume_bits, duration_secs_bits }
        },
        Request::Play { device, file_path, loop_count, volume_bits } => DeviceCommand::PlayFile {
            device,
            file_path,
            loop_count,
            volume_bits,
        },
        Request::Record { device, file_path, format, duration_secs_bits: _, sample_rate, channels } => {
            DeviceCommand::StartRecord {
                device,
                file_path,
                settings: RecordSettings { output: format, sample_rate, channels },
            }
        },
        Request::StreamStart { device, direction, sample_rate, channels, sample_format } => {
            DeviceCommand::StartStream { device, direction, sample_rate, channels, sample_format }
        },
        Request::Stop { device } => DeviceCommand::StopJob { device },
    }
}

/// The response to a command that ends in success or a message: on success
/// the variant naming what was done to which pair, on failure the message.
pub open spec fn response_for_outcome(cmd: DeviceCommand, outcome: Result<(), String>, r: Response) -> bool {
    match outcome {
        Err(message) => r == (Response::Error { message }),
        Ok(()) => match cmd {
            DeviceCommand::CreateDevice { name, .. } => r == (Response::DeviceCreated { name }),
            DeviceCommand::DestroyDevice { name } => r == (Response::DeviceDestroyed { name }),
            DeviceCommand::StartTone { device, .. } => r == (Response::GenerateStarted { device }),
            DeviceCommand::StopJob { device } => r == (Response::Stopped { device }),
            DeviceCommand::PlayFile { device, .. } => r == (Response::PlayStarted { device }),
            DeviceCommand::StartRecord { device, .. } => r == (Response::RecordStarted { device }),
            _ => false,
        },
    }
}

/// Commands whose outcome is a success or a message; listing and streaming
/// answer with data of their own (`Status`, `DevicesList`, `StreamStarted`).
pub open spec fn has_plain_outcome(cmd: DeviceCommand) -> bool {
    !(cmd is ListDevices) && !(cmd is StartStream)
}

/// The response to a command that ended with `outcome`.
pub fn outcome_response(cmd: DeviceCommand, outcome: Result<(), String>) -> (r: Response)
    requires
        has_plain_outcome(cmd),
    ensures
        response_for_outcome(cmd, outcome, r),
{
    match outcome {
        Err(message) => Response::Error { message },
        Ok(()) => match cmd {
            DeviceCommand::CreateDevice { name, .. } => Response::DeviceCreated { name },
            DeviceCommand::DestroyDevice { name } => Response::DeviceDestroyed { name },
            DeviceCommand::StartTone { device, .. } => Response::GenerateStarted { device },
            DeviceCommand::StopJob { device } => Response::Stopped { device },
            DeviceCommand::PlayFile { device, .. } => Response::PlayStarted { device },
            DeviceCommand::StartRecord { device, .. } => Response::RecordStarted { device },
            DeviceCommand::ListDevices => vstd::pervasive::unreached(),
            DeviceCommand::StartStream { .. } => vstd::pervasive::unreached(),
        },
    }
}

/// Default description law: a pair created without descriptions gets the
/// source description `"{name} Source"` and the sink description
/// `"{name} Sink"`; a description that is given is kept as it is.
pub proof fn law_create_descriptions(req: Request, cmd: DeviceCommand)
    requires
        command_for_request(req, cmd),
        req is DevicesCreate,
    ensures
        cmd is CreateDevice,
        cmd->CreateDevice_name@ == req->DevicesCreate_name@,
        cmd->CreateDevice_source_description@ == match req->DevicesCreate_source_description {
            Some(d) => d@,
            None => req->DevicesCreate_name@ + " Source"@,
        },
        cmd->CreateDevice_sink_description@ == match req->DevicesCreate_sink_description {
            Some(d) => d@,
            None => req->DevicesCreate_name@ + " Sink"@,
        },
{
}

/// Request law: a request becomes the command that does what it asks, on the
/// device it names, with its parameters as given: status and listing ask for
/// the device list; destroy, generate, play, record, stream and stop carry
/// their device (or name) and every parameter the daemon acts on.
pub proof fn law_command_follows_request(req: Request, cmd: DeviceCommand)
    requires
        command_for_request(req, cmd),
    ensures
        req is Status || req is DevicesList <==> cmd is ListDevices,
        req is DevicesCreate <==> cmd is CreateDevice,
        req matches Request::DevicesDestroy { name } ==> cmd matches DeviceCommand::DestroyDevice { name: n } && n@
            == name@,
        req matches Request::Generate { device, waveform, frequency_bits, volume_bits, duration_secs_bits, .. }
            ==> cmd matches DeviceCommand::StartTone { device: d, waveform: w, frequency_bits: f, volume_bits: v, duration_secs_bits: t }
            && d@ == device@ && w == waveform && f == frequency_bits && v == volume_bits && t == duration_secs_bits,
        req matches Request::Play { device, file_path, loop_count, volume_bits } ==> cmd matches DeviceCommand::PlayFile {
            device: d,
            file_path: p,
            loop_count: l,
            volume_bits: v,
        } && d@ == device@ && p@ == file_path@ && l == loop_count && v == volume_bits,
        req matches Request::Record { device, file_path, format, sample_rate, channels, .. }
            ==> cmd matches DeviceCommand::StartRecord { device: d, file_path: p, settings }
            && d@ == device@ && p@ == file_path@ && settings.output == format && settings.sample_rate == sample_rate
            && settings.channels == channels,
        req matches Request::StreamStart { device, direction, sample_rate, channels, sample_format }
            ==> cmd matches DeviceCommand::StartStream { device: d, direction: dir, sample_rate: r, channels: c, sample_format: f }
            && d@ == device@ && dir == direction && r == sample_rate && c == channels && f == sample_format,
        req matches Request::Stop { device } ==> cmd matches DeviceCommand::StopJob { device: d } && d@ == device@,
{
}

/// Response law: a failed command is answered with its error message as it
/// is; a command that succeeded is answered with the response naming what
/// was done, to the device (or pair) the command named.
pub proof fn law_outcome_answer(cmd: DeviceCommand, outcome: Result<(), String>, r: Response)
    requires
        response_for_outcome(cmd, outcome, r),
        has_plain_outcome(cmd),
    ensures
        outcome matches Err(m) ==> r matches Response::Error { message } && message@ == m@,
        outcome is Ok ==> !(r is Error),
        outcome is Ok ==> (cmd matches DeviceCommand::CreateDevice { name, .. } ==> (r matches Response::DeviceCreated { name: x } && x@ == name@)),
        outcome is Ok ==> (cmd matches DeviceCommand::DestroyDevice { name } ==> (r matches Response::DeviceDestroyed { name: x } && x@ == name@)),
        outcome is Ok ==> (cmd matches DeviceCommand::StartTone { device, .. } ==> (r matches Response::GenerateStarted { device: x } && x@ == device@)),
        outcome is Ok ==> (cmd matches DeviceCommand::StopJob { device } ==> (r matches Response::Stopped { device: x } && x@ == device@)),
        outcome is Ok ==> (cmd matches DeviceCommand::PlayFile { device, .. } ==> (r matches Response::PlayStarted { device: x } && x@ == device@)),
        outcome is Ok ==> (cmd matches DeviceCommand::StartRecord { device, .. } ==> (r matches Response::RecordStarted { device: x } && x@ == device@)),
{
}

} // verus!
