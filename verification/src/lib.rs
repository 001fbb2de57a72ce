//! Verified core of a virtual audio device emulator: audio formats, daemon
//! configuration, wire framing of IPC messages, a sample ring buffer, PCM and
//! WAV byte codecs, the per-device job state machine and the device registry.
use vstd::prelude::*;

pub mod audio;
pub mod cli;
pub mod config;
pub mod device;
pub mod link;
pub mod messages;
pub mod pcm;
pub mod protocol;
pub mod recording;
pub mod registry;
pub mod ring_buffer;
pub mod stream;
pub mod text;
pub mod wav;

verus! {

} // verus!
