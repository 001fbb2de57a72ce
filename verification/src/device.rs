//! The state of one virtual device pair: a source (virtual microphone) that
//! produces audio and a sink (virtual speaker) that consumes it, each with at
//! most one active job. Float-valued parameters (frequency, volume, phase) are
//! carried as their IEEE-754 bit patterns; samples as `f32` bit patterns.
use vstd::prelude::*;

use crate::audio::{AudioFormat, OutputFormat, WaveformKind};

verus! {

/// Bit pattern of the `f64` value 440.0, the initial tone frequency.
pub const FREQUENCY_440_BITS: u64 = 0x407B_8000_0000_0000;

/// Bit pattern of the `f32` value 1.0, the initial volume.
pub const VOLUME_ONE_BITS: u32 = 0x3F80_0000;

/// Direction of a raw PCM stream: into the source, or out of the sink.
#[derive(Debug, Clone, Copy, PartialEq, Eq, Structural)]
pub enum StreamDirection {
    In,
    Out,
}

/// The job a source or sink is busy with.
#[derive(Debug)]
pub enum ActiveJob {
    Tone { waveform: WaveformKind, frequency_bits: u64, volume_bits: u32 },
    Playback { file_path: String, looping: bool, volume_bits: u32 },
    Recording { file_path: String },
    Streaming { direction: StreamDirection },
}

impl Clone for ActiveJob {
    fn clone(&self) -> (r: Self)
        ensures
            r == *self,
    {
        match self {
            ActiveJob::Tone { waveform, frequency_bits, volume_bits } => ActiveJob::Tone {
                waveform: *waveform,
                frequency_bits: *frequency_bits,
                volume_bits: *volume_bits,
            },
            ActiveJob::Playback { file_path, looping, volume_bits } => ActiveJob::Playback {
                file_path: file_path.clone(),
                looping: *looping,
                volume_bits: *volume_bits,
            },
            ActiveJob::Recording { file_path } => ActiveJob::Recording {
                file_path: file_path.clone(),
            },
            ActiveJob::Streaming { direction } => ActiveJob::Streaming { direction: *direction },
        }
    }
}

/// What the daemon reports about a device pair.
#[derive(Debug)]
pub struct DeviceInfo {
    pub name: String,
    pub source_description: String,
    pub sink_description: String,
    pub format: AudioFormat,
    pub active_job: Option<ActiveJob>,
}

/// State of the virtual source. `B` is the handle of the ring buffer that
/// feeds it while streaming in.
pub struct SourceState<B> {
    pub format: AudioFormat,
    pub active_job: Option<ActiveJob>,
    pub tone_phase_bits: u64,
    pub tone_frequency_bits: u64,
    pub tone_volume_bits: u32,
    pub tone_waveform: WaveformKind,
    pub tone_samples_produced: u64,
    pub tone_duration_samples: Option<u64>,
    pub playback_buffer: Vec<u32>,
    pub playback_pos: usize,
    pub playback_loop_count: Option<u32>,
    pub playback_loops_done: u32,
    pub playback_volume_bits: u32,
    pub stream_in_buffer: Option<B>,
}

/// What a recording is to be written as: the container format, sample rate
/// and channel count asked for, each left to its default when not given.
#[derive(Debug, Clone, Copy, PartialEq, Eq, Structural)]
pub struct RecordSettings {
    pub output: Option<OutputFormat>,
    pub sample_rate: Option<u32>,
    pub channels: Option<u16>,
}

/// State of the virtual sink. `B` is the handle of the ring buffer it feeds
/// while streaming out.
pub struct SinkState<B> {
    pub format: AudioFormat,
    pub active_job: Option<ActiveJob>,
    pub record_buffer: Vec<u32>,
    pub record_file_path: Option<String>,
    pub record_settings: RecordSettings,
    pub stream_out_buffer: Option<B>,
}

/// A recording that a stop hands over to be written out: the samples as the
/// sink captured them in `format`, and how the file is to be written.
pub struct RecordingFlush {
    pub samples: Vec<u32>,
    pub path: String,
    pub format: AudioFormat,
    pub settings: RecordSettings,
}

/// What the source produces in its next processing block.
#[derive(Debug, Clone, Copy, PartialEq, Eq, Structural)]
pub enum SourceMode {
    /// Synthesize the configured tone, then call `finish_tone_block`.
    Tone,
    /// Take samples from `render_playback`.
    Playback,
    /// Read from the stream-in ring buffer, padding with silence.
    StreamIn,
    /// Output silence.
    Silence,
}

/// What a source in state `s` produces next.
pub open spec fn spec_source_mode<B>(s: SourceState<B>) -> SourceMode {
    match s.active_job {
        Some(ActiveJob::Tone { .. }) => SourceMode::Tone,
        Some(ActiveJob::Playback { .. }) => SourceMode::Playback,
        Some(ActiveJob::Streaming { direction: StreamDirection::In }) => if s.stream_in_buffer is Some {
            SourceMode::StreamIn
        } else {
            SourceMode::Silence
        },
        _ => SourceMode::Silence,
    }
}

/// One sample step of playback: the buffer index emitted and the new position
/// and loop count, or the end of playback with the new loop count.
pub enum PlayStep {
    Emit { index: nat, pos: nat, loops: nat },
    Finish { loops: nat },
}

/// Playback of one sample from a buffer of `len > 0` samples: past the end it
/// restarts forever (`Some(0)`), restarts until `n` passes are done
/// (`Some(n)`), or stops (`None`).
pub open spec fn play_step(len: nat, loop_count: Option<u32>, pos: nat, loops: nat) -> PlayStep {
    if pos < len {
        PlayStep::Emit { index: pos, pos: pos + 1, loops }
    } else {
        match loop_count {
            Some(n) => if n == 0 {
                PlayStep::Emit { index: 0, pos: 1, loops }
            } else if loops + 1 >= n {
                PlayStep::Finish { loops: loops + 1 }
            } else {
                PlayStep::Emit { index: 0, pos: 1, loops: loops + 1 }
            },
            None => PlayStep::Finish { loops },
        }
    }
}

/// Buffer indices emitted by `count` playback steps, the position and loop
/// count after them, and whether playback ended on the way.
pub struct PlayRun {
    pub emitted: Seq<nat>,
    pub pos: nat,
    pub loops: nat,
    pub finished: bool,
}

/// The result of `count` playback steps from position `pos` after `loops` passes.
pub open spec fn play_run(len: nat, loop_count: Option<u32>, pos: nat, loops: nat, count: nat) -> PlayRun
    decreases count,
{
    if count == 0 {
        PlayRun { emitted: Seq::empty(), pos, loops, finished: false }
    } else {
        let prev = play_run(len, loop_count, pos, loops, (count - 1) as nat);
        if prev.finished {
            prev
        } else {
            match play_step(len, loop_count, prev.pos, prev.loops) {
                PlayStep::Emit { index, pos, loops } => PlayRun {
                    emitted: prev.emitted.push(index),
                    pos,
                    loops,
                    finished: false,
                },
                PlayStep::Finish { loops } => PlayRun {
                    emitted: prev.emitted,
                    pos: prev.pos,
                    loops,
                    finished: true,
                },
            }
        }
    }
}

/// The samples of a playback block of `total` slots in frames of `channels`:
/// the emitted samples; if playback ended inside the block, the whole frame in
/// which it ended and every later frame are silence (`None`).
pub open spec fn playback_block(buffer: Seq<u32>, run: PlayRun, total: nat, channels: nat) -> Seq<
    Option<u32>,
> {
    let kept: int = if run.finished {
        ((run.emitted.len() / channels) * channels) as int
    } else {
        total as int
    };
    Seq::new(total, |j: int| if j < kept { Some(buffer[run.emitted[j] as int]) } else { None })
}

/// `n` is `o` after a synthesized tone block of `n_frames` frames ending at
/// phase `phase_bits`: the phase and frame count advance, a timed tone ends
/// once its frames are out, and nothing else changes.
pub open spec fn tone_block_done<B>(o: SourceState<B>, n: SourceState<B>, n_frames: u64, phase_bits: u64) -> bool {
    &&& n.tone_phase_bits == phase_bits
    &&& n.tone_samples_produced == o.tone_samples_produced + n_frames
    &&& n.active_job == (match o.tone_duration_samples {
        Some(max) => if o.tone_samples_produced + n_frames >= max {
            None
        } else {
            o.active_job
        },
        None => o.active_job,
    })
    &&& n.tone_duration_samples == o.tone_duration_samples
    &&& n.tone_frequency_bits == o.tone_frequency_bits
    &&& n.tone_volume_bits == o.tone_volume_bits
    &&& n.tone_waveform == o.tone_waveform
    &&& same_source_playback(o, n)
}

/// `n` is `o` after rendering `block`, a playback block of `n_frames` frames
/// of `channels` samples: from an empty buffer, silence and no change;
/// otherwise the samples `play_run` emits, the position and loop count
/// advanced, the job cleared if playback ended, and nothing else changed.
pub open spec fn playback_rendered<B>(
    o: SourceState<B>,
    n: SourceState<B>,
    n_frames: nat,
    channels: nat,
    block: Seq<Option<u32>>,
) -> bool {
    let total = n_frames * channels;
    if o.playback_buffer@.len() == 0 {
        &&& block == Seq::new(total, |j: int| None::<u32>)
        &&& n == o
    } else {
        let run = play_run(o.playback_buffer@.len(), o.playback_loop_count, o.playback_pos as nat, o.playback_loops_done as nat, total);
        &&& block == playback_block(o.playback_buffer@, run, total, channels)
        &&& n.playback_pos == run.pos
        &&& n.playback_loops_done == run.loops
        &&& n.active_job == if run.finished {
            None
        } else {
            o.active_job
        }
        &&& n.playback_buffer == o.playback_buffer
        &&& n.playback_loop_count == o.playback_loop_count
        &&& n.playback_volume_bits == o.playback_volume_bits
        &&& n.format == o.format
        &&& n.stream_in_buffer == o.stream_in_buffer
        &&& n.tone_phase_bits == o.tone_phase_bits
        &&& n.tone_frequency_bits == o.tone_frequency_bits
        &&& n.tone_volume_bits == o.tone_volume_bits
        &&& n.tone_waveform == o.tone_waveform
        &&& n.tone_samples_produced == o.tone_samples_produced
        &&& n.tone_duration_samples == o.tone_duration_samples
    }
}

/// `n` is the sink `o` after taking in `samples`: they are appended to the
/// recording when the sink has a job and a recording path, and nothing else
/// changes.
pub open spec fn samples_captured<B>(o: SinkState<B>, n: SinkState<B>, samples: Seq<u32>) -> bool {
    &&& n.record_buffer@ == if o.active_job is Some && o.record_file_path is Some {
        o.record_buffer@ + samples
    } else {
        o.record_buffer@
    }
    &&& n.active_job == o.active_job
    &&& n.record_file_path == o.record_file_path
    &&& n.record_settings == o.record_settings
    &&& n.stream_out_buffer == o.stream_out_buffer
    &&& n.format == o.format
}

impl<B> SourceState<B> {
    /// Playback has passes left: its loop count is not yet used up.
    pub open spec fn playback_ready(&self) -> bool {
        match self.playback_loop_count {
            Some(n) => n > 0 ==> self.playback_loops_done < n,
            None => true,
        }
    }

    /// What the source produces in its next block.
    pub fn mode(&self) -> (r: SourceMode)
        ensures
            r == spec_source_mode(*self),
    {
        match &self.active_job {
            Some(ActiveJob::Tone { .. }) => SourceMode::Tone,
            Some(ActiveJob::Playback { .. }) => SourceMode::Playback,
            Some(ActiveJob::Streaming { direction: StreamDirection::In }) => {
                if self.stream_in_buffer.is_some() {
                    SourceMode::StreamIn
                } else {
                    SourceMode::Silence
                }
            },
            _ => SourceMode::Silence,
        }
    }

    /// Account for a synthesized tone block of `n_frames` frames ending at
    /// `phase_bits`; a tone with a duration ends once that many frames are out.
    pub fn finish_tone_block(&mut self, n_frames: u64, phase_bits: u64)
        requires
            old(self).tone_samples_produced + n_frames <= u64::MAX,
        ensures
            tone_block_done(*old(self), *final(self), n_frames, phase_bits),
    {
        self.tone_phase_bits = phase_bits;
        self.tone_samples_produced = self.tone_samples_produced + n_frames;
        if let Some(max) = self.tone_duration_samples {
            if self.tone_samples_produced >= max {
                self.active_job = None;
            }
        }
    }

    /// The samples of a playback block of `n_frames` frames of `channels`
    /// samples, before volume is applied: `None` is silence. Past the end of the
    /// buffer playback restarts or ends as its loop count says; when it ends
    /// the job is cleared. An empty buffer gives silence and keeps the job.
    pub fn render_playback(&mut self, n_frames: usize, channels: usize) -> (r: Vec<Option<u32>>)
        requires
            n_frames * channels <= usize::MAX,
            old(self).playback_ready(),
        ensures
            playback_rendered(*old(self), *final(self), n_frames as nat, channels as nat, r@),
            final(self).active_job is None || final(self).playback_ready(),
    {
        let total = n_frames * channels;
        let len = self.playback_buffer.len();
        let mut out: Vec<Option<u32>> = Vec::new();
        if len == 0 {
            let mut j: usize = 0;
            while j < total
                invariant
                    j <= total,
                    out@ == Seq::new(j as nat, |i: int| None::<u32>),
                decreases total - j,
            {
                out.push(None);
                j = j + 1;
                assert(out@ =~= Seq::new(j as nat, |i: int| None::<u32>));
            }
            return out;
        }
        let ghost pos0 = self.playback_pos as nat;
        let ghost loops0 = self.playback_loops_done as nat;
        let loop_count = self.playback_loop_count;
        let mut pos = self.playback_pos;
        let mut loops = self.playback_loops_done;
        let mut k: usize = 0;
        let mut finished = false;
        while k < total && !finished
            invariant
                len == self.playback_buffer@.len(),
                len > 0,
                loop_count == self.playback_loop_count,
                k <= total,
                out@.len() == k,
                !finished ==> match loop_count {
                    Some(n) => n > 0 ==> loops < n,
                    None => true,
                },
                ({
                    let run = play_run(len as nat, loop_count, pos0, loops0, (k + if finished { 1int } else { 0int }) as nat);
                    &&& run.finished == finished
                    &&& run.emitted.len() == k
                    &&& run.pos == pos
                    &&& run.loops == loops
                    &&& forall|j: int| 0 <= j < k ==> #[trigger] out@[j] == Some(self.playback_buffer@[run.emitted[j] as int])
                }),
                finished ==> k < total,
            decreases total - k + if finished { 0int } else { 1int },
        {
            let ghost prev_out = out@;
            let ghost run0 = play_run(len as nat, loop_count, pos0, loops0, k as nat);
            if pos >= len {
                match loop_count {
                    Some(n) => {
                        if n == 0 {
                            pos = 0;
                        } else {
                            loops = loops + 1;
                            if loops >= n {
                                finished = true;
                            } else {
                                pos = 0;
                            }
                        }
                    },
                    None => {
                        finished = true;
                    },
                }
            }
            if !finished {
                out.push(Some(self.playback_buffer[pos]));
                pos = pos + 1;
                k = k + 1;
                proof {
                    let run1 = play_run(len as nat, loop_count, pos0, loops0, k as nat);
                    assert(run1.emitted =~= run0.emitted.push(run1.emitted[k - 1]));
                    assert forall|j: int| 0 <= j < k implies #[trigger] out@[j] == Some(
                        self.playback_buffer@[run1.emitted[j] as int],
                    ) by {
                        if j < k - 1 {
                            assert(out@[j] == prev_out[j]);
                        }
                    }
                }
            }
        }
        self.playback_pos = pos;
        self.playback_loops_done = loops;
        let ghost run = play_run(len as nat, loop_count, pos0, loops0, total as nat);
        proof {
            lemma_play_run_settled(len as nat, loop_count, pos0, loops0, (k + if finished { 1int } else { 0int }) as nat, total as nat);
        }
        if finished {
            self.active_job = None;
            assert(channels > 0) by (nonlinear_arith)
                requires k < total, total == n_frames * channels, channels >= 0, n_frames >= 0;
            let q = k / channels;
            assert(q * channels <= k) by (nonlinear_arith)
                requires q == k / channels, channels > 0, k >= 0;
            let kept = q * channels;
            out.truncate(kept);
            let mut j = kept;
            while j < total
                invariant
                    kept <= j <= total,
                    out@.len() == j,
                    forall|i: int| 0 <= i < kept ==> #[trigger] out@[i] == Some(self.playback_buffer@[run.emitted[i] as int]),
                    forall|i: int| kept <= i < j ==> #[trigger] out@[i] == None::<u32>,
                decreases total - j,
            {
                out.push(None);
                j = j + 1;
            }
        }
        proof {
            let target = playback_block(self.playback_buffer@, run, total as nat, channels as nat);
            assert(out@ =~= target);
        }
        out
    }
}

/// Once playback has ended, further steps change nothing; before that, the
/// run over `total` steps is the run over the steps taken so far.
pub proof fn lemma_play_run_settled(len: nat, loop_count: Option<u32>, pos: nat, loops: nat, k: nat, total: nat)
    requires
        k <= total,
        play_run(len, loop_count, pos, loops, k).finished || k == total,
    ensures
        play_run(len, loop_count, pos, loops, total) == play_run(len, loop_count, pos, loops, k),
    decreases total - k,
{
    if k < total {
        lemma_play_run_settled(len, loop_count, pos, loops, k, (total - 1) as nat);
    }
}


impl<B> SinkState<B> {
    /// Whether the sink takes in audio: only while it has a job.
    pub fn is_capturing(&self) -> (r: bool)
        ensures
            r == self.active_job is Some,
    {
        self.active_job.is_some()
    }

    /// Take in a block of samples: they are appended to the recording when
    /// the sink has a job and a recording path.
    pub fn capture(&mut self, samples: &[u32])
        ensures
            samples_captured(*old(self), *final(self), samples@),
    {
        if self.active_job.is_some() && self.record_file_path.is_some() {
            let n = samples.len();
            let mut i: usize = 0;
            let ghost start = self.record_buffer@;
            while i < n
                invariant
                    n == samples@.len(),
                    i <= n,
                    self.record_buffer@ == start + samples@.subrange(0, i as int),
                    self.active_job == old(self).active_job,
                    self.record_file_path == old(self).record_file_path,
                    self.record_settings == old(self).record_settings,
                    self.stream_out_buffer == old(self).stream_out_buffer,
                    self.format == old(self).format,
                decreases n - i,
            {
                self.record_buffer.push(samples[i]);
                i = i + 1;
                assert(self.record_buffer@ =~= start + samples@.subrange(0, i as int));
            }
            assert(samples@.subrange(0, n as int) =~= samples@);
        }
    }
}

/// A virtual device pair: its name, descriptions, and source and sink state.
pub struct DevicePair<B> {
    pub name: String,
    pub source_description: String,
    pub sink_description: String,
    pub source_state: SourceState<B>,
    pub sink_state: SinkState<B>,
}

/// The job a device pair reports: the source's if it has one, else the sink's.
pub open spec fn spec_reported_job<B>(p: DevicePair<B>) -> Option<ActiveJob> {
    match p.source_state.active_job {
        Some(j) => Some(j),
        None => p.sink_state.active_job,
    }
}

/// Whether `looping` is reported for a playback with this loop count: for any
/// count other than a single pass.
pub open spec fn spec_looping(loop_count: Option<u32>) -> bool {
    match loop_count {
        Some(n) => n != 1,
        None => false,
    }
}

proof fn lemma_play_once_prefix(len: nat, k: nat)
    requires
        len > 0,
        k <= len,
    ensures
        play_run(len, None, 0, 0, k) == (PlayRun {
            emitted: Seq::new(k, |j: int| j as nat),
            pos: k,
            loops: 0,
            finished: false,
        }),
    decreases k,
{
    if k > 0 {
        lemma_play_once_prefix(len, (k - 1) as nat);
        assert(play_run(len, None, 0, 0, k).emitted =~= Seq::new(k, |j: int| j as nat));
    } else {
        assert(play_run(len, None, 0, 0, 0).emitted =~= Seq::new(0, |j: int| j as nat));
    }
}

/// Single-pass playback law: without a loop count, playback from the start
/// emits the buffer's samples once, in order, and ends on the next step.
pub proof fn lemma_play_once(len: nat)
    requires
        len > 0,
    ensures
        !play_run(len, None, 0, 0, len).finished,
        play_run(len, None, 0, 0, len + 1).finished,
        play_run(len, None, 0, 0, len + 1).emitted == Seq::new(len, |j: int| j as nat),
{
    lemma_play_once_prefix(len, len);
}

proof fn lemma_counted_prefix(len: nat, n: u32, k: nat)
    requires
        len > 0,
        n >= 1,
        k <= n * len,
    ensures
        play_run(len, Some(n), 0, 0, k) == (PlayRun {
            emitted: Seq::new(k, |j: int| (j % (len as int)) as nat),
            pos: if k == 0 {
                0
            } else {
                ((k - 1) % (len as int) + 1) as nat
            },
            loops: if k == 0 {
                0
            } else {
                ((k - 1) / (len as int)) as nat
            },
            finished: false,
        }),
    decreases k,
{
    if k > 0 {
        let kn: nat = (k - 1) as nat;
        lemma_counted_prefix(len, n, kn);
        let prev = play_run(len, Some(n), 0, 0, kn);
        let l = len as int;
        let km = kn as int;
        if km == 0 {
            assert(prev.pos == 0 && prev.loops == 0);
            assert(0int % l == 0) by (nonlinear_arith)
                requires l > 0;
            assert(0int / l == 0) by (nonlinear_arith)
                requires l > 0;
        } else {
            let q = (km - 1) / l;
            let r = (km - 1) % l;
            assert(km - 1 == q * l + r && 0 <= r < l && q >= 0) by (nonlinear_arith)
                requires l > 0, km >= 1, q == (km - 1) / l, r == (km - 1) % l;
            if r + 1 < l {
                assert(km % l == r + 1 && km / l == q) by (nonlinear_arith)
                    requires km == q * l + r + 1, 0 <= r, r + 1 < l, l > 0;
            } else {
                assert(km == (q + 1) * l) by (nonlinear_arith)
                    requires km == q * l + r + 1, r + 1 == l;
                assert(km % l == 0 && km / l == q + 1) by (nonlinear_arith)
                    requires km == (q + 1) * l, l > 0, q >= 0;
                assert(q + 1 < n) by (nonlinear_arith)
                    requires km == (q + 1) * l, km < n * l, l > 0, q >= 0;
            }
        }
        assert(play_run(len, Some(n), 0, 0, k).emitted =~= Seq::new(k, |j: int| (j % (len as int)) as nat));
    } else {
        assert(play_run(len, Some(n), 0, 0, 0).emitted =~= Seq::new(0, |j: int| (j % (len as int)) as nat));
    }
}

/// Loop-count law: with a loop count of `n >= 1` passes, playback from the
/// start emits the buffer exactly `n` times in order (sample `j` of the run is
/// buffer position `j % len`), is still going after those `n * len` samples,
/// and ends on the next step.
pub proof fn law_counted_passes(len: nat, n: u32)
    requires
        len > 0,
        n >= 1,
    ensures
        !play_run(len, Some(n), 0, 0, (n as nat) * len).finished,
        play_run(len, Some(n), 0, 0, (n as nat) * len).emitted.len() == (n as nat) * len,
        forall|j: int| 0 <= j < (n as nat) * len ==> #[trigger] play_run(len, Some(n), 0, 0, (n as nat) * len).emitted[j] == j % (len as int),
        play_run(len, Some(n), 0, 0, (n as nat) * len + 1).finished,
        play_run(len, Some(n), 0, 0, (n as nat) * len + 1).emitted == play_run(len, Some(n), 0, 0, (n as nat) * len).emitted,
{
    let t: nat = (n as nat) * len;
    assert(t >= len) by (nonlinear_arith)
        requires t == (n as nat) * len, n >= 1;
    lemma_counted_prefix(len, n, t);
    let l = len as int;
    let ti = t as int;
    assert((ti - 1) % l + 1 == l && (ti - 1) / l == n - 1) by (nonlinear_arith)
        requires ti == n * l, l > 0, n >= 1;
}

proof fn lemma_first_pass(len: nat, loop_count: Option<u32>, k: nat)
    requires
        len > 0,
        k <= len,
    ensures
        !play_run(len, loop_count, 0, 0, k).finished,
        play_run(len, loop_count, 0, 0, k).pos == k,
        play_run(len, loop_count, 0, 0, k).emitted == Seq::new(k, |j: int| j as nat),
    decreases k,
{
    if k > 0 {
        lemma_first_pass(len, loop_count, (k - 1) as nat);
    }
    assert(play_run(len, loop_count, 0, 0, k).emitted =~= Seq::new(k, |j: int| j as nat));
}

/// First-pass law: whatever the loop count, playback started from the top
/// plays the buffer once through in order, from its first sample, without
/// ending.
pub proof fn law_first_pass_in_order(len: nat, loop_count: Option<u32>)
    requires
        len > 0,
    ensures
        !play_run(len, loop_count, 0, 0, len).finished,
        forall|j: int| 0 <= j < len ==> #[trigger] play_run(len, loop_count, 0, 0, len).emitted[j] == j,
        play_run(len, loop_count, 0, 0, len).emitted.len() == len,
{
    lemma_first_pass(len, loop_count, len);
}

proof fn lemma_run_length(len: nat, loop_count: Option<u32>, pos: nat, loops: nat, k: nat)
    ensures
        !play_run(len, loop_count, pos, loops, k).finished ==> play_run(len, loop_count, pos, loops, k).emitted.len() == k,
        play_run(len, loop_count, pos, loops, k).finished ==> play_run(len, loop_count, pos, loops, k).emitted.len() < k,
    decreases k,
{
    if k > 0 {
        lemma_run_length(len, loop_count, pos, loops, (k - 1) as nat);
    }
}

/// `a` samples make up whole frames of `channels` samples.
pub open spec fn frame_aligned(a: int, channels: nat) -> bool {
    a % (channels as int) == 0
}

/// Block law: a playback block holds, in order, the buffer samples that
/// playback emits, each followed by the next; if playback ended inside the
/// block, the audible samples are whole frames, the frame in which it ended
/// and every later one are silence, and the job is over.
pub proof fn law_playback_block<B>(o: SourceState<B>, n: SourceState<B>, n_frames: nat, channels: nat, block: Seq<Option<u32>>)
    requires
        playback_rendered(o, n, n_frames, channels, block),
        o.playback_buffer@.len() > 0,
        channels > 0,
    ensures
        block.len() == n_frames * channels,
        ({
            let run = play_run(o.playback_buffer@.len(), o.playback_loop_count, o.playback_pos as nat, o.playback_loops_done as nat, n_frames * channels);
            &&& !run.finished ==> {
                &&& n.active_job == o.active_job
                &&& run.emitted.len() == n_frames * channels
                &&& forall|j: int| 0 <= j < block.len() ==> #[trigger] block[j] == Some(o.playback_buffer@[run.emitted[j] as int])
            }
            &&& run.finished ==> {
                &&& n.active_job is None
                &&& exists|a: int| {
                    &&& 0 <= a <= run.emitted.len() < a + channels
                    &&& #[trigger] frame_aligned(a, channels)
                    &&& forall|j: int| 0 <= j < a ==> #[trigger] block[j] == Some(o.playback_buffer@[run.emitted[j] as int])
                    &&& forall|j: int| a <= j < block.len() ==> #[trigger] block[j] is None
                }
            }
        }),
{
    let total = n_frames * channels;
    let run = play_run(o.playback_buffer@.len(), o.playback_loop_count, o.playback_pos as nat, o.playback_loops_done as nat, total);
    lemma_run_length(o.playback_buffer@.len(), o.playback_loop_count, o.playback_pos as nat, o.playback_loops_done as nat, total);
    if run.finished {
        let c = channels as int;
        let e = run.emitted.len() as int;
        let a = (e / c) * c;
        assert(0 <= a <= e < a + c && a % c == 0) by (nonlinear_arith)
            requires a == (e / c) * c, c > 0, e >= 0;
        assert forall|j: int| 0 <= j < a implies #[trigger] block[j] == Some(o.playback_buffer@[run.emitted[j] as int]) by {}
        assert forall|j: int| a <= j < block.len() implies #[trigger] block[j] is None by {}
        assert(frame_aligned(a, channels));
    }
}

/// Timed tone law: a block of `k` frames adds `k` to the frames produced; a
/// tone with a duration of `max` frames ends with the block that brings the
/// count to `max` or beyond and not before, and a tone without one never
/// ends this way.
pub proof fn law_timed_tone<B>(o: SourceState<B>, n: SourceState<B>, k: u64, phase_bits: u64)
    requires
        tone_block_done(o, n, k, phase_bits),
    ensures
        n.tone_samples_produced == o.tone_samples_produced + k,
        n.tone_phase_bits == phase_bits,
        o.tone_duration_samples is None ==> n.active_job == o.active_job,
        o.tone_duration_samples matches Some(max) ==> (o.tone_samples_produced + k >= max ==> n.active_job is None)
            && (o.tone_samples_produced + k < max ==> n.active_job == o.active_job),
        n.tone_waveform == o.tone_waveform && n.tone_frequency_bits == o.tone_frequency_bits && n.tone_volume_bits
            == o.tone_volume_bits,
{
}

/// Source mode law: a source plays a tone exactly when its job is a tone,
/// plays back exactly when its job is a playback, reads its stream exactly
/// when it streams in and has a buffer, and is silent otherwise.
pub proof fn law_source_mode<B>(s: SourceState<B>)
    ensures
        (spec_source_mode(s) == SourceMode::Tone) <==> s.active_job matches Some(ActiveJob::Tone { .. }),
        (spec_source_mode(s) == SourceMode::Playback) <==> s.active_job matches Some(ActiveJob::Playback { .. }),
        (spec_source_mode(s) == SourceMode::StreamIn) <==> (s.active_job == Some(
            ActiveJob::Streaming { direction: StreamDirection::In },
        ) && s.stream_in_buffer is Some),
        (spec_source_mode(s) == SourceMode::Silence) <==> !(s.active_job matches Some(ActiveJob::Tone { .. }))
            && !(s.active_job matches Some(ActiveJob::Playback { .. })) && !(s.active_job == Some(
            ActiveJob::Streaming { direction: StreamDirection::In },
        ) && s.stream_in_buffer is Some),
{
}

/// Capture law: a sink that is recording (it has a job and a path) appends
/// exactly the samples it takes in, in order; any other sink keeps its
/// recording as it is.
pub proof fn law_capture<B>(o: SinkState<B>, n: SinkState<B>, samples: Seq<u32>)
    requires
        samples_captured(o, n, samples),
    ensures
        o.active_job is Some && o.record_file_path is Some ==> {
            &&& n.record_buffer@.len() == o.record_buffer@.len() + samples.len()
            &&& n.record_buffer@.subrange(0, o.record_buffer@.len() as int) == o.record_buffer@
            &&& n.record_buffer@.subrange(o.record_buffer@.len() as int, n.record_buffer@.len() as int) == samples
        },
        !(o.active_job is Some && o.record_file_path is Some) ==> n.record_buffer@ == o.record_buffer@,
        n.format == o.format && n.record_settings == o.record_settings && n.active_job == o.active_job,
{
    if o.active_job is Some && o.record_file_path is Some {
        assert(n.record_buffer@.subrange(0, o.record_buffer@.len() as int) =~= o.record_buffer@);
        assert(n.record_buffer@.subrange(o.record_buffer@.len() as int, n.record_buffer@.len() as int) =~= samples);
    }
}

/// Stop law for recordings: a stop hands back a recording exactly when the
/// sink had a path and at least one sample, and then hands back all its
/// samples in order, with the path, the captured format and the settings.
pub proof fn law_stop_hands_back_recording<B>(o: DevicePair<B>, n: DevicePair<B>, flush: Option<RecordingFlush>)
    requires
        job_stopped(o, n, flush),
    ensures
        flush is Some <==> (o.sink_state.record_file_path is Some && o.sink_state.record_buffer@.len() > 0),
        flush matches Some(f) ==> {
            &&& o.sink_state.record_file_path == Some(f.path)
            &&& f.samples@ == o.sink_state.record_buffer@
            &&& f.format == o.sink_state.format
            &&& f.settings == o.sink_state.record_settings
        },
        n.sink_state.record_buffer@.len() == 0,
        n.sink_state.record_file_path is None,
{
}

/// Playback start law: the pair reports a playback of that file with that
/// volume, looping for any loop count other than a single pass, and the
/// source holds the samples from the start with no pass done yet.
pub proof fn law_playback_start<B>(
    o: DevicePair<B>,
    n: DevicePair<B>,
    file_path: Seq<char>,
    loop_count: Option<u32>,
    volume_bits: u32,
    samples: Seq<u32>,
)
    requires
        playback_started(o, n, file_path, loop_count, volume_bits, samples),
    ensures
        spec_reported_job(n) matches Some(ActiveJob::Playback { file_path: p, looping, volume_bits: v }) && p@
            == file_path && v == volume_bits && looping == (loop_count matches Some(c) && c != 1),
        n.source_state.playback_buffer@ == samples,
        n.source_state.playback_pos == 0,
        n.source_state.playback_loops_done == 0,
        n.source_state.playback_loop_count == loop_count,
        n.source_state.playback_volume_bits == volume_bits,
{
}

/// Endless-loop law: with loop count `Some(0)` playback never ends.
pub proof fn lemma_loop_forever(len: nat, pos: nat, loops: nat, k: nat)
    requires
        len > 0,
    ensures
        !play_run(len, Some(0), pos, loops, k).finished,
        play_run(len, Some(0), pos, loops, k).emitted.len() == k,
    decreases k,
{
    if k > 0 {
        lemma_loop_forever(len, pos, loops, (k - 1) as nat);
    }
}

/// Playback only ever emits positions inside the buffer, once it starts
/// inside it.
pub proof fn lemma_play_in_bounds(len: nat, loop_count: Option<u32>, pos: nat, loops: nat, k: nat)
    requires
        len > 0,
        pos <= len,
    ensures
        play_run(len, loop_count, pos, loops, k).pos <= len,
        forall|j: int| 0 <= j < play_run(len, loop_count, pos, loops, k).emitted.len()
            ==> #[trigger] play_run(len, loop_count, pos, loops, k).emitted[j] < len,
    decreases k,
{
    if k > 0 {
        lemma_play_in_bounds(len, loop_count, pos, loops, (k - 1) as nat);
    }
}

/// A playing source still has passes left to play, and a tone is
/// synthesized as its job reports it.
pub open spec fn pair_ok<B>(p: DevicePair<B>) -> bool {
    &&& p.source_state.active_job matches Some(ActiveJob::Playback { .. }) ==> p.source_state.playback_ready()
    &&& tone_params_match(p.source_state)
}

/// A source playing a tone synthesizes it with the waveform, frequency and
/// volume its job reports.
pub open spec fn tone_params_match<B>(s: SourceState<B>) -> bool {
    match s.active_job {
        Some(ActiveJob::Tone { waveform, frequency_bits, volume_bits }) => {
            &&& s.tone_waveform == waveform
            &&& s.tone_frequency_bits == frequency_bits
            &&& s.tone_volume_bits == volume_bits
        },
        _ => true,
    }
}

/// Name and descriptions are kept by every job operation.
pub open spec fn same_identity<B>(o: DevicePair<B>, n: DevicePair<B>) -> bool {
    &&& n.name == o.name
    &&& n.source_description == o.source_description
    &&& n.sink_description == o.sink_description
}

/// The source's playback and tone bookkeeping are kept.
pub open spec fn same_source_playback<B>(o: SourceState<B>, n: SourceState<B>) -> bool {
    &&& n.format == o.format
    &&& n.playback_buffer == o.playback_buffer
    &&& n.playback_pos == o.playback_pos
    &&& n.playback_loop_count == o.playback_loop_count
    &&& n.playback_loops_done == o.playback_loops_done
    &&& n.playback_volume_bits == o.playback_volume_bits
    &&& n.stream_in_buffer == o.stream_in_buffer
}

/// The source's tone settings and bookkeeping are kept.
pub open spec fn same_tone<B>(o: SourceState<B>, n: SourceState<B>) -> bool {
    &&& n.tone_phase_bits == o.tone_phase_bits
    &&& n.tone_frequency_bits == o.tone_frequency_bits
    &&& n.tone_volume_bits == o.tone_volume_bits
    &&& n.tone_waveform == o.tone_waveform
    &&& n.tone_samples_produced == o.tone_samples_produced
    &&& n.tone_duration_samples == o.tone_duration_samples
}

/// `n` is `o` after starting a tone.
pub open spec fn tone_started<B>(
    o: DevicePair<B>,
    n: DevicePair<B>,
    waveform: WaveformKind,
    frequency_bits: u64,
    volume_bits: u32,
    duration_samples: Option<u64>,
) -> bool {
    &&& n.source_state.active_job == Some(ActiveJob::Tone { waveform, frequency_bits, volume_bits })
    &&& n.source_state.tone_waveform == waveform
    &&& n.source_state.tone_frequency_bits == frequency_bits
    &&& n.source_state.tone_volume_bits == volume_bits
    &&& n.source_state.tone_phase_bits == 0
    &&& n.source_state.tone_samples_produced == 0
    &&& n.source_state.tone_duration_samples == duration_samples
    &&& same_source_playback(o.source_state, n.source_state)
    &&& n.sink_state == o.sink_state
    &&& same_identity(o, n)
}

/// `n` is `o` after stopping, and `flush` is the recording handed back.
pub open spec fn job_stopped<B>(o: DevicePair<B>, n: DevicePair<B>, flush: Option<RecordingFlush>) -> bool {
    &&& n.source_state.active_job is None
    &&& n.sink_state.active_job is None
    &&& n.source_state.playback_buffer@.len() == 0
    &&& n.source_state.playback_pos == 0
    &&& n.source_state.stream_in_buffer is None
    &&& n.sink_state.record_buffer@.len() == 0
    &&& n.sink_state.record_file_path is None
    &&& n.sink_state.stream_out_buffer is None
    &&& n.sink_state.record_settings == o.sink_state.record_settings
    &&& n.source_state.format == o.source_state.format
    &&& n.sink_state.format == o.sink_state.format
    &&& n.source_state.playback_loop_count == o.source_state.playback_loop_count
    &&& n.source_state.playback_loops_done == o.source_state.playback_loops_done
    &&& n.source_state.playback_volume_bits == o.source_state.playback_volume_bits
    &&& n.source_state.tone_phase_bits == o.source_state.tone_phase_bits
    &&& n.source_state.tone_frequency_bits == o.source_state.tone_frequency_bits
    &&& n.source_state.tone_volume_bits == o.source_state.tone_volume_bits
    &&& n.source_state.tone_waveform == o.source_state.tone_waveform
    &&& n.source_state.tone_samples_produced == o.source_state.tone_samples_produced
    &&& n.source_state.tone_duration_samples == o.source_state.tone_duration_samples
    &&& same_identity(o, n)
    &&& match flush {
        Some(f) => {
            &&& o.sink_state.record_file_path == Some(f.path)
            &&& o.sink_state.record_buffer@.len() > 0
            &&& f.samples@ == o.sink_state.record_buffer@
            &&& f.format == o.sink_state.format
            &&& f.settings == o.sink_state.record_settings
        },
        None => o.sink_state.record_file_path is None || o.sink_state.record_buffer@.len() == 0,
    }
}

/// `n` is `o` after starting playback of `samples` from `file_path`.
pub open spec fn playback_started<B>(
    o: DevicePair<B>,
    n: DevicePair<B>,
    file_path: Seq<char>,
    loop_count: Option<u32>,
    volume_bits: u32,
    samples: Seq<u32>,
) -> bool {
    &&& n.source_state.playback_buffer@ == samples
    &&& n.source_state.playback_pos == 0
    &&& n.source_state.playback_loop_count == loop_count
    &&& n.source_state.playback_loops_done == 0
    &&& n.source_state.playback_volume_bits == volume_bits
    &&& n.source_state.active_job matches Some(ActiveJob::Playback { file_path: p, looping, volume_bits: v })
        && p@ == file_path && looping == spec_looping(loop_count) && v == volume_bits
    &&& n.source_state.format == o.source_state.format
    &&& n.source_state.stream_in_buffer == o.source_state.stream_in_buffer
    &&& same_tone(o.source_state, n.source_state)
    &&& n.sink_state == o.sink_state
    &&& same_identity(o, n)
}

/// `n` is `o` after starting a raw stream in `direction` over `buffer`.
pub open spec fn stream_started<B>(o: DevicePair<B>, n: DevicePair<B>, direction: StreamDirection, buffer: B) -> bool {
    &&& direction == StreamDirection::In ==> {
        &&& n.source_state.stream_in_buffer == Some(buffer)
        &&& n.source_state.active_job == Some(ActiveJob::Streaming { direction: StreamDirection::In })
        &&& n.sink_state == o.sink_state
        &&& n.source_state.format == o.source_state.format
        &&& n.source_state.playback_buffer == o.source_state.playback_buffer
        &&& n.source_state.playback_pos == o.source_state.playback_pos
        &&& n.source_state.playback_loop_count == o.source_state.playback_loop_count
        &&& n.source_state.playback_loops_done == o.source_state.playback_loops_done
        &&& n.source_state.playback_volume_bits == o.source_state.playback_volume_bits
        &&& same_tone(o.source_state, n.source_state)
    }
    &&& direction == StreamDirection::Out ==> {
        &&& n.sink_state.stream_out_buffer == Some(buffer)
        &&& n.sink_state.active_job == Some(ActiveJob::Streaming { direction: StreamDirection::Out })
        &&& n.source_state == o.source_state
        &&& n.sink_state.record_buffer == o.sink_state.record_buffer
        &&& n.sink_state.record_file_path == o.sink_state.record_file_path
        &&& n.sink_state.record_settings == o.sink_state.record_settings
        &&& n.sink_state.format == o.sink_state.format
    }
    &&& same_identity(o, n)
}

/// `n` is `o` after starting a recording to `file_path`, to be written as
/// `settings` say.
pub open spec fn recording_started<B>(
    o: DevicePair<B>,
    n: DevicePair<B>,
    file_path: Seq<char>,
    settings: RecordSettings,
) -> bool {
    &&& n.sink_state.record_buffer@.len() == 0
    &&& n.sink_state.record_settings == settings
    &&& n.sink_state.record_file_path matches Some(p) && p@ == file_path
    &&& n.sink_state.active_job matches Some(ActiveJob::Recording { file_path: p }) && p@ == file_path
    &&& n.sink_state.stream_out_buffer == o.sink_state.stream_out_buffer
    &&& n.sink_state.format == o.sink_state.format
    &&& n.source_state == o.source_state
    &&& same_identity(o, n)
}

impl<B> DevicePair<B> {
    /// A fresh, idle pair in the given format.
    pub fn new(name: &str, source_description: &str, sink_description: &str, format: AudioFormat) -> (r: Self)
        ensures
            r.name@ == name@,
            r.source_description@ == source_description@,
            r.sink_description@ == sink_description@,
            r.source_state.format == format,
            r.sink_state.format == format,
            r.source_state.active_job is None,
            r.sink_state.active_job is None,
            r.source_state.tone_phase_bits == 0,
            r.source_state.tone_frequency_bits == FREQUENCY_440_BITS,
            r.source_state.tone_volume_bits == VOLUME_ONE_BITS,
            r.source_state.tone_waveform == WaveformKind::Sine,
            r.source_state.tone_samples_produced == 0,
            r.source_state.tone_duration_samples is None,
            r.source_state.playback_buffer@.len() == 0,
            r.source_state.playback_pos == 0,
            r.source_state.playback_loop_count is None,
            r.source_state.playback_loops_done == 0,
            r.source_state.playback_volume_bits == VOLUME_ONE_BITS,
            r.source_state.stream_in_buffer is None,
            r.sink_state.record_buffer@.len() == 0,
            r.sink_state.record_file_path is None,
            r.sink_state.record_settings == (RecordSettings { output: None, sample_rate: None, channels: None }),
            r.sink_state.stream_out_buffer is None,
    {
        DevicePair {
            name: name.to_owned(),
            source_description: source_description.to_owned(),
            sink_description: sink_description.to_owned(),
            source_state: SourceState {
                format,
                active_job: None,
                tone_phase_bits: 0,
                tone_frequency_bits: FREQUENCY_440_BITS,
                tone_volume_bits: VOLUME_ONE_BITS,
                tone_waveform: WaveformKind::Sine,
                tone_samples_produced: 0,
                tone_duration_samples: None,
                playback_buffer: Vec::new(),
                playback_pos: 0,
                playback_loop_count: None,
                playback_loops_done: 0,
                playback_volume_bits: VOLUME_ONE_BITS,
                stream_in_buffer: None,
            },
            sink_state: SinkState {
                format,
                active_job: None,
                record_buffer: Vec::new(),
                record_file_path: None,
                record_settings: RecordSettings { output: None, sample_rate: None, channels: None },
                stream_out_buffer: None,
            },
        }
    }

    /// What the daemon reports about this pair.
    pub fn info(&self) -> (r: DeviceInfo)
        ensures
            r.name@ == self.name@,
            r.source_description@ == self.source_description@,
            r.sink_description@ == self.sink_description@,
            r.format == self.source_state.format,
            r.active_job == spec_reported_job(*self),
    {
        let active_job = match &self.source_state.active_job {
            Some(job) => Some(job.clone()),
            None => match &self.sink_state.active_job {
                Some(job) => Some(job.clone()),
                None => None,
            },
        };
        DeviceInfo {
            name: self.name.clone(),
            source_description: self.source_description.clone(),
            sink_description: self.sink_description.clone(),
            format: self.source_state.format,
            active_job,
        }
    }

    /// Start a tone on the source. `duration_samples` is the tone's length in
    /// frames, if it has one.
    pub fn start_tone(&mut self, waveform: WaveformKind, frequency_bits: u64, volume_bits: u32, duration_samples: Option<u64>)
        ensures
            tone_started(*old(self), *final(self), waveform, frequency_bits, volume_bits, duration_samples),
    {
        self.source_state.active_job = Some(ActiveJob::Tone { waveform, frequency_bits, volume_bits });
        self.source_state.tone_waveform = waveform;
        self.source_state.tone_frequency_bits = frequency_bits;
        self.source_state.tone_volume_bits = volume_bits;
        self.source_state.tone_phase_bits = 0;
        self.source_state.tone_samples_produced = 0;
        self.source_state.tone_duration_samples = duration_samples;
    }

    /// Stop every job on the pair: the source and the sink both become idle,
    /// the playback buffer, recording buffer and stream buffers are dropped.
    /// A recording with a path and at least one sample is handed back to be
    /// written out.
    pub fn stop_job(&mut self) -> (r: Option<RecordingFlush>)
        ensures
            job_stopped(*old(self), *final(self), r),
    {
        self.source_state.active_job = None;
        self.source_state.playback_buffer = Vec::new();
        self.source_state.playback_pos = 0;
        self.source_state.stream_in_buffer = None;

        self.sink_state.active_job = None;
        let path = self.sink_state.record_file_path.take();
        let mut samples: Vec<u32> = Vec::new();
        std::mem::swap(&mut samples, &mut self.sink_state.record_buffer);
        self.sink_state.stream_out_buffer = None;
        match path {
            Some(path) => {
                if samples.len() > 0 {
                    Some(RecordingFlush { samples, path, format: self.sink_state.format, settings: self.sink_state.record_settings })
                } else {
                    None
                }
            },
            None => None,
        }
    }

    /// Start playing decoded samples (as `f32` bit patterns) on the source,
    /// from the start, with the given loop count and volume.
    pub fn start_playback(&mut self, file_path: &str, loop_count: Option<u32>, volume_bits: u32, samples: Vec<u32>)
        ensures
            playback_started(*old(self), *final(self), file_path@, loop_count, volume_bits, samples@),
    {
        self.source_state.playback_buffer = samples;
        self.source_state.playback_pos = 0;
        self.source_state.playback_loop_count = loop_count;
        self.source_state.playback_loops_done = 0;
        self.source_state.playback_volume_bits = volume_bits;
        let looping = match loop_count {
            Some(n) => n != 1,
            None => false,
        };
        self.source_state.active_job = Some(ActiveJob::Playback {
            file_path: file_path.to_owned(),
            looping,
            volume_bits,
        });
    }

    /// Start raw streaming: into the source (fed from `buffer`) or out of the
    /// sink (feeding `buffer`).
    pub fn start_stream(&mut self, direction: StreamDirection, buffer: B)
        ensures
            stream_started(*old(self), *final(self), direction, buffer),
    {
        match direction {
            StreamDirection::In => {
                self.source_state.stream_in_buffer = Some(buffer);
                self.source_state.active_job = Some(ActiveJob::Streaming { direction: StreamDirection::In });
            },
            StreamDirection::Out => {
                self.sink_state.stream_out_buffer = Some(buffer);
                self.sink_state.active_job = Some(ActiveJob::Streaming { direction: StreamDirection::Out });
            },
        }
    }

    /// Start recording the sink to `file_path`, to be written as `settings`
    /// say; samples from an earlier recording are dropped.
    pub fn start_recording(&mut self, file_path: &str, settings: RecordSettings)
        ensures
            recording_started(*old(self), *final(self), file_path@, settings),
    {
        self.sink_state.record_buffer = Vec::new();
        self.sink_state.record_settings = settings;
        self.sink_state.record_file_path = Some(file_path.to_owned());
        self.sink_state.active_job = Some(ActiveJob::Recording { file_path: file_path.to_owned() });
    }
}

} // verus!
