//! The daemon's set of device pairs, keyed by name, and the commands it runs
//! on them. Every command on a name that is not present fails with
//! "Device '<name>' not found" and changes nothing.
use vstd::prelude::*;
use vstd::string::*;

use crate::audio::{AudioFormat, WaveformKind};
use crate::device::{
    job_stopped, pair_ok, playback_started, playback_rendered, same_identity, samples_captured, spec_source_mode, SourceMode,
    recording_started, spec_reported_job, stream_started, tone_block_done, tone_params_match, tone_started, ActiveJob, DeviceInfo, DevicePair, RecordSettings, RecordingFlush, StreamDirection,
};

verus! {

/// The error for a command on a name that is not present.
pub open spec fn not_found_message(name: Seq<char>) -> Seq<char> {
    "Device '"@ + name + "' not found"@
}

/// The error for creating a pair whose name is taken.
pub open spec fn already_exists_message(name: Seq<char>) -> Seq<char> {
    "Device '"@ + name + "' already exists"@
}

/// `"Device '{name}' not found"`.
pub fn device_not_found_message(name: &str) -> (r: String)
    ensures
        r@ == not_found_message(name@),
{
    let mut s = String::from_str("Device '");
    s.append(name);
    s.append("' not found");
    s
}

/// `"Device '{name}' already exists"`.
pub fn device_exists_message(name: &str) -> (r: String)
    ensures
        r@ == already_exists_message(name@),
{
    let mut s = String::from_str("Device '");
    s.append(name);
    s.append("' already exists");
    s
}

/// No two pairs share a name.
pub open spec fn names_distinct<B>(pairs: Seq<DevicePair<B>>) -> bool {
    forall|i: int, j: int|
        0 <= i < pairs.len() && 0 <= j < pairs.len() && i != j ==> #[trigger] pairs[i].name@
            != #[trigger] pairs[j].name@
}

/// Some pair is called `name`.
/// Names are distinct and every pair is in a consistent state.
pub open spec fn wf_pairs<B>(pairs: Seq<DevicePair<B>>) -> bool {
    &&& names_distinct(pairs)
    &&& forall|i: int| 0 <= i < pairs.len() ==> pair_ok(#[trigger] pairs[i])
}

pub open spec fn has_name<B>(pairs: Seq<DevicePair<B>>, name: Seq<char>) -> bool {
    exists|i: int| 0 <= i < pairs.len() && #[trigger] pairs[i].name@ == name
}

/// Position of the pair called `name` (meaningful when there is one).
pub open spec fn index_of<B>(pairs: Seq<DevicePair<B>>, name: Seq<char>) -> int {
    choose|i: int| 0 <= i < pairs.len() && #[trigger] pairs[i].name@ == name
}

/// `n` is `o` with at most the pair at `i` changed.
pub open spec fn others_unchanged<B>(o: Seq<DevicePair<B>>, n: Seq<DevicePair<B>>, i: int) -> bool {
    &&& n.len() == o.len()
    &&& forall|j: int| 0 <= j < o.len() && j != i ==> #[trigger] n[j] == o[j]
}

/// `info` is what the pair `p` reports.
pub open spec fn reports<B>(info: DeviceInfo, p: DevicePair<B>) -> bool {
    &&& info.name@ == p.name@
    &&& info.source_description@ == p.source_description@
    &&& info.sink_description@ == p.sink_description@
    &&& info.format == p.source_state.format
    &&& info.active_job == spec_reported_job(p)
}

/// With distinct names, the pair called `name` is found at its position.
pub proof fn lemma_index_of<B>(pairs: Seq<DevicePair<B>>, name: Seq<char>, i: int)
    requires
        names_distinct(pairs),
        0 <= i < pairs.len(),
        pairs[i].name@ == name,
    ensures
        index_of(pairs, name) == i,
        has_name(pairs, name),
{
    let k = index_of(pairs, name);
    assert(0 <= k < pairs.len() && pairs[k].name@ == name);
}

/// The device pairs of the daemon, in the order they were created.
pub struct DeviceRegistry<B> {
    devices: Vec<DevicePair<B>>,
}

impl<B> DeviceRegistry<B> {
    /// The pairs, in the order they were created.
    pub closed spec fn pairs(&self) -> Seq<DevicePair<B>> {
        self.devices@
    }

    /// Names are distinct and every pair is in a consistent state.
    #[verifier::type_invariant]
    spec fn inv(&self) -> bool {
        wf_pairs(self.devices@)
    }

    /// Move the pairs out, leaving none behind.
    fn take_devices(&mut self) -> (r: Vec<DevicePair<B>>)
        ensures
            r@ == old(self).pairs(),
            wf_pairs(r@),
            final(self).pairs() == Seq::<DevicePair<B>>::empty(),
    {
        proof {
            use_type_invariant(&*self);
        }
        let mut devices: Vec<DevicePair<B>> = Vec::new();
        std::mem::swap(&mut devices, &mut self.devices);
        devices
    }

    /// No device pairs.
    pub fn new() -> (r: Self)
        ensures
            r.pairs() == Seq::<DevicePair<B>>::empty(),
    {
        DeviceRegistry { devices: Vec::new() }
    }

    /// Number of device pairs.
    pub fn len(&self) -> (r: usize)
        ensures
            r == self.pairs().len(),
    {
        self.devices.len()
    }

    /// Position of the pair called `name`, if there is one.
    pub fn find(&self, name: &str) -> (r: Option<usize>)
        ensures
            r is None <==> !has_name(self.pairs(), name@),
            r matches Some(i) ==> i == index_of(self.pairs(), name@) && i < self.pairs().len()
                && self.pairs()[i as int].name@ == name@,
    {
        proof {
            use_type_invariant(self);
        }
        let n = self.devices.len();
        let mut i: usize = 0;
        while i < n
            invariant
                n == self.devices@.len(),
                i <= n,
                wf_pairs(self.devices@),
                forall|j: int| 0 <= j < i ==> #[trigger] self.devices@[j].name@ != name@,
            decreases n - i,
        {
            if crate::text::str_equals(self.devices[i].name.as_str(), name) {
                proof {
                    lemma_index_of(self.pairs(), name@, i as int);
                }
                return Some(i);
            }
            i = i + 1;
        }
        None
    }

    /// Whether a pair called `name` exists.
    pub fn contains(&self, name: &str) -> (r: bool)
        ensures
            r == has_name(self.pairs(), name@),
    {
        self.find(name).is_some()
    }

    /// The format of the pair called `name`, if there is one.
    pub fn format_of(&self, name: &str) -> (r: Option<AudioFormat>)
        ensures
            r is Some <==> has_name(self.pairs(), name@),
            r matches Some(f) ==> f == self.pairs()[index_of(self.pairs(), name@)].source_state.format,
    {
        match self.find(name) {
            Some(i) => Some(self.devices[i].source_state.format),
            None => None,
        }
    }

    /// Whether a pair called `name` may be created: not if the name is taken.
    pub fn check_create(&self, name: &str) -> (r: Result<(), String>)
        ensures
            r is Ok <==> !has_name(self.pairs(), name@),
            r matches Err(e) ==> e@ == already_exists_message(name@),
    {
        if self.contains(name) {
            Err(device_exists_message(name))
        } else {
            Ok(())
        }
    }

    /// Add a pair whose name is not taken; it goes last.
    pub fn insert(&mut self, pair: DevicePair<B>)
        requires
            !has_name(old(self).pairs(), pair.name@),
            pair_ok(pair),
        ensures
            final(self).pairs() == old(self).pairs().push(pair),
    {
        let mut devices = self.take_devices();
        devices.push(pair);
        self.devices = devices;
    }

    /// Add a pair, replacing the pair of the same name if there is one: the
    /// old pair leaves its place and the new one goes last. Returns whether a
    /// pair was replaced.
    pub fn replace(&mut self, pair: DevicePair<B>) -> (r: bool)
        requires
            pair_ok(pair),
        ensures
            r == has_name(old(self).pairs(), pair.name@),
            final(self).pairs() == (if r {
                old(self).pairs().remove(index_of(old(self).pairs(), pair.name@))
            } else {
                old(self).pairs()
            }).push(pair),
    {
        let replaced = self.destroy(pair.name.as_str()).is_ok();
        self.insert(pair);
        replaced
    }

    /// Create an idle pair called `name`, unless the name is taken.
    pub fn create(&mut self, name: &str, source_description: &str, sink_description: &str, format: AudioFormat) -> (r: Result<(), String>)
        ensures
            r is Ok <==> !has_name(old(self).pairs(), name@),
            r matches Err(e) ==> e@ == already_exists_message(name@) && final(self).pairs() == old(self).pairs(),
            r is Ok ==> {
                &&& final(self).pairs().len() == old(self).pairs().len() + 1
                &&& final(self).pairs().subrange(0, old(self).pairs().len() as int) == old(self).pairs()
                &&& final(self).pairs().last().name@ == name@
                &&& final(self).pairs().last().source_description@ == source_description@
                &&& final(self).pairs().last().sink_description@ == sink_description@
                &&& final(self).pairs().last().source_state.format == format
                &&& spec_reported_job(final(self).pairs().last()) is None
            },
    {
        match self.check_create(name) {
            Err(e) => Err(e),
            Ok(()) => {
                let pair = DevicePair::new(name, source_description, sink_description, format);
                self.insert(pair);
                proof {
                    assert(self.pairs().subrange(0, old(self).pairs().len() as int) =~= old(self).pairs());
                }
                Ok(())
            },
        }
    }

    /// Remove the pair called `name`.
    pub fn destroy(&mut self, name: &str) -> (r: Result<(), String>)
        ensures
            r is Ok <==> has_name(old(self).pairs(), name@),
            r matches Err(e) ==> e@ == not_found_message(name@) && final(self).pairs() == old(self).pairs(),
            r is Ok ==> final(self).pairs() == old(self).pairs().remove(index_of(old(self).pairs(), name@)),
            !has_name(final(self).pairs(), name@),
    {
        match self.find(name) {
            None => Err(device_not_found_message(name)),
            Some(i) => {
                let mut devices = self.take_devices();
                let ghost o = devices@;
                devices.remove(i);
                proof {
                    assert(devices@ =~= o.remove(i as int));
                    assert forall|a: int, b: int|
                        0 <= a < devices@.len() && 0 <= b < devices@.len() && a != b
                        implies #[trigger] devices@[a].name@ != #[trigger] devices@[b].name@ by {
                        let a0 = if a < i { a } else { a + 1 };
                        let b0 = if b < i { b } else { b + 1 };
                        assert(devices@[a] == o[a0]);
                        assert(devices@[b] == o[b0]);
                    }
                    assert forall|j: int| 0 <= j < devices@.len() implies pair_ok(#[trigger] devices@[j]) by {
                        let j0 = if j < i { j } else { j + 1 };
                        assert(devices@[j] == o[j0]);
                    }
                    if has_name(devices@, name@) {
                        let k = choose|k: int| 0 <= k < devices@.len() && #[trigger] devices@[k].name@ == name@;
                        let k0 = if k < i { k } else { k + 1 };
                        assert(devices@[k] == o[k0]);
                    }
                }
                self.devices = devices;
                Ok(())
            },
        }
    }

    /// What every pair reports, in registry order.
    pub fn list(&self) -> (r: Vec<DeviceInfo>)
        ensures
            r@.len() == self.pairs().len(),
            forall|i: int| 0 <= i < r@.len() ==> reports(#[trigger] r@[i], self.pairs()[i]),
    {
        let n = self.devices.len();
        let mut out: Vec<DeviceInfo> = Vec::new();
        let mut i: usize = 0;
        while i < n
            invariant
                n == self.devices@.len(),
                i <= n,
                out@.len() == i,
                forall|j: int| 0 <= j < i ==> reports(#[trigger] out@[j], self.devices@[j]),
            decreases n - i,
        {
            out.push(self.devices[i].info());
            i = i + 1;
        }
        out
    }

    /// Start a tone on the source of the pair called `name`.
    pub fn start_tone(&mut self, name: &str, waveform: WaveformKind, frequency_bits: u64, volume_bits: u32, duration_samples: Option<u64>) -> (r: Result<(), String>)
        ensures
            r is Ok <==> has_name(old(self).pairs(), name@),
            r matches Err(e) ==> e@ == not_found_message(name@) && final(self).pairs() == old(self).pairs(),
            r is Ok ==> {
                let i = index_of(old(self).pairs(), name@);
                &&& others_unchanged(old(self).pairs(), final(self).pairs(), i)
                &&& tone_started(old(self).pairs()[i], final(self).pairs()[i], waveform, frequency_bits, volume_bits, duration_samples)
            },
    {
        match self.find(name) {
            None => Err(device_not_found_message(name)),
            Some(i) => {
                let mut devices = self.take_devices();
                let ghost o = devices@;
                devices[i].start_tone(waveform, frequency_bits, volume_bits, duration_samples);
                proof { lemma_one_changed(o, devices@, i as int); }
                self.devices = devices;
                Ok(())
            },
        }
    }

    /// Stop every job on the pair called `name`; a finished recording is
    /// handed back to be written out.
    pub fn stop_job(&mut self, name: &str) -> (r: Result<Option<RecordingFlush>, String>)
        ensures
            r is Ok <==> has_name(old(self).pairs(), name@),
            r matches Err(e) ==> e@ == not_found_message(name@) && final(self).pairs() == old(self).pairs(),
            r matches Ok(flush) ==> {
                let i = index_of(old(self).pairs(), name@);
                &&& others_unchanged(old(self).pairs(), final(self).pairs(), i)
                &&& job_stopped(old(self).pairs()[i], final(self).pairs()[i], flush)
            },
    {
        match self.find(name) {
            None => Err(device_not_found_message(name)),
            Some(i) => {
                let mut devices = self.take_devices();
                let ghost o = devices@;
                let flush = devices[i].stop_job();
                proof { lemma_one_changed(o, devices@, i as int); }
                self.devices = devices;
                Ok(flush)
            },
        }
    }

    /// Start playing decoded samples on the source of the pair called `name`.
    pub fn start_playback(&mut self, name: &str, file_path: &str, loop_count: Option<u32>, volume_bits: u32, samples: Vec<u32>) -> (r: Result<(), String>)
        ensures
            r is Ok <==> has_name(old(self).pairs(), name@),
            r matches Err(e) ==> e@ == not_found_message(name@) && final(self).pairs() == old(self).pairs(),
            r is Ok ==> {
                let i = index_of(old(self).pairs(), name@);
                &&& others_unchanged(old(self).pairs(), final(self).pairs(), i)
                &&& playback_started(old(self).pairs()[i], final(self).pairs()[i], file_path@, loop_count, volume_bits, samples@)
            },
    {
        match self.find(name) {
            None => Err(device_not_found_message(name)),
            Some(i) => {
                let mut devices = self.take_devices();
                let ghost o = devices@;
                devices[i].start_playback(file_path, loop_count, volume_bits, samples);
                proof { lemma_one_changed(o, devices@, i as int); }
                self.devices = devices;
                Ok(())
            },
        }
    }

    /// Start recording the sink of the pair called `name` to `file_path`, to
    /// be written as `settings` say.
    pub fn start_recording(&mut self, name: &str, file_path: &str, settings: RecordSettings) -> (r: Result<(), String>)
        ensures
            r is Ok <==> has_name(old(self).pairs(), name@),
            r matches Err(e) ==> e@ == not_found_message(name@) && final(self).pairs() == old(self).pairs(),
            r is Ok ==> {
                let i = index_of(old(self).pairs(), name@);
                &&& others_unchanged(old(self).pairs(), final(self).pairs(), i)
                &&& recording_started(old(self).pairs()[i], final(self).pairs()[i], file_path@, settings)
            },
    {
        match self.find(name) {
            None => Err(device_not_found_message(name)),
            Some(i) => {
                let mut devices = self.take_devices();
                let ghost o = devices@;
                devices[i].start_recording(file_path, settings);
                proof { lemma_one_changed(o, devices@, i as int); }
                self.devices = devices;
                Ok(())
            },
        }
    }

    /// Start raw streaming on the pair called `name` over `buffer`.
    pub fn start_stream(&mut self, name: &str, direction: StreamDirection, buffer: B) -> (r: Result<(), String>)
        ensures
            r is Ok <==> has_name(old(self).pairs(), name@),
            r matches Err(e) ==> e@ == not_found_message(name@) && final(self).pairs() == old(self).pairs(),
            r is Ok ==> {
                let i = index_of(old(self).pairs(), name@);
                &&& others_unchanged(old(self).pairs(), final(self).pairs(), i)
                &&& stream_started(old(self).pairs()[i], final(self).pairs()[i], direction, buffer)
            },
    {
        match self.find(name) {
            None => Err(device_not_found_message(name)),
            Some(i) => {
                let mut devices = self.take_devices();
                let ghost o = devices@;
                devices[i].start_stream(direction, buffer);
                proof { lemma_one_changed(o, devices@, i as int); }
                self.devices = devices;
                Ok(())
            },
        }
    }

    /// What the source of the pair called `name` produces next.
    pub fn source_mode(&self, name: &str) -> (r: Option<SourceMode>)
        ensures
            r is Some <==> has_name(self.pairs(), name@),
            r matches Some(m) ==> m == spec_source_mode(self.pairs()[index_of(self.pairs(), name@)].source_state),
    {
        match self.find(name) {
            None => None,
            Some(i) => Some(self.devices[i].source_state.mode()),
        }
    }

    /// Account for a synthesized tone block on the pair called `name`.
    pub fn finish_tone_block(&mut self, name: &str, n_frames: u64, phase_bits: u64) -> (r: bool)
        requires
            has_name(old(self).pairs(), name@) ==> old(self).pairs()[index_of(old(self).pairs(), name@)].source_state.tone_samples_produced
                + n_frames <= u64::MAX,
        ensures
            r == has_name(old(self).pairs(), name@),
            !r ==> final(self).pairs() == old(self).pairs(),
            r ==> {
                let i = index_of(old(self).pairs(), name@);
                &&& others_unchanged(old(self).pairs(), final(self).pairs(), i)
                &&& tone_block_done(old(self).pairs()[i].source_state, final(self).pairs()[i].source_state, n_frames, phase_bits)
                &&& final(self).pairs()[i].sink_state == old(self).pairs()[i].sink_state
                &&& same_identity(old(self).pairs()[i], final(self).pairs()[i])
            },
    {
        match self.find(name) {
            None => false,
            Some(i) => {
                let mut devices = self.take_devices();
                let ghost o = devices@;
                devices[i].source_state.finish_tone_block(n_frames, phase_bits);
                proof { lemma_one_changed(o, devices@, i as int); }
                self.devices = devices;
                true
            },
        }
    }

    /// The next playback block of the pair called `name`, if it is playing.
    pub fn render_playback(&mut self, name: &str, n_frames: usize, channels: usize) -> (r: Option<Vec<Option<u32>>>)
        requires
            n_frames * channels <= usize::MAX,
        ensures
            r is Some <==> has_name(old(self).pairs(), name@) && spec_source_mode(
                old(self).pairs()[index_of(old(self).pairs(), name@)].source_state,
            ) == SourceMode::Playback,
            r is None ==> final(self).pairs() == old(self).pairs(),
            r matches Some(block) ==> {
                let i = index_of(old(self).pairs(), name@);
                &&& others_unchanged(old(self).pairs(), final(self).pairs(), i)
                &&& playback_rendered(
                    old(self).pairs()[i].source_state,
                    final(self).pairs()[i].source_state,
                    n_frames as nat,
                    channels as nat,
                    block@,
                )
                &&& final(self).pairs()[i].sink_state == old(self).pairs()[i].sink_state
                &&& same_identity(old(self).pairs()[i], final(self).pairs()[i])
            },
    {
        match self.find(name) {
            None => None,
            Some(i) => {
                if self.devices[i].source_state.mode() != SourceMode::Playback {
                    return None;
                }
                let mut devices = self.take_devices();
                let ghost o = devices@;
                let block = devices[i].source_state.render_playback(n_frames, channels);
                proof { lemma_one_changed(o, devices@, i as int); }
                self.devices = devices;
                Some(block)
            },
        }
    }

    /// Whether the sink of the pair called `name` has a job and so takes audio in.
    pub fn sink_capturing(&self, name: &str) -> (r: bool)
        ensures
            r == (has_name(self.pairs(), name@)
                && self.pairs()[index_of(self.pairs(), name@)].sink_state.active_job is Some),
    {
        match self.find(name) {
            None => false,
            Some(i) => self.devices[i].sink_state.is_capturing(),
        }
    }

    /// Take a block of samples into the sink of the pair called `name`;
    /// returns whether the sink has a job (and so takes audio in).
    pub fn capture(&mut self, name: &str, samples: &[u32]) -> (r: bool)
        ensures
            !has_name(old(self).pairs(), name@) ==> !r && final(self).pairs() == old(self).pairs(),
            has_name(old(self).pairs(), name@) ==> {
                let i = index_of(old(self).pairs(), name@);
                &&& r == old(self).pairs()[i].sink_state.active_job is Some
                &&& others_unchanged(old(self).pairs(), final(self).pairs(), i)
                &&& samples_captured(old(self).pairs()[i].sink_state, final(self).pairs()[i].sink_state, samples@)
                &&& final(self).pairs()[i].source_state == old(self).pairs()[i].source_state
                &&& same_identity(old(self).pairs()[i], final(self).pairs()[i])
            },
    {
        match self.find(name) {
            None => false,
            Some(i) => {
                let mut devices = self.take_devices();
                let ghost o = devices@;
                let capturing = devices[i].sink_state.is_capturing();
                devices[i].sink_state.capture(samples);
                proof { lemma_one_changed(o, devices@, i as int); }
                self.devices = devices;
                capturing
            },
        }
    }

    /// The stream-in buffer of the pair called `name`, if it has one.
    pub fn stream_in_buffer(&self, name: &str) -> (r: Option<&B>)
        ensures
            r matches Some(b) ==> has_name(self.pairs(), name@)
                && self.pairs()[index_of(self.pairs(), name@)].source_state.stream_in_buffer == Some(*b),
            r is None ==> !has_name(self.pairs(), name@)
                || self.pairs()[index_of(self.pairs(), name@)].source_state.stream_in_buffer is None,
    {
        match self.find(name) {
            None => None,
            Some(i) => match &self.devices[i].source_state.stream_in_buffer {
                Some(b) => Some(b),
                None => None,
            },
        }
    }

    /// The stream-out buffer of the pair called `name`, if it has one.
    pub fn stream_out_buffer(&self, name: &str) -> (r: Option<&B>)
        ensures
            r matches Some(b) ==> has_name(self.pairs(), name@)
                && self.pairs()[index_of(self.pairs(), name@)].sink_state.stream_out_buffer == Some(*b),
            r is None ==> !has_name(self.pairs(), name@)
                || self.pairs()[index_of(self.pairs(), name@)].sink_state.stream_out_buffer is None,
    {
        match self.find(name) {
            None => None,
            Some(i) => match &self.devices[i].sink_state.stream_out_buffer {
                Some(b) => Some(b),
                None => None,
            },
        }
    }

    /// The source state of the pair called `name`, for reading.
    pub fn source_state(&self, name: &str) -> (r: Option<&crate::device::SourceState<B>>)
        ensures
            r is Some <==> has_name(self.pairs(), name@),
            r matches Some(s) ==> *s == self.pairs()[index_of(self.pairs(), name@)].source_state,
    {
        match self.find(name) {
            None => None,
            Some(i) => Some(&self.devices[i].source_state),
        }
    }
}

/// With the pair at `i` changed in place but keeping its name and staying
/// consistent, names stay distinct and every pair stays consistent.
proof fn lemma_one_changed<B>(o: Seq<DevicePair<B>>, n: Seq<DevicePair<B>>, i: int)
    requires
        wf_pairs(o),
        0 <= i < o.len(),
        n.len() == o.len(),
        forall|j: int| 0 <= j < o.len() && j != i ==> #[trigger] n[j] == o[j],
        n[i].name == o[i].name,
        pair_ok(n[i]),
    ensures
        wf_pairs(n),
{
    assert forall|j: int| 0 <= j < n.len() implies pair_ok(#[trigger] n[j]) by {
        if j != i {
            assert(n[j] == o[j]);
        }
    }
    assert forall|a: int, b: int| 0 <= a < n.len() && 0 <= b < n.len() && a != b implies #[trigger] n[a].name@
        != #[trigger] n[b].name@ by {
        assert(n[a].name == o[a].name);
        assert(n[b].name == o[b].name);
    }
}

/// Stop law: after a stop the pair reports no job, neither the source's nor
/// the sink's.
pub proof fn law_stop_leaves_idle<B>(o: DevicePair<B>, n: DevicePair<B>, flush: Option<RecordingFlush>)
    requires
        job_stopped(o, n, flush),
    ensures
        spec_reported_job(n) is None,
{
}

/// Independence law: a command on one pair leaves every other pair, and what
/// it reports, as it was.
pub proof fn law_other_pairs_unchanged<B>(o: Seq<DevicePair<B>>, n: Seq<DevicePair<B>>, i: int, j: int)
    requires
        others_unchanged(o, n, i),
        0 <= j < o.len(),
        j != i,
    ensures
        n[j] == o[j],
        spec_reported_job(n[j]) == spec_reported_job(o[j]),
{
}

/// Tone law: after a tone starts, the pair reports exactly that tone.
pub proof fn law_tone_reported<B>(
    o: DevicePair<B>,
    n: DevicePair<B>,
    waveform: WaveformKind,
    frequency_bits: u64,
    volume_bits: u32,
    duration_samples: Option<u64>,
)
    requires
        tone_started(o, n, waveform, frequency_bits, volume_bits, duration_samples),
    ensures
        spec_reported_job(n) == Some(ActiveJob::Tone { waveform, frequency_bits, volume_bits }),
{
}

/// Tone synthesis law: a tone starts from phase zero with no frames out, and
/// the waveform, frequency and volume the source synthesizes with are the
/// requested ones, the same the pair reports; a timed tone ends after the
/// requested number of frames.
pub proof fn law_tone_synthesized_as_requested<B>(
    o: DevicePair<B>,
    n: DevicePair<B>,
    waveform: WaveformKind,
    frequency_bits: u64,
    volume_bits: u32,
    duration_samples: Option<u64>,
)
    requires
        tone_started(o, n, waveform, frequency_bits, volume_bits, duration_samples),
    ensures
        n.source_state.tone_waveform == waveform,
        n.source_state.tone_frequency_bits == frequency_bits,
        n.source_state.tone_volume_bits == volume_bits,
        n.source_state.tone_phase_bits == 0,
        n.source_state.tone_samples_produced == 0,
        n.source_state.tone_duration_samples == duration_samples,
        tone_params_match(n.source_state),
        pair_ok(n),
{
}

/// Consistency law: in every pair the registry can hold, a source playing a
/// tone synthesizes it with the waveform, frequency and volume it reports.
pub proof fn law_reported_tone_is_synthesized<B>(p: DevicePair<B>)
    requires
        pair_ok(p),
    ensures
        p.source_state.active_job matches Some(ActiveJob::Tone { waveform, frequency_bits, volume_bits })
            ==> p.source_state.tone_waveform == waveform && p.source_state.tone_frequency_bits == frequency_bits
            && p.source_state.tone_volume_bits == volume_bits,
{
}

/// Reporting law: a pair reports its source's job when the source has one,
/// and otherwise whatever job its sink has (recording or streaming out).
pub proof fn law_reported_job<B>(p: DevicePair<B>)
    ensures
        p.source_state.active_job is Some ==> spec_reported_job(p) == p.source_state.active_job,
        p.source_state.active_job is None ==> spec_reported_job(p) == p.sink_state.active_job,
        spec_reported_job(p) is None <==> (p.source_state.active_job is None && p.sink_state.active_job is None),
{
}

/// Stream-out law: starting a stream out of the sink of a pair whose source
/// is idle makes the pair report that stream; with a busy source, the
/// source's job is still reported.
pub proof fn law_stream_out_reported<B>(o: DevicePair<B>, n: DevicePair<B>, buffer: B)
    requires
        stream_started(o, n, StreamDirection::Out, buffer),
    ensures
        o.source_state.active_job is None ==> spec_reported_job(n) == Some(
            ActiveJob::Streaming { direction: StreamDirection::Out },
        ),
        o.source_state.active_job is Some ==> spec_reported_job(n) == o.source_state.active_job,
        n.sink_state.active_job == Some(ActiveJob::Streaming { direction: StreamDirection::Out }),
{
}

/// Recording law: a new recording starts empty, whatever was recorded
/// before, and the pair reports it unless its source is busy.
pub proof fn law_recording_starts_empty<B>(o: DevicePair<B>, n: DevicePair<B>, path: Seq<char>, settings: RecordSettings)
    requires
        recording_started(o, n, path, settings),
    ensures
        n.sink_state.record_buffer@.len() == 0,
        o.source_state.active_job is None ==> (spec_reported_job(n) matches Some(
            ActiveJob::Recording { file_path: p },
        ) && p@ == path),
        o.source_state.active_job is Some ==> spec_reported_job(n) == o.source_state.active_job,
{
}

/// Lifecycle law: destroying a pair that was just created gives back the
/// registry as it was before.
pub proof fn law_create_then_destroy<B>(pairs: Seq<DevicePair<B>>, p: DevicePair<B>)
    requires
        names_distinct(pairs),
        !has_name(pairs, p.name@),
    ensures
        has_name(pairs.push(p), p.name@),
        pairs.push(p).remove(index_of(pairs.push(p), p.name@)) == pairs,
{
    let q = pairs.push(p);
    assert forall|a: int, b: int| 0 <= a < q.len() && 0 <= b < q.len() && a != b implies #[trigger] q[a].name@
        != #[trigger] q[b].name@ by {
        if a == pairs.len() {
            assert(pairs[b] == q[b]);
        } else if b == pairs.len() {
            assert(pairs[a] == q[a]);
        }
    }
    lemma_index_of(q, p.name@, pairs.len() as int);
    assert(q.remove(pairs.len() as int) =~= pairs);
}

} // verus!
