# audiomock

A virtual audio device emulator for testing software in QEMU: a daemon
(`audiomockd`) keeps PipeWire source/sink pairs that a VM connects to, and a
command-line client generates tones, plays files, records, streams raw PCM
and links devices to QEMU.

## Layout

- `src/` — the verified library (Verus). Every function carries a contract
  that Verus proves:
  - `registry`, `device` — the set of device pairs and the job state machine
    of each pair (tone, playback with loop counts, recording, streaming),
    with laws on stopping, independence of pairs and create/destroy;
  - `ring_buffer` — the bounded FIFO that carries raw stream samples, with
    its FIFO and capacity laws;
  - `protocol` — length-prefixed framing of IPC messages, with its
    round-trip law;
  - `pcm`, `wav` — little-endian sample codecs (F32LE, and S16LE scaled
    exactly to float bit patterns) and the WAV writer;
  - `recording` — how a finished recording is written: the requested
    container, rate and channels, and the encoding pipeline description;
  - `messages` — which registry command a request becomes and which response
    an outcome gives;
  - `config`, `audio`, `cli`, `link`, `stream`, `text` — configuration
    defaults, format names, parsing of user input, port linking plans,
    stream socket paths, the stream decoder that keeps a sample split
    across two socket reads, and string helpers.
- `app/` — the programs around it: sockets, async runtime, PipeWire and
  GStreamer calls, serde and clap, and floating-point tone synthesis.
- `tests/` — tests of the library on concrete values.
