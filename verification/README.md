# aud

Audio and MIDI tools: the state and decisions of an oscilloscope and of a
MIDI monitor, including how they react to the events of a script, and the
streaming of audio between machines over UDP.

- `src/` is the library, verified with Verus: audio buffers and channel
  selections, the packet format and its reassembly (`comms`), the remote
  receiver and transmitter (`audio::net`, `apps::audio_remote`), the C-side
  providers (`audio::ffi`, `streams::ffi`), the applications' state and
  their reactions to script events (`apps`, `controllers`, `lua`), and the
  terminal interface's components and keys (`ui`).
- `app/` is the `aud` program. It holds the UDP socket threads, the bincode
  encoding of the messages, the logger, and the C entry points. Its one
  command, `auscope`, shows audio from a remote source (`--remote`) in the
  terminal. The program has no script engine, no MIDI monitor command and
  no host audio.
- `tests/` runs the library on concrete values.
