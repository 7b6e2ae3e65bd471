//! Controllers that keep an audio source or a MIDI receiver in step with
//! the script: each change of connection yields the event that tells the
//! script of it.

pub mod audio;
pub mod midi;
