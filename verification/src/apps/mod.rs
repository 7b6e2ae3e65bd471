//! The applications' state: what they hold between events, and how they
//! react to the events of devices and scripts.

pub mod audio_midi;
pub mod audio_remote;
pub mod auscope;
pub mod midimon;
