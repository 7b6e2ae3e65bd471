//! Scriptable audio tools: audio buffers and channel selections, the packet
//! format used to stream audio over UDP, and the state that the MIDI and audio
//! applications keep between events.

pub mod apps;
pub mod audio;
pub mod channel;
pub mod comms;
pub mod controllers;
pub mod error;
pub mod locations;
pub mod logger;
pub mod lua;
pub mod midi;
pub mod streams;
pub mod text;
pub mod ui;
