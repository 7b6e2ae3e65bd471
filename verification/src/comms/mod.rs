//! Streaming audio over a socket: request/response messages, audio packets
//! and the sequences that reorder them.

pub mod api;
pub mod audio;
pub mod crc;
