//! The first form of the streaming API: devices count their `channels`,
//! selections may name a stereo pair, and buffers are deinterleaved.

pub mod audio;
pub mod ffi;
pub mod midi;
pub mod net;
