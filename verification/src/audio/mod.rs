//! Audio buffers, devices, channel selections, and the channel mapping
//! between host streams and buffers.

pub mod ffi;
pub mod host;
pub mod interface;
pub mod net;


