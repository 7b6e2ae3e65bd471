use vstd::prelude::*;

use crate::streams::audio::{AudioChannelSelection, AudioDevice};

verus! {

/// What the receiving side asks of the transmitting side.
#[derive(Debug)]
pub enum AudioRequest {
    GetDevices,
    Connect { device: AudioDevice, channels: AudioChannelSelection },
}

/// What the transmitting side sends back: its devices, or deinterleaved
/// audio, one vector of samples (`f32` bit patterns) per channel.
#[derive(Debug)]
pub enum AudioResponse {
    Devices(Vec<AudioDevice>),
    Audio(Vec<Vec<u32>>),
}

} // verus!
