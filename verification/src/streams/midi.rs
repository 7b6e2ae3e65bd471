use vstd::prelude::*;

verus! {

/// A MIDI message and the time at which it arrived.
#[derive(Debug)]
pub struct MidiData {
    pub timestamp: u64,
    pub bytes: Vec<u8>,
}

} // verus!
