//! MIDI messages and the receivers that produce them.

use vstd::prelude::*;

use crate::error::AudError;

verus! {

/// A MIDI message and the time at which it arrived.
#[derive(Debug)]
pub struct MidiData {
    pub timestamp: u64,
    pub bytes: Vec<u8>,
}

/// A source of MIDI messages: the host's MIDI inputs, or a stand-in.
pub trait MidiReceiving {
    /// Whether the stream of messages runs.
    spec fn stream_active(&self) -> bool;

    /// The name of the port last connected to, if any.
    spec fn connected_port(&self) -> Option<String>;

    fn is_midi_stream_active(&self) -> (r: bool)
        ensures
            r == self.stream_active(),
    ;

    /// Starts or stops the stream; `is_midi_stream_active` then reads the
    /// value given back.
    fn set_midi_stream_active(&mut self, should_be_active: bool)
        ensures
            final(self).stream_active() == should_be_active,
    ;

    fn list_midi_devices(&self) -> Result<Vec<String>, AudError>;

    /// Connects to the port named `device_name`; once that succeeds, it is
    /// the port connected to.
    fn connect_to_midi_device(&mut self, device_name: &str) -> (r: Result<(), AudError>)
        ensures
            r is Ok ==> (final(self).connected_port() matches Some(p) && p@ == device_name@),
    ;

    /// The messages that the next `produce_midi_messages` hands out, oldest
    /// first, for a receiver that states them; `None`, the default, states
    /// nothing.
    open spec fn pending_messages(&self) -> Option<Seq<MidiData>> {
        None
    }

    /// Hands out the messages received since last asked, oldest first.
    fn produce_midi_messages(&mut self) -> (r: Vec<MidiData>)
        ensures
            old(self).pending_messages() matches Some(pending) ==> r@ == pending,
    ;
}

} // verus!
