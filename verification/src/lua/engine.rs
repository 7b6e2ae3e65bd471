use vstd::prelude::*;

use crate::audio::interface::AudioBuffer;
use crate::lua::api::{ConnectionApiEvent, ControlFlowApiEvent, LogApiEvent};
use crate::midi::MidiData;
use vstd::std_specs::convert::FromSpecImpl;

verus! {

/// What the host sends to the scripting engine.
#[derive(Debug)]
pub enum HostEvent {
    LoadScript { name: String, chunk: String },
    Discover(Vec<String>),
    Connect(String),
    Midi(MidiData),
    Audio(AudioBuffer),
    Stop,
    Terminate,
}

/// What the scripting engine sends back to the host.
#[derive(Debug)]
pub enum ScriptEvent {
    Midi(MidiData),
    Log(LogApiEvent),
    Control(ControlFlowApiEvent),
    Connect(ConnectionApiEvent),
    Loaded,
}

impl From<LogApiEvent> for ScriptEvent {
    fn from(event: LogApiEvent) -> (r: Self) {
        ScriptEvent::Log(event)
    }
}

impl FromSpecImpl<LogApiEvent> for ScriptEvent {
    open spec fn obeys_from_spec() -> bool {
        true
    }

    open spec fn from_spec(event: LogApiEvent) -> Self {
        ScriptEvent::Log(event)
    }
}

impl From<ControlFlowApiEvent> for ScriptEvent {
    fn from(event: ControlFlowApiEvent) -> (r: Self) {
        ScriptEvent::Control(event)
    }
}

impl FromSpecImpl<ControlFlowApiEvent> for ScriptEvent {
    open spec fn obeys_from_spec() -> bool {
        true
    }

    open spec fn from_spec(event: ControlFlowApiEvent) -> Self {
        ScriptEvent::Control(event)
    }
}

impl From<ConnectionApiEvent> for ScriptEvent {
    fn from(event: ConnectionApiEvent) -> (r: Self) {
        ScriptEvent::Connect(event)
    }
}

impl FromSpecImpl<ConnectionApiEvent> for ScriptEvent {
    open spec fn obeys_from_spec() -> bool {
        true
    }

    open spec fn from_spec(event: ConnectionApiEvent) -> Self {
        ScriptEvent::Connect(event)
    }
}

} // verus!
