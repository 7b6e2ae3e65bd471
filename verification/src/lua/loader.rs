//! What the script runtime does for each event of the host: the decisions of
//! the loop that runs scripts, apart from the calls into the runtime that
//! carry them out.

use vstd::prelude::*;

use crate::audio::interface::{deinterleaved, vec_views};
use crate::lua::engine::{HostEvent, ScriptEvent};
use crate::midi::MidiData;

verus! {

/// What the runtime is to do for an event of the host.
#[derive(Debug)]
pub enum LoaderAction {
    /// Stop the script running: its `on_stop` hook, then its release.
    StopScript,
    /// Stop the script running, load the API and then `chunk` under `name`,
    /// start the script, and tell the host that it is loaded.
    LoadScript { name: String, chunk: String },
    /// Tell the script of the devices found.
    Discover(Vec<String>),
    /// Tell the script of the device connected to.
    Connect(String),
    /// Hand a MIDI message of `device` to the script, which may keep it from
    /// the host (see `midi_to_forward`).
    Midi { device: String, midi: MidiData },
    /// Hand the channels of a buffer of `device` to the script.
    Audio { device: String, channels: Vec<Vec<u32>> },
    /// Stop the script running and end the loop.
    Terminate,
}

/// The state that the loop keeps between events: the device connected to.
#[derive(Debug)]
pub struct ScriptLoader {
    device_name: Option<String>,
}

/// The name of the device, or the empty name when there is none.
pub open spec fn device_or_empty(device: Option<Seq<char>>) -> Seq<char> {
    match device {
        Some(d) => d,
        None => Seq::empty(),
    }
}

impl ScriptLoader {
    /// The device connected to, if any.
    pub closed spec fn device(&self) -> Option<Seq<char>> {
        match self.device_name {
            Some(d) => Some(d@),
            None => None,
        }
    }

    /// A loader connected to no device.
    pub fn new() -> (r: Self)
        ensures
            r.device() is None,
    {
        ScriptLoader { device_name: None }
    }

    /// The action for `event`. A connection makes its device the one that
    /// MIDI messages and audio are said to come from.
    pub fn next_action(&mut self, event: HostEvent) -> (r: LoaderAction)
        requires
            event matches HostEvent::Audio(audio) ==> audio.num_channels > 0,
        ensures
            event matches HostEvent::Connect(name) ==> final(self).device() == Some(name@)
                && (r matches LoaderAction::Connect(n) && n@ == name@),
            !(event is Connect) ==> final(self).device() == old(self).device(),
            event is Stop ==> r is StopScript,
            event is Terminate ==> r is Terminate,
            event matches HostEvent::LoadScript { name, chunk } ==> (r matches LoaderAction::LoadScript {
                name: n,
                chunk: c,
            } && n@ == name@ && c@ == chunk@),
            event matches HostEvent::Discover(names) ==> (r matches LoaderAction::Discover(n) && n@ == names@),
            event matches HostEvent::Midi(m) ==> (r matches LoaderAction::Midi { device, midi } && midi == m
                && device@ == device_or_empty(old(self).device())),
            event matches HostEvent::Audio(a) ==> (r matches LoaderAction::Audio { device, channels }
                && device@ == device_or_empty(old(self).device()) && vec_views(channels@) == deinterleaved(
                a.data@,
                a.num_channels as int,
            )),
    {
        match event {
            HostEvent::Stop => LoaderAction::StopScript,
            HostEvent::LoadScript { name, chunk } => LoaderAction::LoadScript { name, chunk },
            HostEvent::Discover(names) => LoaderAction::Discover(names),
            HostEvent::Connect(name) => {
                self.device_name = Some(name.clone());
                LoaderAction::Connect(name)
            },
            HostEvent::Midi(midi) => LoaderAction::Midi { device: self.device_or_empty(), midi },
            HostEvent::Audio(audio) => {
                let channels = audio.deinterleave();
                LoaderAction::Audio { device: self.device_or_empty(), channels }
            },
            HostEvent::Terminate => LoaderAction::Terminate,
        }
    }

    /// The name of the device connected to, or the empty name.
    fn device_or_empty(&self) -> (r: String)
        ensures
            r@ == device_or_empty(self.device()),
    {
        match &self.device_name {
            Some(d) => d.clone(),
            None => String::new(),
        }
    }
}

/// What the host is sent of a MIDI message once the script's `on_midi` hook
/// has seen it: the message, unless the hook answered `false`.
pub fn midi_to_forward(hook_result: Option<bool>, midi: MidiData) -> (r: Option<ScriptEvent>)
    ensures
        hook_result == Some(false) ==> r is None,
        hook_result != Some(false) ==> (r matches Some(ScriptEvent::Midi(m)) && m == midi),
{
    match hook_result {
        Some(false) => None,
        _ => Some(ScriptEvent::Midi(midi)),
    }
}

} // verus!
