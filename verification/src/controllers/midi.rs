use vstd::prelude::*;

use crate::apps::audio_midi::{MidiApp, MidiAppView};
use crate::error::AudError;
use crate::text::{append_decimal, decimal};
use crate::lua::engine::HostEvent;
use crate::midi::{MidiData, MidiReceiving};

verus! {

/// Keeps a MIDI receiver connected to the port selected, collects the
/// messages that the script passes on, and hands the receiver's messages to
/// the script.
pub struct MidiReceiverController {
    app: MidiApp,
}

impl MidiReceiverController {
    /// What the controller holds: the port names, the port selected and the
    /// messages collected.
    pub closed spec fn view(&self) -> MidiAppView {
        self.app.view()
    }

    /// A controller of `receiver`, over the ports it lists. Fails when the
    /// receiver cannot list its ports.
    pub fn new(receiver: Box<dyn MidiReceiving>) -> (r: Result<Self, AudError>)
        ensures
            r matches Ok(c) ==> c.view().selected_port is None && c.view().messages.len() == 0,
    {
        let app = MidiApp::new(receiver)?;
        Ok(MidiReceiverController { app })
    }

    /// Whether the receiver's MIDI stream runs.
    pub closed spec fn receiver_active(&self) -> bool {
        self.app.receiver_active()
    }

    /// The port that the receiver connected to last, if any.
    pub closed spec fn receiver_port(&self) -> Option<String> {
        self.app.receiver_port()
    }

    /// The messages that the receiver is to hand out next, where it states
    /// them.
    pub closed spec fn receiver_pending(&self) -> Option<Seq<MidiData>> {
        self.app.receiver_pending()
    }

    /// Whether the MIDI stream is running.
    pub fn is_running(&self) -> (r: bool)
        ensures
            r == self.receiver_active(),
    {
        self.app.is_runing()
    }

    /// Starts or stops the MIDI stream: the receiver is told the value.
    pub fn set_running(&mut self, should_run: bool)
        ensures
            final(self).receiver_active() == should_run,
            final(self).view() == old(self).view(),
    {
        self.app.set_running(should_run)
    }

    /// The names of the MIDI ports.
    pub fn port_names(&self) -> (r: &[String])
        ensures
            crate::apps::audio_midi::string_views(r@) == self.view().ports,
    {
        self.app.midi_ports()
    }

    /// The name of the port selected, if any.
    pub fn selected_port_name(&self) -> (r: Option<&str>)
        ensures
            r matches Some(s) ==> self.view().selected_port == Some(s@),
            r is None <==> self.view().selected_port is None,
    {
        self.app.selected_port()
    }

    /// Adds a message to those collected.
    pub fn push_message(&mut self, message: MidiData)
        ensures
            final(self).view().messages == old(self).view().messages.push(message),
            final(self).view().ports == old(self).view().ports,
            final(self).view().selected_port == old(self).view().selected_port,
    {
        self.app.push_message(message)
    }

    /// Forgets the messages collected.
    pub fn clear_messages(&mut self)
        ensures
            final(self).view().messages.len() == 0,
            final(self).view().ports == old(self).view().ports,
            final(self).view().selected_port == old(self).view().selected_port,
    {
        self.app.clear_messages()
    }

    /// Takes the messages collected, leaving none.
    pub fn take_messages(&mut self) -> (r: Vec<MidiData>)
        ensures
            r@ == old(self).view().messages,
            final(self).view().messages.len() == 0,
            final(self).view().ports == old(self).view().ports,
            final(self).view().selected_port == old(self).view().selected_port,
    {
        self.app.take_messages()
    }

    /// The messages that the receiver produced since last asked, each to be
    /// sent to the script.
    pub fn update(&mut self) -> (r: Vec<HostEvent>)
        ensures
            final(self).view() == old(self).view(),
            forall|i: int| 0 <= i < r@.len() ==> #[trigger] r@[i] is Midi,
            old(self).receiver_pending() matches Some(pending) ==> {
                &&& r@.len() == pending.len()
                &&& forall|i: int| 0 <= i < r@.len() ==> (#[trigger] r@[i] matches HostEvent::Midi(m) && m == pending[i])
            },
    {
        self.app.midi_events()
    }

    /// Connects to port `index`: the receiver connects, the port becomes the
    /// selected one and the messages collected are forgotten; the event
    /// returned tells the script of the connection. Fails when there is no
    /// such port, or when the receiver fails to connect.
    pub fn connect_to_input_by_index(&mut self, index: usize) -> (r: Result<HostEvent, AudError>)
        ensures
            final(self).view().ports == old(self).view().ports,
            index >= old(self).view().ports.len() ==> (r matches Err(e) && e.message@ == "invalid port selection : "@
                + decimal(index as nat) && final(self).receiver_port() == old(self).receiver_port()
                && final(self).receiver_active() == old(self).receiver_active()),
            r is Err ==> final(self).view() == old(self).view(),
            r is Ok ==> {
                &&& index < old(self).view().ports.len()
                &&& final(self).view().selected_port == Some(old(self).view().ports[index as int])
                &&& final(self).view().messages.len() == 0
                &&& r matches Ok(HostEvent::Connect(name)) && name@ == old(self).view().ports[index as int]
                &&& final(self).receiver_port() matches Some(p) && p@ == old(self).view().ports[index as int]
            },
    {
        match self.app.connect_to_input_by_index(index)? {
            Some(event) => Ok(event),
            None => {
                let mut text = String::new();
                text.append("invalid port selection : ");
                append_decimal(&mut text, index);
                Err(AudError { message: text })
            },
        }
    }

    /// Connects to the port named `port_name` (see
    /// `connect_to_input_by_index`). Fails when there is no such port.
    pub fn connect_to_input(&mut self, port_name: &str) -> (r: Result<HostEvent, AudError>)
        ensures
            final(self).view().ports == old(self).view().ports,
            !old(self).view().ports.contains(port_name@) ==> (r matches Err(e) && e.message@ == "port not found : "@
                + port_name@ && final(self).receiver_port() == old(self).receiver_port()
                && final(self).receiver_active() == old(self).receiver_active()),
            r is Err ==> final(self).view() == old(self).view(),
            r is Ok ==> {
                &&& final(self).view().selected_port == Some(port_name@)
                &&& final(self).view().messages.len() == 0
                &&& r matches Ok(HostEvent::Connect(name)) && name@ == port_name@
                &&& final(self).receiver_port() matches Some(p) && p@ == port_name@
            },
    {
        match self.app.connect_to_input(port_name)? {
            Some(event) => Ok(event),
            None => {
                let mut text = String::new();
                text.append("port not found : ");
                text.append(port_name);
                Err(AudError { message: text })
            },
        }
    }

    /// Connects again to the port selected, if any; otherwise nothing
    /// happens.
    pub fn reconnect(&mut self) -> (r: Result<Option<HostEvent>, AudError>)
        ensures
            final(self).view().ports == old(self).view().ports,
            old(self).view().selected_port is None ==> (r matches Ok(None) && final(self).view() == old(self).view()),
            old(self).view().selected_port matches Some(port) ==> (r is Ok ==> {
                &&& final(self).view().selected_port == Some(port)
                &&& r matches Ok(Some(HostEvent::Connect(name))) && name@ == port
                &&& final(self).receiver_port() matches Some(p) && p@ == port
            }),
    {
        let port: String = match self.app.selected_port() {
            Some(p) => p.to_string(),
            None => return Ok(None),
        };
        let event = self.connect_to_input(port.as_str())?;
        Ok(Some(event))
    }
}

} // verus!
