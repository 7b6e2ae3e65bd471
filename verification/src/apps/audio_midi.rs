use vstd::prelude::*;

use crate::audio::interface::{
    same_device, same_selection, selected_channels, AudioBuffer, AudioChannelSelection, AudioDevice,
    AudioInterface, AudioProviding,
};
use crate::error::AudError;
use crate::lua::api::{ConnectionApiEvent, ControlFlowApiEvent, LogApiEvent};
use crate::lua::engine::{HostEvent, ScriptEvent};
use crate::midi::{MidiData, MidiReceiving};

verus! {

/// A source of audio that can be connected to a device.
pub trait AudioProvider: AudioProviding + AudioInterface {}

impl<T> AudioProvider for T where T: AudioProviding + AudioInterface {}

/// What the application loop should do after processing events.
#[derive(Clone, Copy, Debug, PartialEq, Eq, Structural)]
pub enum AppEvent {
    Continue,
    Stopping,
    ScriptCrash,
    ScriptLoaded,
}

/// The views of some strings.
pub open spec fn string_views(s: Seq<String>) -> Seq<Seq<char>> {
    s.map_values(|x: String| x@)
}

/// What the audio side of the application holds.
pub struct AudioAppView {
    pub buffer: AudioBuffer,
    pub selected_device: Option<AudioDevice>,
    pub selected_channels: Option<AudioChannelSelection>,
}

/// `new` is `old` with `audio` added: appended when the channel counts
/// agree, replacing it otherwise.
pub open spec fn accumulated(old: AudioBuffer, audio: AudioBuffer, new: AudioBuffer) -> bool {
    if old.num_channels == audio.num_channels {
        new.data@ == old.data@ + audio.data@ && new.num_channels == old.num_channels
    } else {
        new == audio
    }
}

/// The audio side of the application: a connectable audio source, the device
/// and channels selected, and the audio fetched so far.
pub struct AudioApp<P: AudioProvider> {
    receiver: P,
    buffer: AudioBuffer,
    selected_device: Option<AudioDevice>,
    selected_channels: Option<AudioChannelSelection>,
}

impl<P: AudioProvider> AudioApp<P> {
    pub closed spec fn view(&self) -> AudioAppView {
        AudioAppView {
            buffer: self.buffer,
            selected_device: self.selected_device,
            selected_channels: self.selected_channels,
        }
    }

    /// The audio side for `receiver`, with no device selected and no audio.
    pub fn new(receiver: P) -> (r: Self)
        ensures
            r.view().buffer.data@ == Seq::<u32>::empty(),
            r.view().buffer.num_channels == 0,
            r.view().selected_device is None,
            r.view().selected_channels is None,
    {
        AudioApp { buffer: AudioBuffer::new(), receiver, selected_device: None, selected_channels: None }
    }

    /// The audio source.
    pub closed spec fn provider(&self) -> P {
        self.receiver
    }

    /// The devices of the audio source.
    pub fn devices(&self) -> (r: &[AudioDevice])
        ensures
            r@ == self.provider().audio_devices()@,
    {
        self.receiver.list_audio_devices()
    }

    /// The audio fetched so far.
    pub fn buffer(&self) -> (r: &AudioBuffer)
        ensures
            *r == self.view().buffer,
    {
        &self.buffer
    }

    /// The device selected, if any.
    pub fn selected_device(&self) -> (r: Option<&AudioDevice>)
        ensures
            r matches Some(d) ==> self.view().selected_device == Some(*d),
            r is None <==> self.view().selected_device is None,
    {
        self.selected_device.as_ref()
    }

    /// The channels selected, if any.
    pub fn selected_channels(&self) -> (r: Option<&AudioChannelSelection>)
        ensures
            r matches Some(c) ==> self.view().selected_channels == Some(*c),
            r is None <==> self.view().selected_channels is None,
    {
        self.selected_channels.as_ref()
    }

    /// Lets the source process its events, then adds the audio it holds to
    /// the buffer: appended when the channel count is the same, replacing
    /// the buffer otherwise.
    pub fn fetch_buffer(&mut self) -> (r: Result<(), AudError>)
        ensures
            final(self).view().selected_device == old(self).view().selected_device,
            final(self).view().selected_channels == old(self).view().selected_channels,
            r is Err ==> final(self).view().buffer == old(self).view().buffer,
            r is Ok ==> exists|audio: AudioBuffer| #[trigger] accumulated(old(self).view().buffer, audio, final(self).view().buffer),
    {
        self.receiver.process_audio_events()?;
        let audio = self.receiver.retrieve_audio_buffer();
        let ghost a = audio;
        let mut buffer = AudioBuffer::new();
        std::mem::swap(&mut self.buffer, &mut buffer);
        buffer.accumulate(audio);
        self.buffer = buffer;
        assert(accumulated(old(self).view().buffer, a, self.view().buffer));
        Ok(())
    }

    /// Connects the selected device to `channel_selection`, clearing the
    /// audio fetched so far. Fails when no device is selected, or when the
    /// source fails to connect.
    pub fn update_channel_selection(&mut self, channel_selection: AudioChannelSelection) -> (r: Result<(), AudError>)
        ensures
            old(self).view().selected_device is None ==> (r matches Err(e) && e.message@ == "No audio device selected"@
                && final(self).view() == old(self).view() && final(self).provider() == old(self).provider()),
            final(self).view().selected_device == old(self).view().selected_device,
            final(self).view().buffer.num_channels == old(self).view().buffer.num_channels,
            old(self).view().selected_device is Some ==> final(self).view().buffer.data@ == Seq::<u32>::empty(),
            r is Ok ==> final(self).view().selected_channels == Some(channel_selection),
            r is Err ==> final(self).view().selected_channels == old(self).view().selected_channels,
            old(self).view().selected_device matches Some(d) ==> (final(self).provider().requested_connection() matches Some(
                (device, channels),
            ) && same_device(device, d) && same_selection(channels, channel_selection)),
    {
        match &self.selected_device {
            None => Err(AudError::new("No audio device selected")),
            Some(audio_device) => {
                let mut data: Vec<u32> = Vec::new();
                std::mem::swap(&mut self.buffer.data, &mut data);
                let copy = channel_selection.duplicate();
                self.receiver.connect_to_audio_device(audio_device, copy)?;
                self.selected_channels = Some(channel_selection);
                Ok(())
            },
        }
    }

    /// Selects `audio_device` and connects it to `channel_selection`; the
    /// buffer takes the number of channels selected.
    pub fn connect_to_input(
        &mut self,
        audio_device: &AudioDevice,
        channel_selection: AudioChannelSelection,
    ) -> (r: Result<(), AudError>)
        ensures
            final(self).view().selected_device matches Some(d) && same_device(d, *audio_device),
            final(self).view().buffer.num_channels == selected_channels(channel_selection).len() as u32,
            final(self).view().buffer.data@ == Seq::<u32>::empty(),
            r is Ok ==> final(self).view().selected_channels == Some(channel_selection),
            r is Err ==> final(self).view().selected_channels == old(self).view().selected_channels,
            final(self).provider().requested_connection() matches Some((device, channels)) && same_device(
                device,
                *audio_device,
            ) && same_selection(channels, channel_selection),
    {
        self.selected_device = Some(audio_device.duplicate());
        self.buffer.num_channels = #[verifier::truncate] (channel_selection.count() as u32);
        self.update_channel_selection(channel_selection)
    }
}

/// What the MIDI side of the application holds: the names of the MIDI ports,
/// the port connected to, and the messages collected.
pub struct MidiAppView {
    pub ports: Seq<Seq<char>>,
    pub selected_port: Option<Seq<char>>,
    pub messages: Seq<MidiData>,
}

/// The MIDI side of the application.
pub struct MidiApp {
    receiver: Box<dyn MidiReceiving>,
    ports: PortSelection,
    messages: Vec<MidiData>,
}

/// The names of the MIDI ports, and the one selected among them.
pub struct PortSelection {
    port_names: Vec<String>,
    selected_port_name: Option<String>,
}

impl PortSelection {
    /// The port names, and the one selected.
    pub closed spec fn names(&self) -> Seq<Seq<char>> {
        string_views(self.port_names@)
    }

    pub closed spec fn selected(&self) -> Option<Seq<char>> {
        opt_view(self.selected_port_name)
    }

    /// The port selected is one of the ports listed.
    #[verifier::type_invariant]
    spec fn inv(self) -> bool {
        self.selected() matches Some(p) ==> self.names().contains(p)
    }

    /// The ports `port_names`, none selected.
    pub fn new(port_names: Vec<String>) -> (r: Self)
        ensures
            r.names() == string_views(port_names@),
            r.selected() is None,
    {
        PortSelection { port_names, selected_port_name: None }
    }

    /// The port names.
    pub fn names_slice(&self) -> (r: &[String])
        ensures
            string_views(r@) == self.names(),
    {
        self.port_names.as_slice()
    }

    /// The port selected, if any: always one of the ports listed.
    pub fn selected_name(&self) -> (r: Option<&str>)
        ensures
            r matches Some(s) ==> self.selected() == Some(s@),
            r is None <==> self.selected() is None,
            r matches Some(s) ==> self.names().contains(s@),
    {
        proof {
            use_type_invariant(self);
        }
        match &self.selected_port_name {
            Some(s) => Some(s.as_str()),
            None => None,
        }
    }

    /// Selects port `index`.
    pub fn select(&mut self, index: usize)
        requires
            index < old(self).names().len(),
        ensures
            final(self).names() == old(self).names(),
            final(self).selected() == Some(old(self).names()[index as int]),
    {
        let name = self.port_names[index].clone();
        proof {
            assert(string_views(self.port_names@)[index as int] == name@);
        }
        self.selected_port_name = Some(name);
    }
}

/// The view of an optional string.
pub open spec fn opt_view(s: Option<String>) -> Option<Seq<char>> {
    match s {
        Some(x) => Some(x@),
        None => None,
    }
}

impl MidiApp {
    pub closed spec fn view(&self) -> MidiAppView {
        MidiAppView {
            ports: self.ports.names(),
            selected_port: self.ports.selected(),
            messages: self.messages@,
        }
    }


    /// The MIDI side for `receiver`, with the ports it lists. Fails when the
    /// receiver cannot list its ports.
    pub fn new(receiver: Box<dyn MidiReceiving>) -> (r: Result<Self, AudError>)
        ensures
            r matches Ok(app) ==> app.view().selected_port is None && app.view().messages.len() == 0,
    {
        let port_names = receiver.list_midi_devices()?;
        Ok(Self::with_ports(receiver, port_names))
    }

    /// The MIDI side for `receiver`, whose ports are `port_names`.
    pub fn with_ports(receiver: Box<dyn MidiReceiving>, port_names: Vec<String>) -> (r: Self)
        ensures
            r.view().ports == string_views(port_names@),
            r.view().selected_port is None,
            r.view().messages.len() == 0,
    {
        MidiApp { receiver, ports: PortSelection::new(port_names), messages: Vec::new() }
    }

    /// Whether the receiver's MIDI stream runs.
    pub closed spec fn receiver_active(&self) -> bool {
        self.receiver.stream_active()
    }

    /// The port that the receiver connected to last, if any.
    pub closed spec fn receiver_port(&self) -> Option<String> {
        self.receiver.connected_port()
    }

    /// The messages that the receiver is to hand out next, where it states
    /// them.
    pub closed spec fn receiver_pending(&self) -> Option<Seq<MidiData>> {
        self.receiver.pending_messages()
    }

    /// Whether the MIDI stream is running.
    pub fn is_runing(&self) -> (r: bool)
        ensures
            r == self.receiver_active(),
    {
        self.receiver.is_midi_stream_active()
    }

    /// Starts or stops the MIDI stream: the receiver is told the value.
    pub fn set_running(&mut self, should_run: bool)
        ensures
            final(self).view() == old(self).view(),
            final(self).receiver_active() == should_run,
    {
        self.receiver.set_midi_stream_active(should_run)
    }

    /// The names of the MIDI ports.
    pub fn midi_ports(&self) -> (r: &[String])
        ensures
            string_views(r@) == self.view().ports,
    {
        self.ports.names_slice()
    }

    /// Forgets the messages collected.
    pub fn clear_messages(&mut self)
        ensures
            final(self).view().messages.len() == 0,
            final(self).view().ports == old(self).view().ports,
            final(self).view().selected_port == old(self).view().selected_port,
    {
        self.messages.clear();
    }

    /// The name of the port connected to, if any: always one of the ports
    /// listed.
    pub fn selected_port(&self) -> (r: Option<&str>)
        ensures
            r matches Some(s) ==> self.view().selected_port == Some(s@),
            r is None <==> self.view().selected_port is None,
            r matches Some(s) ==> self.view().ports.contains(s@),
    {
        self.ports.selected_name()
    }

    /// Takes the messages collected, leaving none.
    pub fn take_messages(&mut self) -> (r: Vec<MidiData>)
        ensures
            r@ == old(self).view().messages,
            final(self).view().messages.len() == 0,
            final(self).view().ports == old(self).view().ports,
            final(self).view().selected_port == old(self).view().selected_port,
    {
        let mut taken: Vec<MidiData> = Vec::new();
        std::mem::swap(&mut self.messages, &mut taken);
        taken
    }

    /// Adds a message to those collected.
    pub fn push_message(&mut self, message: MidiData)
        ensures
            final(self).view().messages == old(self).view().messages.push(message),
            final(self).view().ports == old(self).view().ports,
            final(self).view().selected_port == old(self).view().selected_port,
    {
        self.messages.push(message);
    }

    /// The messages that the receiver produced since last asked, each to be
    /// sent to the script (see `midi_events_for`).
    pub fn midi_events(&mut self) -> (r: Vec<HostEvent>)
        ensures
            final(self).view() == old(self).view(),
            forall|i: int| 0 <= i < r@.len() ==> #[trigger] r@[i] is Midi,
            old(self).receiver_pending() matches Some(pending) ==> {
                &&& r@.len() == pending.len()
                &&& forall|i: int| 0 <= i < r@.len() ==> (#[trigger] r@[i] matches HostEvent::Midi(m) && m == pending[i])
            },
    {
        let messages = self.receiver.produce_midi_messages();
        midi_events_for(messages)
    }

    /// Connects to port `port_index` if there is such a port: the receiver
    /// connects, the port becomes the selected one and the messages
    /// collected are forgotten; the script is then to be told of the
    /// connection. Out of range, nothing happens. A failure of the receiver
    /// to connect is returned.
    pub fn connect_to_input_by_index(&mut self, port_index: usize) -> (r: Result<Option<HostEvent>, AudError>)
        ensures
            final(self).view().ports == old(self).view().ports,
            port_index >= old(self).view().ports.len() ==> (r matches Ok(None) && final(self).view() == old(self).view()),
            port_index < old(self).view().ports.len() && r is Ok ==> {
                &&& final(self).view().selected_port == Some(old(self).view().ports[port_index as int])
                &&& final(self).view().messages.len() == 0
                &&& r matches Ok(Some(HostEvent::Connect(name))) && name@ == old(self).view().ports[port_index as int]
                &&& final(self).receiver_port() matches Some(p) && p@ == old(self).view().ports[port_index as int]
            },
            port_index >= old(self).view().ports.len() ==> final(self).receiver_port() == old(self).receiver_port()
                && final(self).receiver_active() == old(self).receiver_active(),
            r is Err ==> final(self).view() == old(self).view(),
    {
        let names = self.ports.names_slice();
        proof {
            assert(string_views(names@).len() == names@.len());
        }
        if port_index >= names.len() {
            return Ok(None);
        }
        let port_name = names[port_index].clone();
        proof {
            assert(string_views(names@)[port_index as int] == port_name@);
        }
        self.receiver.connect_to_midi_device(port_name.as_str())?;
        self.ports.select(port_index);
        self.messages.clear();
        Ok(Some(HostEvent::Connect(port_name)))
    }

    /// Connects to the port named `port_name`, if there is one (see
    /// `connect_to_input_by_index`); otherwise nothing happens.
    pub fn connect_to_input(&mut self, port_name: &str) -> (r: Result<Option<HostEvent>, AudError>)
        ensures
            final(self).view().ports == old(self).view().ports,
            !old(self).view().ports.contains(port_name@) ==> (r matches Ok(None) && final(self).view() == old(self).view()
                && final(self).receiver_port() == old(self).receiver_port() && final(self).receiver_active()
                == old(self).receiver_active()),
            old(self).view().ports.contains(port_name@) && r is Ok ==> {
                &&& final(self).view().selected_port == Some(port_name@)
                &&& final(self).view().messages.len() == 0
                &&& r matches Ok(Some(HostEvent::Connect(name))) && name@ == port_name@
                &&& final(self).receiver_port() matches Some(p) && p@ == port_name@
            },
            r is Err ==> final(self).view() == old(self).view(),
    {
        match position_of(self.ports.names_slice(), port_name) {
            Some(index) => self.connect_to_input_by_index(index),
            None => Ok(None),
        }
    }
}

/// The event that hands each message to the script, in order.
pub fn midi_events_for(messages: Vec<MidiData>) -> (r: Vec<HostEvent>)
    ensures
        r@.len() == messages@.len(),
        forall|i: int| 0 <= i < r@.len() ==> (#[trigger] r@[i] matches HostEvent::Midi(m) && m == messages@[i]),
{
    let ghost all = messages@;
    let mut messages = messages;
    let mut events: Vec<HostEvent> = Vec::new();
    while messages.len() > 0
        invariant
            events@.len() + messages@.len() == all.len(),
            messages@ == all.subrange(events@.len() as int, all.len() as int),
            forall|i: int| 0 <= i < events@.len() ==> (#[trigger] events@[i] matches HostEvent::Midi(m) && m == all[i]),
        decreases messages@.len(),
    {
        let msg = messages.remove(0);
        events.push(HostEvent::Midi(msg));
    }
    events
}

/// The position of the first string equal to `name`, if any.
pub fn position_of(names: &[String], name: &str) -> (r: Option<usize>)
    ensures
        r matches Some(i) ==> i < names@.len() && names@[i as int]@ == name@ && forall|k: int|
            0 <= k < i ==> names@[k]@ != name@,
        r is None <==> !string_views(names@).contains(name@),
{
    let mut i: usize = 0;
    while i < names.len()
        invariant
            i <= names@.len(),
            forall|k: int| 0 <= k < i ==> names@[k]@ != name@,
        decreases names.len() - i,
    {
        if str_eq(names[i].as_str(), name) {
            proof {
                assert(string_views(names@)[i as int] == name@);
            }
            return Some(i);
        }
        i += 1;
    }
    proof {
        if string_views(names@).contains(name@) {
            let k = choose|k: int| 0 <= k < string_views(names@).len() && string_views(names@)[k] == name@;
            assert(names@[k]@ == name@);
        }
    }
    None
}

/// Whether two strings hold the same characters.
pub fn str_eq(a: &str, b: &str) -> (r: bool)
    ensures
        r == (a@ == b@),
{
    let n = a.unicode_len();
    let m = b.unicode_len();
    if n != m {
        return false;
    }
    let mut i: usize = 0;
    while i < n
        invariant
            n == a@.len(),
            m == b@.len(),
            n == m,
            i <= n,
            forall|k: int| 0 <= k < i ==> a@[k] == b@[k],
        decreases n - i,
    {
        if a.get_char(i) != b.get_char(i) {
            return false;
        }
        i += 1;
    }
    assert(a@ =~= b@);
    true
}

/// What the whole application holds: its audio and MIDI sides and the last
/// alert raised by the script.
pub struct App<P: AudioProvider> {
    audio: AudioApp<P>,
    midi: MidiApp,
    alert_message: Option<String>,
}

impl<P: AudioProvider> App<P> {
    /// The last alert raised by the script and not yet taken.
    pub closed spec fn alert(&self) -> Option<Seq<char>> {
        opt_view(self.alert_message)
    }

    pub closed spec fn audio_view(&self) -> AudioAppView {
        self.audio.view()
    }

    pub closed spec fn midi_view(&self) -> MidiAppView {
        self.midi.view()
    }

    /// The port that the MIDI receiver connected to last, if any.
    pub closed spec fn midi_receiver_port(&self) -> Option<String> {
        self.midi.receiver_port()
    }

    /// Whether the MIDI receiver's stream runs.
    pub closed spec fn midi_receiver_active(&self) -> bool {
        self.midi.receiver_active()
    }

    /// The audio source.
    pub closed spec fn audio_provider(&self) -> P {
        self.audio.provider()
    }

    /// The application over an audio source and a MIDI receiver. Fails when
    /// the MIDI receiver cannot list its ports.
    pub fn new(audio_receiver: P, midi_receiver: Box<dyn MidiReceiving>) -> (r: Result<Self, AudError>)
        ensures
            r matches Ok(app) ==> app.alert() is None && app.midi_view().selected_port is None
                && app.audio_view().selected_device is None,
    {
        let midi = MidiApp::new(midi_receiver)?;
        Ok(App { audio: AudioApp::new(audio_receiver), midi, alert_message: None })
    }

    pub fn audio(&self) -> (r: &AudioApp<P>)
        ensures
            r.view() == self.audio_view(),
    {
        &self.audio
    }

    /// The audio side, to change it in place.
    pub fn audio_mut(&mut self) -> (r: &mut AudioApp<P>)
        ensures
            r.view() == old(self).audio_view(),
            final(self).audio_view() == final(r).view(),
            final(self).midi_view() == old(self).midi_view(),
            final(self).alert() == old(self).alert(),
    {
        &mut self.audio
    }

    pub fn midi(&self) -> (r: &MidiApp)
        ensures
            r.view() == self.midi_view(),
    {
        &self.midi
    }

    /// The MIDI side, to change it in place.
    pub fn midi_mut(&mut self) -> (r: &mut MidiApp)
        ensures
            r.view() == old(self).midi_view(),
            final(self).midi_view() == final(r).view(),
            final(self).audio_view() == old(self).audio_view(),
            final(self).alert() == old(self).alert(),
    {
        &mut self.midi
    }

    /// Takes the last alert, leaving none.
    pub fn take_alert(&mut self) -> (r: Option<String>)
        ensures
            opt_view(r) == old(self).alert(),
            final(self).alert() is None,
            final(self).midi_view() == old(self).midi_view(),
            final(self).audio_view() == old(self).audio_view(),
    {
        let mut alert: Option<String> = None;
        std::mem::swap(&mut self.alert_message, &mut alert);
        alert
    }

    /// Connects the MIDI side to port `port_index` (see
    /// `MidiApp::connect_to_input_by_index`).
    pub fn connect_to_midi_input_by_index(&mut self, port_index: usize) -> (r: Result<Option<HostEvent>, AudError>)
        ensures
            final(self).alert() == old(self).alert(),
            final(self).audio_view() == old(self).audio_view(),
            final(self).midi_view().ports == old(self).midi_view().ports,
            port_index >= old(self).midi_view().ports.len() ==> (r matches Ok(None) && final(self).midi_view()
                == old(self).midi_view()),
            port_index < old(self).midi_view().ports.len() && r is Ok ==> {
                &&& final(self).midi_view().selected_port == Some(old(self).midi_view().ports[port_index as int])
                &&& final(self).midi_view().messages.len() == 0
                &&& final(self).midi_receiver_port() matches Some(p) && p@ == old(self).midi_view().ports[port_index as int]
            },
    {
        self.midi.connect_to_input_by_index(port_index)
    }

    /// Connects the MIDI side to the port named `port_name`, if there is one.
    pub fn connect_to_midi_input(&mut self, port_name: &str) -> (r: Result<Option<HostEvent>, AudError>)
        ensures
            final(self).alert() == old(self).alert(),
            final(self).audio_view() == old(self).audio_view(),
            final(self).midi_view().ports == old(self).midi_view().ports,
            !old(self).midi_view().ports.contains(port_name@) ==> (r matches Ok(None)
                && final(self).midi_view() == old(self).midi_view()),
            old(self).midi_view().ports.contains(port_name@) && r is Ok ==> final(self).midi_view().selected_port
                == Some(port_name@) && (final(self).midi_receiver_port() matches Some(p) && p@ == port_name@),
    {
        self.midi.connect_to_input(port_name)
    }

    /// What the script is to be told once it is loaded: the MIDI ports, and
    /// a fresh connection to the selected port, when a port is selected; the
    /// audio devices, when a device is selected. The selected device is
    /// connected again with the selected channels.
    pub fn discovery_events(&mut self) -> (r: Result<Vec<HostEvent>, AudError>)
        ensures
            old(self).midi_view().selected_port is None && !(old(self).audio_view().selected_device is Some
                && old(self).audio_view().selected_channels is Some) ==> r is Ok,
            final(self).alert() == old(self).alert(),
            final(self).midi_view().ports == old(self).midi_view().ports,
            r matches Ok(events) ==> old(self).midi_view().selected_port is None
                && old(self).audio_view().selected_device is None ==> events@.len() == 0,
            r matches Ok(events) ==> (old(self).midi_view().selected_port is Some ==> events@.len() >= 1 && (
            events@[0] matches HostEvent::Discover(names) && string_views(names@) == old(self).midi_view().ports)),
            r matches Ok(events) ==> (old(self).midi_view().selected_port matches Some(port) ==> {
                &&& events@.len() >= 2
                &&& events@[1] matches HostEvent::Connect(name) && name@ == port
                &&& final(self).midi_view().selected_port == Some(port)
            }),
            r matches Ok(events) ==> (old(self).midi_view().selected_port is None ==> (
            old(self).audio_view().selected_device is Some ==> events@.len() == 1 && events@[0] is Discover)),
            r matches Ok(events) ==> (old(self).midi_view().selected_port is None ==> (
            old(self).audio_view().selected_device is Some ==> (events@[0] matches HostEvent::Discover(names)
                && names@.len() == old(self).audio_provider().audio_devices()@.len() && forall|i: int|
                0 <= i < names@.len() ==> (#[trigger] names@[i])@ == old(self).audio_provider().audio_devices()@[i].name@))),
    {
        let mut events: Vec<HostEvent> = Vec::new();
        let selected: Option<String> = match self.midi.selected_port() {
            Some(p) => Some(p.to_string()),
            None => None,
        };
        if let Some(port) = selected {
            events.push(HostEvent::Discover(copy_strings(self.midi.midi_ports())));
            if let Some(event) = self.midi.connect_to_input(port.as_str())? {
                events.push(event);
            }
        }
        let has_device = self.audio.selected_device().is_some();
        if has_device {
            let names = device_names(self.audio.devices());
            events.push(HostEvent::Discover(names));
            let device = match self.audio.selected_device() {
                Some(d) => Some(d.duplicate()),
                None => None,
            };
            let channels = match self.audio.selected_channels() {
                Some(c) => Some(c.duplicate()),
                None => None,
            };
            if let (Some(device), Some(channels)) = (device, channels) {
                self.audio.connect_to_input(&device, channels)?;
            }
        }
        Ok(events)
    }

    /// Reacts to an event of the script. Returns what the application loop
    /// is to do, if it is to stop processing script events, and the events
    /// to send back to the script:
    /// - the script being loaded stops the processing with `ScriptLoaded`;
    /// - an alert is kept for the user (a log message needs nothing);
    /// - a MIDI message is collected;
    /// - a connection request for a known MIDI port connects to it;
    /// - pause and resume stop and start the MIDI stream, and stop stops the
    ///   processing with `Stopping`.
    pub fn handle_script_event(&mut self, event: ScriptEvent) -> (r: Result<(Option<AppEvent>, Vec<HostEvent>), AudError>)
        ensures
            event is Loaded ==> (r matches Ok((Some(AppEvent::ScriptLoaded), events)) && events@.len() == 0),
            event matches ScriptEvent::Control(ControlFlowApiEvent::Stop) ==> (r matches Ok((Some(AppEvent::Stopping), events))
                && events@.len() == 0),
            event matches ScriptEvent::Log(LogApiEvent::Alert(msg)) ==> r is Ok && final(self).alert() == Some(msg@),
            event matches ScriptEvent::Log(LogApiEvent::Log(_)) ==> r is Ok && final(self).alert() == old(self).alert(),
            event matches ScriptEvent::Midi(m) ==> r is Ok && final(self).midi_view().messages == old(self).midi_view().messages.push(m),
            !(event is Loaded) && !(event matches ScriptEvent::Control(ControlFlowApiEvent::Stop)) ==> (r matches Ok((stop, _)) ==> stop is None),
            event matches ScriptEvent::Connect(req) ==> {
                &&& !old(self).midi_view().ports.contains(req.device@) ==> (r matches Ok((_, events))
                    && events@.len() == 0 && final(self).midi_view() == old(self).midi_view())
                &&& old(self).midi_view().ports.contains(req.device@) && r is Ok ==> final(self).midi_view().selected_port
                    == Some(req.device@)
            },
            !(event is Log) ==> final(self).alert() == old(self).alert(),
            final(self).audio_view() == old(self).audio_view(),
            event matches ScriptEvent::Control(ControlFlowApiEvent::Pause) ==> !final(self).midi_receiver_active(),
            event matches ScriptEvent::Control(ControlFlowApiEvent::Resume) ==> final(self).midi_receiver_active(),
    {
        match event {
            ScriptEvent::Loaded => Ok((Some(AppEvent::ScriptLoaded), Vec::new())),
            ScriptEvent::Log(request) => {
                match request {
                    LogApiEvent::Log(_) => {},
                    LogApiEvent::Alert(msg) => {
                        self.alert_message = Some(msg);
                    },
                }
                Ok((None, Vec::new()))
            },
            ScriptEvent::Midi(midi) => {
                self.midi.push_message(midi);
                Ok((None, Vec::new()))
            },
            ScriptEvent::Connect(request) => {
                let ConnectionApiEvent { device } = request;
                let mut events: Vec<HostEvent> = Vec::new();
                if let Some(event) = self.midi.connect_to_input(device.as_str())? {
                    events.push(event);
                }
                Ok((None, events))
            },
            ScriptEvent::Control(request) => {
                match request {
                    ControlFlowApiEvent::Pause => {
                        self.midi.set_running(false);
                        Ok((None, Vec::new()))
                    },
                    ControlFlowApiEvent::Resume => {
                        self.midi.set_running(true);
                        Ok((None, Vec::new()))
                    },
                    ControlFlowApiEvent::Stop => Ok((Some(AppEvent::Stopping), Vec::new())),
                }
            },
        }
    }
}

/// A copy of each string.
pub fn copy_strings(names: &[String]) -> (r: Vec<String>)
    ensures
        string_views(r@) == string_views(names@),
{
    let mut out: Vec<String> = Vec::new();
    let mut i: usize = 0;
    while i < names.len()
        invariant
            i <= names@.len(),
            string_views(out@) == string_views(names@.subrange(0, i as int)),
        decreases names.len() - i,
    {
        let ghost before = out@;
        out.push(names[i].clone());
        proof {
            assert(string_views(out@) =~= string_views(before).push(names@[i as int]@));
            assert(string_views(names@.subrange(0, i + 1)) =~= string_views(names@.subrange(0, i as int)).push(
                names@[i as int]@,
            ));
        }
        i += 1;
    }
    assert(names@.subrange(0, names@.len() as int) =~= names@);
    out
}

/// The names of the devices, in order.
pub fn device_names(devices: &[AudioDevice]) -> (r: Vec<String>)
    ensures
        r@.len() == devices@.len(),
        forall|i: int| 0 <= i < devices@.len() ==> (#[trigger] r@[i])@ == devices@[i].name@,
{
    let mut out: Vec<String> = Vec::new();
    let mut i: usize = 0;
    while i < devices.len()
        invariant
            i <= devices@.len(),
            out@.len() == i,
            forall|k: int| 0 <= k < i ==> (#[trigger] out@[k])@ == devices@[k].name@,
        decreases devices.len() - i,
    {
        out.push(devices[i].name.clone());
        i += 1;
    }
    out
}

} // verus!
