//! The MIDI monitor application: messages from a selected MIDI port, shown
//! to the user and handed to a script that can filter them, alert the user,
//! connect to another port, or pause, resume and stop the monitor.

use vstd::prelude::*;

use crossbeam::channel::Receiver;

use crate::apps::audio_midi::{copy_strings, opt_view, string_views, AppEvent, MidiApp, MidiAppView};
use crate::channel::{poll, Polled};
use crate::error::AudError;
use crate::locations::{file_name, path_file_name};
use crate::lua::api::{ConnectionApiEvent, ControlFlowApiEvent, LogApiEvent};
use crate::lua::engine::{HostEvent, ScriptEvent};
use crate::midi::{MidiData, MidiReceiving};

verus! {

/// The monitor's state: the MIDI side, the name of the script loaded and
/// the last alert the script raised.
pub struct App {
    midi: MidiApp,
    script_path: Option<String>,
    alert_message: Option<String>,
    heard: Ghost<Seq<ScriptEvent>>,
    told: Ghost<Seq<HostEvent>>,
    drained: Ghost<bool>,
}

/// What the application loop is to do when `event` of the script stops the
/// processing of script events: the script being loaded, or asking to stop.
pub open spec fn stop_of(event: ScriptEvent) -> Option<AppEvent> {
    if event is Loaded {
        Some(AppEvent::ScriptLoaded)
    } else if event matches ScriptEvent::Control(ControlFlowApiEvent::Stop) {
        Some(AppEvent::Stopping)
    } else {
        None
    }
}

impl App {
    /// The MIDI side: the port names, the port connected to and the
    /// messages collected.
    pub closed spec fn midi_view(&self) -> MidiAppView {
        self.midi.view()
    }

    /// The last alert raised by the script and not yet taken.
    pub closed spec fn alert(&self) -> Option<Seq<char>> {
        opt_view(self.alert_message)
    }

    /// The path of the script loaded, if any.
    pub closed spec fn script_path(&self) -> Option<Seq<char>> {
        opt_view(self.script_path)
    }

    /// Whether the last look for events of the script found none waiting
    /// (see `process_script_events`).
    pub closed spec fn drained(&self) -> bool {
        self.drained@
    }

    /// The events of the script handled so far, in order (see
    /// `handle_script_event`).
    pub closed spec fn heard(&self) -> Seq<ScriptEvent> {
        self.heard@
    }

    /// What the events of the script handled so far handed back to it, in
    /// order (see `handle_script_event`).
    pub closed spec fn told(&self) -> Seq<HostEvent> {
        self.told@
    }

    /// The file name of the script loaded, if any: the last component of
    /// its path.
    pub open spec fn script_name(&self) -> Option<Seq<char>> {
        match self.script_path() {
            Some(path) => Some(file_name(path)),
            None => None,
        }
    }

    /// The monitor over `midi_in`, with its ports. Fails when the receiver
    /// cannot list its ports.
    pub fn new(midi_in: Box<dyn MidiReceiving>) -> (r: Result<Self, AudError>)
        ensures
            r matches Ok(app) ==> {
                &&& app.midi_view().selected_port is None
                &&& app.midi_view().messages.len() == 0
                &&& app.alert() is None
                &&& app.script_path() is None
                &&& app.heard() == Seq::<ScriptEvent>::empty()
                &&& app.told() == Seq::<HostEvent>::empty()
            },
    {
        let midi = MidiApp::new(midi_in)?;
        Ok(
            App {
                midi,
                script_path: None,
                alert_message: None,
                heard: Ghost(Seq::empty()),
                told: Ghost(Seq::empty()),
                drained: Ghost(false),
            },
        )
    }

    /// Whether the receiver's MIDI stream runs.
    pub closed spec fn receiver_active(&self) -> bool {
        self.midi.receiver_active()
    }

    /// The port that the receiver connected to last, if any.
    pub closed spec fn receiver_port(&self) -> Option<String> {
        self.midi.receiver_port()
    }

    /// The messages that the receiver is to hand out next, where it states
    /// them.
    pub closed spec fn receiver_pending(&self) -> Option<Seq<MidiData>> {
        self.midi.receiver_pending()
    }

    /// Whether the MIDI stream is running.
    pub fn running(&self) -> (r: bool)
        ensures
            r == self.receiver_active(),
    {
        self.midi.is_runing()
    }

    /// Starts or stops the MIDI stream: the receiver is told the value.
    pub fn set_running(&mut self, should_run: bool)
        ensures
            final(self).receiver_active() == should_run,
            final(self).midi_view() == old(self).midi_view(),
            final(self).alert() == old(self).alert(),
            final(self).script_path() == old(self).script_path(),
    {
        self.midi.set_running(should_run)
    }

    /// The names of the MIDI ports.
    pub fn ports(&self) -> (r: &[String])
        ensures
            string_views(r@) == self.midi_view().ports,
    {
        self.midi.midi_ports()
    }

    /// Takes the last alert, leaving none.
    pub fn take_alert(&mut self) -> (r: Option<String>)
        ensures
            opt_view(r) == old(self).alert(),
            final(self).alert() is None,
            final(self).midi_view() == old(self).midi_view(),
            final(self).script_path() == old(self).script_path(),
    {
        let mut alert: Option<String> = None;
        std::mem::swap(&mut self.alert_message, &mut alert);
        alert
    }

    /// The name of the port connected to, if any.
    pub fn selected_port(&self) -> (r: Option<&str>)
        ensures
            r matches Some(s) ==> self.midi_view().selected_port == Some(s@),
            r is None <==> self.midi_view().selected_port is None,
    {
        self.midi.selected_port()
    }

    /// The file name of the script loaded, if any.
    pub fn selected_script(&self) -> (r: Option<&str>)
        ensures
            r matches Some(s) ==> self.script_name() == Some(s@),
            r is None <==> self.script_name() is None,
    {
        match &self.script_path {
            Some(path) => Some(path_file_name(path.as_str())),
            None => None,
        }
    }

    /// The path of the script loaded, if any.
    pub fn loaded_script_path(&self) -> (r: Option<&str>)
        ensures
            r matches Some(s) ==> self.script_path() == Some(s@),
            r is None <==> self.script_path() is None,
    {
        match &self.script_path {
            Some(path) => Some(path.as_str()),
            None => None,
        }
    }

    /// Takes the messages collected, leaving none.
    pub fn take_messages(&mut self) -> (r: Vec<MidiData>)
        ensures
            r@ == old(self).midi_view().messages,
            final(self).midi_view().messages.len() == 0,
            final(self).midi_view().ports == old(self).midi_view().ports,
            final(self).midi_view().selected_port == old(self).midi_view().selected_port,
            final(self).alert() == old(self).alert(),
    {
        self.midi.take_messages()
    }

    /// Forgets the messages collected.
    pub fn clear_messages(&mut self)
        ensures
            final(self).midi_view().messages.len() == 0,
            final(self).midi_view().ports == old(self).midi_view().ports,
            final(self).midi_view().selected_port == old(self).midi_view().selected_port,
            final(self).alert() == old(self).alert(),
    {
        self.midi.clear_messages()
    }

    /// Connects to port `port_index`, if there is one (see
    /// `MidiApp::connect_to_input_by_index`).
    pub fn connect_to_midi_input_by_index(&mut self, port_index: usize) -> (r: Result<Option<HostEvent>, AudError>)
        ensures
            final(self).alert() == old(self).alert(),
            final(self).script_path() == old(self).script_path(),
            final(self).midi_view().ports == old(self).midi_view().ports,
            port_index >= old(self).midi_view().ports.len() ==> (r matches Ok(None) && final(self).midi_view()
                == old(self).midi_view()),
            port_index < old(self).midi_view().ports.len() && r is Ok ==> {
                &&& final(self).midi_view().selected_port == Some(old(self).midi_view().ports[port_index as int])
                &&& final(self).midi_view().messages.len() == 0
                &&& r matches Ok(Some(HostEvent::Connect(name))) && name@ == old(self).midi_view().ports[port_index as int]
                &&& final(self).receiver_port() matches Some(p) && p@ == old(self).midi_view().ports[port_index as int]
            },
    {
        self.midi.connect_to_input_by_index(port_index)
    }

    /// Connects to the port named `port_name`, if there is one.
    pub fn connect_to_midi_input(&mut self, port_name: &str) -> (r: Result<Option<HostEvent>, AudError>)
        ensures
            final(self).alert() == old(self).alert(),
            final(self).script_path() == old(self).script_path(),
            final(self).midi_view().ports == old(self).midi_view().ports,
            !old(self).midi_view().ports.contains(port_name@) ==> (r matches Ok(None) && final(self).midi_view()
                == old(self).midi_view()),
            old(self).midi_view().ports.contains(port_name@) && r is Ok ==> {
                &&& final(self).midi_view().selected_port == Some(port_name@)
                &&& r matches Ok(Some(HostEvent::Connect(name))) && name@ == port_name@
                &&& final(self).receiver_port() matches Some(p) && p@ == port_name@
            },
    {
        self.midi.connect_to_input(port_name)
    }

    /// Records that the script at path `script` was loaded, and returns
    /// that the application goes on, with what the script is to be told: the port names, and, when a
    /// port is selected, the connection made again to it.
    pub fn load_script(&mut self, script: String) -> (r: Result<(AppEvent, Vec<HostEvent>), AudError>)
        ensures
            final(self).script_path() == Some(script@),
            r matches Ok((event, _)) ==> event == AppEvent::Continue,
            final(self).alert() == old(self).alert(),
            final(self).midi_view().ports == old(self).midi_view().ports,
            r matches Ok((_, events)) ==> events@.len() >= 1 && (events@[0] matches HostEvent::Discover(names)
                && string_views(names@) == old(self).midi_view().ports),
            old(self).midi_view().selected_port is None ==> r is Ok && final(self).midi_view() == old(self).midi_view()
                && final(self).receiver_port() == old(self).receiver_port(),
            r matches Ok((_, events)) ==> (old(self).midi_view().selected_port is None ==> events@.len() == 1),
            r matches Ok((_, events)) ==> (old(self).midi_view().selected_port matches Some(port) ==> {
                &&& events@.len() == 2
                &&& events@[1] matches HostEvent::Connect(name) && name@ == port
                &&& final(self).midi_view().selected_port == Some(port)
                &&& final(self).receiver_port() matches Some(p) && p@ == port
            }),
    {
        self.script_path = Some(script);
        let mut events: Vec<HostEvent> = Vec::new();
        events.push(HostEvent::Discover(copy_strings(self.midi.midi_ports())));
        let selected: Option<String> = match self.midi.selected_port() {
            Some(p) => Some(p.to_string()),
            None => None,
        };
        if let Some(port) = selected {
            if let Some(event) = self.midi.connect_to_input(port.as_str())? {
                events.push(event);
            }
        }
        Ok((AppEvent::Continue, events))
    }

    /// The messages that the receiver produced since last asked, each to be
    /// sent to the script.
    pub fn process_midi_messages(&mut self) -> (r: Vec<HostEvent>)
        ensures
            final(self).midi_view() == old(self).midi_view(),
            final(self).alert() == old(self).alert(),
            forall|i: int| 0 <= i < r@.len() ==> #[trigger] r@[i] is Midi,
            old(self).receiver_pending() matches Some(pending) ==> {
                &&& r@.len() == pending.len()
                &&& forall|i: int| 0 <= i < r@.len() ==> (#[trigger] r@[i] matches HostEvent::Midi(m) && m == pending[i])
            },
    {
        self.midi.midi_events()
    }

    /// Reacts to an event of the script. Returns what the application loop
    /// is to do, if it is to stop processing script events, and the events
    /// to send back to the script:
    /// - the script being loaded stops the processing with `ScriptLoaded`;
    /// - an alert is kept for the user (a log message needs nothing);
    /// - a MIDI message passed on by the script is collected;
    /// - a connection request for a known port connects to it;
    /// - pause and resume stop and start the MIDI stream, and stop stops the
    ///   processing with `Stopping`.
    pub fn handle_script_event(&mut self, event: ScriptEvent) -> (r: Result<(Option<AppEvent>, Vec<HostEvent>), AudError>)
        ensures
            event is Loaded ==> (r matches Ok((Some(AppEvent::ScriptLoaded), events)) && events@.len() == 0),
            event matches ScriptEvent::Control(ControlFlowApiEvent::Stop) ==> (r matches Ok((Some(AppEvent::Stopping), events))
                && events@.len() == 0),
            !(event is Loaded) && !(event matches ScriptEvent::Control(ControlFlowApiEvent::Stop)) ==> (r matches Ok((stop, _)) ==> stop is None),
            event matches ScriptEvent::Log(LogApiEvent::Alert(msg)) ==> r is Ok && final(self).alert() == Some(msg@),
            !(event matches ScriptEvent::Log(LogApiEvent::Alert(_))) ==> final(self).alert() == old(self).alert(),
            event matches ScriptEvent::Midi(m) ==> r is Ok && final(self).midi_view().messages == old(self).midi_view().messages.push(m),
            event matches ScriptEvent::Connect(req) ==> {
                &&& !old(self).midi_view().ports.contains(req.device@) ==> (r matches Ok((_, events))
                    && events@.len() == 0 && final(self).midi_view() == old(self).midi_view())
                &&& old(self).midi_view().ports.contains(req.device@) && r is Ok ==> final(self).midi_view().selected_port
                    == Some(req.device@)
            },
            event matches ScriptEvent::Control(ControlFlowApiEvent::Pause) ==> !final(self).receiver_active(),
            event matches ScriptEvent::Control(ControlFlowApiEvent::Resume) ==> final(self).receiver_active(),
            !(event is Midi) && !(event is Connect) ==> final(self).midi_view() == old(self).midi_view(),
            event matches ScriptEvent::Connect(req) ==> (r matches Ok((_, events)) ==> forall|k: int|
                0 <= k < events@.len() ==> (#[trigger] events@[k] matches HostEvent::Connect(name) && name@
                    == req.device@)),
            event matches ScriptEvent::Connect(req) ==> (r matches Ok((_, events)) ==> (events@.len() == 1
                <==> old(self).midi_view().ports.contains(req.device@))),
            !(event is Connect) ==> (r matches Ok((_, events)) ==> events@.len() == 0),
            r matches Ok((_, events)) ==> final(self).told() == old(self).told() + events@,
            final(self).heard() == old(self).heard().push(event),
            final(self).script_path() == old(self).script_path(),
    {
        let ghost before = self.told@;
        let ghost heard_before = self.heard@;
        let ghost handled = event;
        let r = match event {
            ScriptEvent::Loaded => Ok((Some(AppEvent::ScriptLoaded), Vec::new())),
            ScriptEvent::Log(request) => {
                match request {
                    LogApiEvent::Log(_) => {},
                    LogApiEvent::Alert(msg) => {
                        self.alert_message = Some(msg);
                    },
                }
                Ok((None, Vec::new()))
            },
            ScriptEvent::Midi(midi) => {
                self.midi.push_message(midi);
                Ok((None, Vec::new()))
            },
            ScriptEvent::Connect(request) => {
                let ConnectionApiEvent { device } = request;
                match self.midi.connect_to_input(device.as_str()) {
                    Ok(connected) => {
                        let mut events: Vec<HostEvent> = Vec::new();
                        if let Some(event) = connected {
                            events.push(event);
                        }
                        Ok((None, events))
                    },
                    Err(e) => Err(e),
                }
            },
            ScriptEvent::Control(request) => {
                match request {
                    ControlFlowApiEvent::Pause => {
                        self.midi.set_running(false);
                        Ok((None, Vec::new()))
                    },
                    ControlFlowApiEvent::Resume => {
                        self.midi.set_running(true);
                        Ok((None, Vec::new()))
                    },
                    ControlFlowApiEvent::Stop => Ok((Some(AppEvent::Stopping), Vec::new())),
                }
            },
        };
        self.heard = Ghost(heard_before.push(handled));
        self.told = Ghost(
            match r {
                Ok((_, ref events)) => before + events@,
                Err(_) => before,
            },
        );
        r
    }

    /// Processes the events of the script waiting in `events`, at most
    /// `max_events` of them (see `handle_script_event`), without blocking:
    /// stops at an event that loads the script or stops the application,
    /// returning it, and otherwise returns `Continue` once none is waiting.
    /// Returns also the events to send back to the script, in order.
    pub fn process_script_events(&mut self, events: &Receiver<ScriptEvent>, max_events: usize) -> (r: Result<
        (AppEvent, Vec<HostEvent>),
        AudError,
    >)
        ensures
            max_events == 0 ==> (r matches Ok((AppEvent::Continue, replies)) && replies@.len() == 0),
            max_events == 0 ==> *final(self) == *old(self),
            r matches Ok((event, _)) ==> event == AppEvent::Continue || event == AppEvent::ScriptLoaded || event
                == AppEvent::Stopping,
            final(self).script_path() == old(self).script_path(),
            r matches Ok((_, replies)) ==> final(self).told() == old(self).told() + replies@,
            r matches Ok((AppEvent::Continue, _)) && final(self).heard().len() < old(self).heard().len() + max_events
                ==> final(self).drained(),
            r matches Ok((app_event, _)) ==> {
                &&& old(self).heard().len() <= final(self).heard().len() <= old(self).heard().len() + max_events
                &&& final(self).heard().take(old(self).heard().len() as int) == old(self).heard()
                &&& forall|i: int| old(self).heard().len() <= i < final(self).heard().len() - 1
                    ==> stop_of(#[trigger] final(self).heard()[i]) is None
                &&& if final(self).heard().len() > old(self).heard().len() && stop_of(final(self).heard().last()) is Some {
                    app_event == stop_of(final(self).heard().last())->0
                } else {
                    app_event == AppEvent::Continue
                }
            },
    {
        let mut replies: Vec<HostEvent> = Vec::new();
        let mut handled: usize = 0;
        proof {
            assert(old(self).told() + replies@ =~= old(self).told());
            assert(old(self).heard().take(old(self).heard().len() as int) =~= old(self).heard());
        }
        while handled < max_events
            invariant
                handled <= max_events,
                handled == 0 ==> *self == *old(self) && replies@.len() == 0,
                self.script_path() == old(self).script_path(),
                self.told() == old(self).told() + replies@,
                self.heard().len() == old(self).heard().len() + handled,
                self.heard().take(old(self).heard().len() as int) == old(self).heard(),
                forall|i: int| old(self).heard().len() <= i < self.heard().len() ==> stop_of(#[trigger] self.heard()[i]) is None,
            decreases max_events - handled,
        {
            match poll(events) {
                Polled::Message(event) => {
                    let ghost told_before = replies@;
                    let ghost heard_prev = self.heard();
                    let (stop, mut sent) = self.handle_script_event(event)?;
                    self.drained = Ghost(false);
                    let ghost sent_now = sent@;
                    replies.append(&mut sent);
                    proof {
                        assert(old(self).told() + told_before + sent_now =~= old(self).told() + replies@);
                        let n = old(self).heard().len() as int;
                        assert(self.heard().take(n) =~= heard_prev.take(n));
                        assert forall|i: int| 0 <= i < heard_prev.len() implies self.heard()[i] == heard_prev[i] by {}
                    }
                    if let Some(app_event) = stop {
                        return Ok((app_event, replies));
                    }
                },
                _ => {
                    self.drained = Ghost(true);
                    return Ok((AppEvent::Continue, replies));
                },
            }
            handled += 1;
        }
        Ok((AppEvent::Continue, replies))
    }
}

} // verus!
