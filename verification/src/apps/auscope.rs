//! The oscilloscope application: audio from a selected device, shown to the
//! user and handed to a script that can ask to connect to another device.

use vstd::prelude::*;

use crossbeam::channel::Receiver;

use crate::apps::audio_midi::{device_names, opt_view, AppEvent, AudioAppView, AudioProvider};
use crate::audio::interface::{
    same_device, same_selection, selected_channels, AudioBuffer, AudioChannelSelection, AudioDevice, AudioInterface,
};
use crate::controllers::audio::AudioProviderController;
use crate::channel::{poll, Polled};
use crate::error::AudError;
use crate::locations::{file_name, path_file_name};
use crate::lua::api::{ConnectionApiEvent, LogApiEvent};
use crate::lua::engine::{HostEvent, ScriptEvent};

verus! {

/// The oscilloscope's state: its audio source with the device and channels
/// selected, the name of the script loaded and the last alert the script
/// raised.
pub struct App<P: AudioProvider> {
    audio: AudioProviderController<P>,
    script_path: Option<String>,
    alert_message: Option<String>,
    heard: Ghost<Seq<ScriptEvent>>,
    told: Ghost<Seq<HostEvent>>,
    drained: Ghost<bool>,
}

/// The position of the first device named `name`.
pub open spec fn first_named(devices: Seq<AudioDevice>, name: Seq<char>, i: int) -> bool {
    &&& 0 <= i < devices.len()
    &&& devices[i].name@ == name
    &&& forall|k: int| 0 <= k < i ==> (#[trigger] devices[k]).name@ != name
}

/// The position of the first device named `name`, if any.
pub fn find_device(devices: &[AudioDevice], name: &str) -> (r: Option<usize>)
    ensures
        r matches Some(i) ==> first_named(devices@, name@, i as int),
        r is None ==> forall|k: int| 0 <= k < devices@.len() ==> (#[trigger] devices@[k]).name@ != name@,
{
    let mut i: usize = 0;
    while i < devices.len()
        invariant
            i <= devices@.len(),
            forall|k: int| 0 <= k < i ==> (#[trigger] devices@[k]).name@ != name@,
        decreases devices.len() - i,
    {
        if crate::apps::audio_midi::str_eq(devices[i].name.as_str(), name) {
            return Some(i);
        }
        i += 1;
    }
    None
}

impl<P: AudioProvider> App<P> {
    /// The audio side: the audio gathered and the device and channels
    /// selected.
    pub closed spec fn audio_view(&self) -> AudioAppView {
        self.audio.view()
    }

    /// The last alert raised by the script and not yet taken.
    pub closed spec fn alert(&self) -> Option<Seq<char>> {
        opt_view(self.alert_message)
    }

    /// The path of the script loaded, if any.
    pub closed spec fn script_path(&self) -> Option<Seq<char>> {
        opt_view(self.script_path)
    }

    /// Whether the last look for events of the script found none waiting
    /// (see `process_script_events`).
    pub closed spec fn drained(&self) -> bool {
        self.drained@
    }

    /// The events of the script handled so far, in order (see
    /// `handle_script_event`).
    pub closed spec fn heard(&self) -> Seq<ScriptEvent> {
        self.heard@
    }

    /// What the events of the script handled so far handed back to it, in
    /// order (see `handle_script_event`).
    pub closed spec fn told(&self) -> Seq<HostEvent> {
        self.told@
    }

    /// The file name of the script loaded, if any: the last component of
    /// its path.
    pub open spec fn script_name(&self) -> Option<Seq<char>> {
        match self.script_path() {
            Some(path) => Some(file_name(path)),
            None => None,
        }
    }

    /// The oscilloscope over `audio_receiver`, with nothing selected.
    pub fn new(audio_receiver: P) -> (r: Self)
        ensures
            r.audio_view().selected_device is None,
            r.audio_view().selected_channels is None,
            r.audio_view().buffer.data@.len() == 0,
            r.alert() is None,
            r.script_path() is None,
            r.heard() == Seq::<ScriptEvent>::empty(),
            r.told() == Seq::<HostEvent>::empty(),
    {
        App {
            audio: AudioProviderController::new(audio_receiver),
            script_path: None,
            alert_message: None,
            heard: Ghost(Seq::empty()),
            told: Ghost(Seq::empty()),
            drained: Ghost(false),
        }
    }

    /// The audio source.
    pub closed spec fn provider(&self) -> P {
        self.audio.provider()
    }

    /// The devices of the audio source.
    pub fn devices(&self) -> (r: &[AudioDevice])
        ensures
            r@ == self.provider().audio_devices()@,
    {
        self.audio.devices()
    }

    /// Takes the last alert, leaving none.
    pub fn take_alert(&mut self) -> (r: Option<String>)
        ensures
            opt_view(r) == old(self).alert(),
            final(self).alert() is None,
            final(self).audio_view() == old(self).audio_view(),
            final(self).script_path() == old(self).script_path(),
    {
        let mut alert: Option<String> = None;
        std::mem::swap(&mut self.alert_message, &mut alert);
        alert
    }

    /// The file name of the script loaded, if any.
    pub fn selected_script(&self) -> (r: Option<&str>)
        ensures
            r matches Some(s) ==> self.script_name() == Some(s@),
            r is None <==> self.script_name() is None,
    {
        match &self.script_path {
            Some(path) => Some(path_file_name(path.as_str())),
            None => None,
        }
    }

    /// The path of the script loaded, if any.
    pub fn loaded_script_path(&self) -> (r: Option<&str>)
        ensures
            r matches Some(s) ==> self.script_path() == Some(s@),
            r is None <==> self.script_path() is None,
    {
        match &self.script_path {
            Some(path) => Some(path.as_str()),
            None => None,
        }
    }

    /// The audio gathered so far.
    pub fn audio(&self) -> (r: &AudioBuffer)
        ensures
            *r == self.audio_view().buffer,
    {
        self.audio.buffer()
    }

    /// Connects the selected device to `channel_selection`, clearing the
    /// audio gathered; the event returned tells the script of the
    /// connection. Fails when no device is selected or the source fails to
    /// connect.
    pub fn update_channel_selection(&mut self, channel_selection: AudioChannelSelection) -> (r: Result<
        HostEvent,
        AudError,
    >)
        ensures
            old(self).audio_view().selected_device is None ==> (r matches Err(e) && e.message@
                == "No audio device selected"@ && final(self).audio_view() == old(self).audio_view()
                && final(self).provider() == old(self).provider()),
            final(self).audio_view().selected_device == old(self).audio_view().selected_device,
            r is Ok ==> final(self).audio_view().selected_channels == Some(channel_selection),
            r is Ok ==> (r matches Ok(HostEvent::Connect(name)) && old(self).audio_view().selected_device matches Some(
                d,
            ) && name@ == d.name@),
            old(self).audio_view().selected_device matches Some(d) ==> (final(self).provider().requested_connection() matches Some(
                (device, channels),
            ) && same_device(device, d) && same_selection(channels, channel_selection)),
            final(self).alert() == old(self).alert(),
            final(self).script_path() == old(self).script_path(),
    {
        self.audio.update_channel_selection(channel_selection)
    }

    /// Selects `audio_device` and connects it to `channel_selection` (see
    /// `update_channel_selection`).
    pub fn connect_to_audio_input(
        &mut self,
        audio_device: &AudioDevice,
        channel_selection: AudioChannelSelection,
    ) -> (r: Result<HostEvent, AudError>)
        ensures
            final(self).audio_view().selected_device matches Some(d) && same_device(d, *audio_device),
            final(self).audio_view().buffer.num_channels == selected_channels(channel_selection).len() as u32,
            final(self).audio_view().buffer.data@.len() == 0,
            r is Ok ==> final(self).audio_view().selected_channels == Some(channel_selection),
            r is Ok ==> (r matches Ok(HostEvent::Connect(name)) && name@ == audio_device.name@),
            final(self).provider().requested_connection() matches Some((device, channels)) && same_device(
                device,
                *audio_device,
            ) && same_selection(channels, channel_selection),
            final(self).alert() == old(self).alert(),
            final(self).script_path() == old(self).script_path(),
    {
        self.audio.connect_to_input(audio_device, channel_selection)
    }

    /// Lets the source process its events and adds its audio to the audio
    /// gathered.
    pub fn fetch_audio(&mut self) -> (r: Result<(), AudError>)
        ensures
            final(self).audio_view().selected_device == old(self).audio_view().selected_device,
            final(self).audio_view().selected_channels == old(self).audio_view().selected_channels,
            final(self).alert() == old(self).alert(),
            final(self).script_path() == old(self).script_path(),
    {
        self.audio.update()
    }

    /// Records that the script at path `script` was loaded, and returns
    /// that the application goes on, with what the script is to be told: the names of the devices, and,
    /// when a device and channels are selected, the connection made again to
    /// them.
    pub fn load_script(&mut self, script: String) -> (r: Result<(AppEvent, Vec<HostEvent>), AudError>)
        ensures
            final(self).script_path() == Some(script@),
            r matches Ok((event, _)) ==> event == AppEvent::Continue,
            final(self).alert() == old(self).alert(),
            r matches Ok((_, events)) ==> events@.len() >= 1 && events@[0] is Discover,
            r matches Ok((_, events)) ==> (events@[0] matches HostEvent::Discover(names) && names@.len()
                == old(self).provider().audio_devices()@.len() && forall|i: int|
                0 <= i < names@.len() ==> (#[trigger] names@[i])@ == old(self).provider().audio_devices()@[i].name@),
            !(old(self).audio_view().selected_device is Some && old(self).audio_view().selected_channels is Some) ==> (
            r is Ok && final(self).audio_view() == old(self).audio_view() && final(self).provider()
                == old(self).provider()),
            r matches Ok((_, events)) ==> (!(old(self).audio_view().selected_device is Some
                && old(self).audio_view().selected_channels is Some) ==> events@.len() == 1),
            r matches Ok((_, events)) ==> (old(self).audio_view().selected_channels is Some ==> (
            old(self).audio_view().selected_device matches Some(d) ==> {
                &&& events@.len() == 2
                &&& events@[1] matches HostEvent::Connect(name) && name@ == d.name@
            })),
    {
        self.script_path = Some(script);
        let mut events: Vec<HostEvent> = Vec::new();
        events.push(HostEvent::Discover(device_names(self.audio.devices())));
        if let Some(event) = self.audio.reconnect()? {
            events.push(event);
        }
        Ok((AppEvent::Continue, events))
    }

    /// Reacts to an event of the script, and returns what the application
    /// loop is to do if it is to stop processing script events, and the
    /// events to send back to the script:
    /// - the script being loaded stops the processing with `ScriptLoaded`;
    /// - an alert is kept for the user (a log message needs nothing);
    /// - a connection request for a device of the source connects to it,
    ///   with the channels selected, or channel 0 when none are;
    /// - anything else is ignored.
    pub fn handle_script_event(&mut self, event: ScriptEvent) -> (r: Result<(Option<AppEvent>, Vec<HostEvent>), AudError>)
        ensures
            event is Loaded ==> (r matches Ok((Some(AppEvent::ScriptLoaded), events)) && events@.len() == 0),
            !(event is Loaded) ==> (r matches Ok((stop, _)) ==> stop is None),
            event matches ScriptEvent::Log(LogApiEvent::Alert(msg)) ==> r is Ok && final(self).alert() == Some(msg@),
            !(event matches ScriptEvent::Log(LogApiEvent::Alert(_))) ==> final(self).alert() == old(self).alert(),
            !(event is Connect) ==> final(self).audio_view() == old(self).audio_view(),
            event matches ScriptEvent::Connect(req) ==> {
                ||| final(self).audio_view() == old(self).audio_view() && (r matches Ok((_, events))
                    && events@.len() == 0)
                ||| final(self).audio_view().selected_device matches Some(d) && d.name@ == req.device@
            },
            event matches ScriptEvent::Connect(req) ==> (r matches Ok((_, events)) ==> events@.len() <= 1),
            event matches ScriptEvent::Connect(req) ==> (r matches Ok((_, events)) ==> forall|k: int|
                0 <= k < events@.len() ==> (#[trigger] events@[k] matches HostEvent::Connect(name) && name@
                    == req.device@)),
            event matches ScriptEvent::Connect(req) ==> (r matches Ok((_, events)) ==> (events@.len() == 1
                <== exists|i: int| #[trigger] first_named(old(self).provider().audio_devices()@, req.device@, i))),
            !(event is Connect) ==> (r matches Ok((_, events)) ==> events@.len() == 0),
            r matches Ok((_, events)) ==> final(self).told() == old(self).told() + events@,
            final(self).heard() == old(self).heard().push(event),
            final(self).script_path() == old(self).script_path(),
    {
        let ghost before = self.told@;
        let ghost heard_before = self.heard@;
        let ghost handled = event;
        let r = match event {
            ScriptEvent::Loaded => Ok((Some(AppEvent::ScriptLoaded), Vec::new())),
            ScriptEvent::Log(request) => {
                match request {
                    LogApiEvent::Log(_) => {},
                    LogApiEvent::Alert(msg) => {
                        self.alert_message = Some(msg);
                    },
                }
                Ok((None, Vec::new()))
            },
            ScriptEvent::Connect(request) => {
                match self.handle_lua_connect_request(request) {
                    Ok(connected) => {
                        let mut events: Vec<HostEvent> = Vec::new();
                        if let Some(event) = connected {
                            events.push(event);
                        }
                        Ok((None, events))
                    },
                    Err(e) => Err(e),
                }
            },
            _ => Ok((None, Vec::new())),
        };
        self.heard = Ghost(heard_before.push(handled));
        self.told = Ghost(
            match r {
                Ok((_, ref events)) => before + events@,
                Err(_) => before,
            },
        );
        r
    }

    /// Connects to the first device of the source named in `request`, if
    /// any, with the channels selected, or channel 0 when none are.
    pub fn handle_lua_connect_request(&mut self, request: ConnectionApiEvent) -> (r: Result<
        Option<HostEvent>,
        AudError,
    >)
        ensures
            r matches Ok(None) ==> final(self).audio_view() == old(self).audio_view(),
            r matches Ok(Some(e)) ==> (e matches HostEvent::Connect(name) && name@ == request.device@),
            r matches Ok(Some(_)) ==> (final(self).audio_view().selected_device matches Some(d) && d.name@
                == request.device@),
            r is Ok && final(self).audio_view() != old(self).audio_view() ==> (final(self).audio_view().selected_device matches Some(d) && d.name@ == request.device@),
            r is Err ==> (final(self).audio_view().selected_device matches Some(d) && d.name@ == request.device@),
            (forall|k: int| 0 <= k < old(self).provider().audio_devices()@.len() ==> (
            #[trigger] old(self).provider().audio_devices()@[k]).name@ != request.device@) ==> (r matches Ok(None)
                && final(self).audio_view() == old(self).audio_view()),
            forall|i: int| #[trigger] first_named(old(self).provider().audio_devices()@, request.device@, i) ==> {
                &&& final(self).audio_view().selected_device matches Some(d) && same_device(
                    d,
                    old(self).provider().audio_devices()@[i],
                )
                &&& final(self).provider().requested_connection() matches Some((device, channels)) && same_device(
                    device,
                    old(self).provider().audio_devices()@[i],
                ) && (old(self).audio_view().selected_channels matches Some(c) ==> same_selection(channels, c))
                    && (old(self).audio_view().selected_channels is None ==> channels
                    == AudioChannelSelection::Mono(0))
            },
            (exists|i: int| #[trigger] first_named(old(self).provider().audio_devices()@, request.device@, i))
                ==> !(r matches Ok(None)),
            final(self).alert() == old(self).alert(),
            final(self).script_path() == old(self).script_path(),
    {
        let devices = self.audio.devices();
        let device = match find_device(devices, request.device.as_str()) {
            Some(i) => {
                proof {
                    assert(devices@[i as int].name@ == request.device@);
                    assert(old(self).provider().audio_devices()@[i as int].name@ == request.device@);
                    assert forall|j: int| #[trigger] first_named(devices@, request.device@, j) implies j == i by {
                        if j < i {
                            assert(devices@[j].name@ == request.device@);
                        } else if j > i {
                            assert(devices@[i as int].name@ != request.device@);
                        }
                    }
                }
                devices[i].duplicate()
            },
            None => return Ok(None),
        };
        let channels = match self.audio.selected_channels() {
            Some(c) => c.duplicate(),
            None => AudioChannelSelection::Mono(0),
        };
        let event = self.audio.connect_to_input(&device, channels)?;
        Ok(Some(event))
    }

    /// Processes the events of the script waiting in `events`, at most
    /// `max_events` of them (see `handle_script_event`), without blocking:
    /// stops at an event that loads the script or stops the application,
    /// returning it, and otherwise returns `Continue` once none is waiting.
    /// Returns also the events to send back to the script, in order.
    pub fn process_script_events(&mut self, events: &Receiver<ScriptEvent>, max_events: usize) -> (r: Result<
        (AppEvent, Vec<HostEvent>),
        AudError,
    >)
        ensures
            max_events == 0 ==> (r matches Ok((AppEvent::Continue, replies)) && replies@.len() == 0),
            max_events == 0 ==> *final(self) == *old(self),
            r matches Ok((event, _)) ==> event == AppEvent::Continue || event == AppEvent::ScriptLoaded || event
                == AppEvent::Stopping,
            final(self).script_path() == old(self).script_path(),
            r matches Ok((_, replies)) ==> final(self).told() == old(self).told() + replies@,
            r matches Ok((AppEvent::Continue, _)) && final(self).heard().len() < old(self).heard().len() + max_events
                ==> final(self).drained(),
            r matches Ok((app_event, _)) ==> {
                &&& old(self).heard().len() <= final(self).heard().len() <= old(self).heard().len() + max_events
                &&& final(self).heard().take(old(self).heard().len() as int) == old(self).heard()
                &&& forall|i: int| old(self).heard().len() <= i < final(self).heard().len() - 1
                    ==> !(#[trigger] final(self).heard()[i] is Loaded)
                &&& app_event == AppEvent::ScriptLoaded <==> final(self).heard().len() > old(self).heard().len()
                    && final(self).heard().last() is Loaded
                &&& app_event != AppEvent::ScriptLoaded ==> app_event == AppEvent::Continue
            },
    {
        let mut replies: Vec<HostEvent> = Vec::new();
        let mut handled: usize = 0;
        proof {
            assert(old(self).told() + replies@ =~= old(self).told());
            assert(old(self).heard().take(old(self).heard().len() as int) =~= old(self).heard());
        }
        while handled < max_events
            invariant
                handled <= max_events,
                handled == 0 ==> *self == *old(self) && replies@.len() == 0,
                self.script_path() == old(self).script_path(),
                self.told() == old(self).told() + replies@,
                self.heard().len() == old(self).heard().len() + handled,
                self.heard().take(old(self).heard().len() as int) == old(self).heard(),
                forall|i: int| old(self).heard().len() <= i < self.heard().len() ==> !(#[trigger] self.heard()[i] is Loaded),
            decreases max_events - handled,
        {
            match poll(events) {
                Polled::Message(event) => {
                    let ghost told_before = replies@;
                    let ghost heard_prev = self.heard();
                    let (stop, mut sent) = self.handle_script_event(event)?;
                    self.drained = Ghost(false);
                    let ghost sent_now = sent@;
                    replies.append(&mut sent);
                    proof {
                        assert(old(self).told() + told_before + sent_now =~= old(self).told() + replies@);
                        let n = old(self).heard().len() as int;
                        assert(self.heard().take(n) =~= heard_prev.take(n));
                        assert forall|i: int| 0 <= i < heard_prev.len() implies self.heard()[i] == heard_prev[i] by {}
                    }
                    if let Some(app_event) = stop {
                        return Ok((app_event, replies));
                    }
                },
                _ => {
                    self.drained = Ghost(true);
                    return Ok((AppEvent::Continue, replies));
                },
            }
            handled += 1;
        }
        Ok((AppEvent::Continue, replies))
    }
}

} // verus!
