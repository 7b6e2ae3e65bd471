use aud::apps::audio_midi::{self, AppEvent};
use aud::apps::{auscope, midimon};
use aud::audio::interface::{
    AudioBuffer, AudioChannelSelection, AudioDevice, AudioDeviceConnection, AudioInterface,
    AudioProviding,
};
use aud::controllers::audio::AudioProviderController;
use aud::controllers::midi::MidiReceiverController;
use aud::error::AudError;
use aud::lua::api::{ConnectionApiEvent, ControlFlowApiEvent, LogApiEvent};
use aud::lua::engine::{HostEvent, ScriptEvent};
use aud::midi::{MidiData, MidiReceiving};

const MIDI_DEVICES: &[&str] = &["dev0", "dev1", "dev2"];
const MIDI_BYTES: &[u8] = &[1, 2, 3];

#[derive(Default)]
struct MockMidiHost {
    is_active: bool,
    port: Option<String>,
}

impl MidiReceiving for MockMidiHost {
    fn stream_active(&self) -> bool {
        self.is_active
    }

    fn connected_port(&self) -> Option<String> {
        self.port.clone()
    }

    fn is_midi_stream_active(&self) -> bool {
        self.is_active
    }

    fn set_midi_stream_active(&mut self, should_activate: bool) {
        self.is_active = should_activate;
    }

    fn list_midi_devices(&self) -> Result<Vec<String>, AudError> {
        Ok(MIDI_DEVICES.iter().map(|s| s.to_string()).collect())
    }

    fn connect_to_midi_device(&mut self, device_name: &str) -> Result<(), AudError> {
        assert!(MIDI_DEVICES.contains(&device_name));
        self.port = Some(device_name.to_string());
        Ok(())
    }

    fn produce_midi_messages(&mut self) -> Vec<MidiData> {
        vec![MidiData {
            timestamp: 1111,
            bytes: MIDI_BYTES.into(),
        }]
    }
}

#[derive(Default)]
struct BrokenMidiHost {
    is_active: bool,
}

impl MidiReceiving for BrokenMidiHost {
    fn stream_active(&self) -> bool {
        self.is_active
    }

    fn connected_port(&self) -> Option<String> {
        None
    }

    fn is_midi_stream_active(&self) -> bool {
        self.is_active
    }

    fn set_midi_stream_active(&mut self, should_activate: bool) {
        self.is_active = should_activate;
    }

    fn list_midi_devices(&self) -> Result<Vec<String>, AudError> {
        Err(AudError::new("no MIDI host"))
    }

    fn connect_to_midi_device(&mut self, _: &str) -> Result<(), AudError> {
        Err(AudError::new("no MIDI host"))
    }

    fn produce_midi_messages(&mut self) -> Vec<MidiData> {
        vec![]
    }
}

struct MockAudio {
    devices: Vec<AudioDevice>,
    pending: Vec<AudioBuffer>,
    connected: Option<String>,
    requested: Option<(AudioDevice, AudioChannelSelection)>,
}

impl MockAudio {
    fn new() -> Self {
        MockAudio {
            devices: vec![
                AudioDevice {
                    name: "mic".to_string(),
                    num_channels: 2,
                },
                AudioDevice {
                    name: "line".to_string(),
                    num_channels: 4,
                },
            ],
            pending: vec![],
            connected: None,
            requested: None,
        }
    }
}

impl AudioInterface for MockAudio {
    fn accessible(&self) -> bool {
        self.connected.is_some()
    }

    fn audio_devices(&self) -> Vec<AudioDevice> {
        self.devices.clone()
    }

    fn requested_connection(&self) -> Option<(AudioDevice, AudioChannelSelection)> {
        self.requested
            .as_ref()
            .map(|(device, channels)| (device.clone(), channels.duplicate()))
    }

    fn is_accessible(&self) -> bool {
        self.connected.is_some()
    }

    fn list_audio_devices(&self) -> &[AudioDevice] {
        &self.devices
    }

    fn connect_to_audio_device(
        &mut self,
        audio_device: &AudioDevice,
        channel_selection: AudioChannelSelection,
    ) -> Result<(), AudError> {
        self.requested = Some((audio_device.clone(), channel_selection));
        self.connected = Some(audio_device.name.clone());
        Ok(())
    }

    fn connected_audio_device(&self) -> Option<&AudioDeviceConnection> {
        None
    }

    fn process_audio_events(&mut self) -> Result<(), AudError> {
        Ok(())
    }
}

impl AudioProviding for MockAudio {
    fn available_audio(&self) -> Option<AudioBuffer> {
        self.pending.first().cloned()
    }

    fn retrieve_audio_buffer(&mut self) -> AudioBuffer {
        if self.pending.is_empty() {
            AudioBuffer {
                data: vec![],
                num_channels: 0,
            }
        } else {
            self.pending.remove(0)
        }
    }
}

fn connect_name(event: &HostEvent) -> Option<&str> {
    match event {
        HostEvent::Connect(name) => Some(name.as_str()),
        _ => None,
    }
}

#[test]
fn is_off_by_default() {
    let mut app =
        audio_midi::App::new(MockAudio::new(), Box::<MockMidiHost>::default()).unwrap();
    assert!(!app.midi().is_runing());
    assert!(app.take_alert().is_none());

    app.midi_mut().set_running(true);
    assert!(app.midi().is_runing());
}

#[test]
fn audio_midi_app_keeps_alerts_and_follows_control_requests() {
    let mut app =
        audio_midi::App::new(MockAudio::new(), Box::<MockMidiHost>::default()).unwrap();

    let (stop, events) = app
        .handle_script_event(ScriptEvent::Log(LogApiEvent::Alert("loaded".to_string())))
        .unwrap();
    assert!(stop.is_none() && events.is_empty());
    assert_eq!(app.take_alert().unwrap(), "loaded");
    assert!(app.take_alert().is_none());

    let (stop, _) = app.handle_script_event(ScriptEvent::Loaded).unwrap();
    assert_eq!(stop, Some(AppEvent::ScriptLoaded));

    app.handle_script_event(ScriptEvent::Control(ControlFlowApiEvent::Resume))
        .unwrap();
    assert!(app.midi().is_runing());
    app.handle_script_event(ScriptEvent::Control(ControlFlowApiEvent::Pause))
        .unwrap();
    assert!(!app.midi().is_runing());
    let (stop, _) = app
        .handle_script_event(ScriptEvent::Control(ControlFlowApiEvent::Stop))
        .unwrap();
    assert_eq!(stop, Some(AppEvent::Stopping));

    let (_, events) = app
        .handle_script_event(ScriptEvent::Connect(ConnectionApiEvent {
            device: "dev1".to_string(),
        }))
        .unwrap();
    assert_eq!(events.len(), 1);
    assert_eq!(connect_name(&events[0]), Some("dev1"));
    assert_eq!(app.midi().selected_port(), Some("dev1"));

    let (_, events) = app
        .handle_script_event(ScriptEvent::Connect(ConnectionApiEvent {
            device: "nope".to_string(),
        }))
        .unwrap();
    assert!(events.is_empty());
    assert_eq!(app.midi().selected_port(), Some("dev1"));
}

#[test]
fn midi_controller_connects_by_name_or_index_and_forwards_messages() {
    let mut midi = MidiReceiverController::new(Box::<MockMidiHost>::default()).unwrap();
    assert!(!midi.is_running());
    assert_eq!(midi.port_names().len(), 3);
    assert!(midi.reconnect().unwrap().is_none());

    assert_eq!(
        midi.connect_to_input_by_index(3).unwrap_err().message,
        "invalid port selection : 3"
    );
    assert_eq!(
        midi.connect_to_input_by_index(1234).unwrap_err().message,
        "invalid port selection : 1234"
    );
    assert_eq!(
        midi.connect_to_input("missing").unwrap_err().message,
        "port not found : missing"
    );
    assert!(midi.selected_port_name().is_none());

    midi.set_running(true);
    assert!(midi.is_running());
    midi.set_running(false);
    assert!(!midi.is_running());

    midi.push_message(MidiData {
        timestamp: 1,
        bytes: vec![9],
    });
    let event = midi.connect_to_input_by_index(0).unwrap();
    assert_eq!(connect_name(&event), Some(MIDI_DEVICES[0]));
    assert_eq!(midi.selected_port_name().unwrap(), MIDI_DEVICES[0]);
    assert!(midi.take_messages().is_empty());

    let event = midi.connect_to_input("dev2").unwrap();
    assert_eq!(connect_name(&event), Some("dev2"));
    let again = midi.reconnect().unwrap().unwrap();
    assert_eq!(connect_name(&again), Some("dev2"));

    let forwarded = midi.update();
    assert_eq!(forwarded.len(), 1);
    match &forwarded[0] {
        HostEvent::Midi(m) => {
            assert_eq!(m.timestamp, 1111);
            assert_eq!(m.bytes, MIDI_BYTES);
        }
        _ => panic!("expected a MIDI event"),
    }

    assert!(MidiReceiverController::new(Box::<BrokenMidiHost>::default()).is_err());
}

#[test]
fn audio_controller_needs_a_device_before_selecting_channels() {
    let mut audio = AudioProviderController::new(MockAudio::new());
    assert!(audio
        .update_channel_selection(AudioChannelSelection::Mono(0))
        .is_err());
    assert!(audio.reconnect().unwrap().is_none());

    let line = audio.devices()[1].clone();
    let event = audio
        .connect_to_input(&line, AudioChannelSelection::Range(0..3))
        .unwrap();
    assert_eq!(connect_name(&event), Some("line"));
    assert_eq!(audio.buffer().num_channels, 3);
    assert_eq!(audio.selected_device().unwrap().name, "line");

    let event = audio
        .update_channel_selection(AudioChannelSelection::Multi(vec![1, 2, 1]))
        .unwrap();
    assert_eq!(connect_name(&event), Some("line"));
    assert!(matches!(
        audio.selected_channels(),
        Some(AudioChannelSelection::Multi(list)) if list == &vec![1, 2, 1]
    ));
    let again = audio.reconnect().unwrap().unwrap();
    assert_eq!(connect_name(&again), Some("line"));
    assert_eq!(audio.buffer().num_channels, 2);
}

#[test]
fn audio_controller_accumulates_or_replaces_fetched_audio() {
    let mut source = MockAudio::new();
    source.pending = vec![
        AudioBuffer {
            data: vec![1, 2],
            num_channels: 2,
        },
        AudioBuffer {
            data: vec![3, 4],
            num_channels: 2,
        },
        AudioBuffer {
            data: vec![5],
            num_channels: 1,
        },
    ];
    let mut audio = AudioProviderController::new(source);
    audio.update().unwrap();
    assert_eq!(audio.buffer().data, vec![1, 2]);
    audio.update().unwrap();
    assert_eq!(audio.buffer().data, vec![1, 2, 3, 4]);
    audio.update().unwrap();
    assert_eq!(audio.buffer().data, vec![5]);
    assert_eq!(audio.buffer().num_channels, 1);
}

#[test]
fn auscope_connects_to_the_device_a_script_asks_for() {
    let mut app = auscope::App::new(MockAudio::new());

    let (_, events) = app
        .handle_script_event(ScriptEvent::Connect(ConnectionApiEvent {
            device: "line".to_string(),
        }))
        .unwrap();
    assert_eq!(events.len(), 1);
    assert_eq!(connect_name(&events[0]), Some("line"));
    // With no channels selected, the first channel is taken.
    assert_eq!(app.audio().num_channels, 1);

    let (_, events) = app
        .handle_script_event(ScriptEvent::Connect(ConnectionApiEvent {
            device: "nothing".to_string(),
        }))
        .unwrap();
    assert!(events.is_empty());

    let (stop, _) = app.handle_script_event(ScriptEvent::Loaded).unwrap();
    assert_eq!(stop, Some(AppEvent::ScriptLoaded));

    app.handle_script_event(ScriptEvent::Log(LogApiEvent::Alert("hi".to_string())))
        .unwrap();
    assert_eq!(app.take_alert().unwrap(), "hi");
}

#[test]
fn auscope_tells_a_loaded_script_of_devices_and_connection() {
    let mut app = auscope::App::new(MockAudio::new());
    let (event, events) = app
        .load_script("/scripts/auscope/scope.lua".to_string())
        .unwrap();
    assert_eq!(event, AppEvent::Continue);
    assert_eq!(app.loaded_script_path(), Some("/scripts/auscope/scope.lua"));
    assert_eq!(events.len(), 1);
    match &events[0] {
        HostEvent::Discover(names) => assert_eq!(names, &vec!["mic".to_string(), "line".to_string()]),
        _ => panic!("expected the device names"),
    }
    assert_eq!(app.selected_script(), Some("scope.lua"));

    let mic = app.devices()[0].clone();
    app.connect_to_audio_input(&mic, AudioChannelSelection::Mono(1))
        .unwrap();
    let (_, events) = app.load_script("other.lua".to_string()).unwrap();
    assert_eq!(events.len(), 2);
    assert_eq!(connect_name(&events[1]), Some("mic"));
    assert_eq!(app.selected_script(), Some("other.lua"));
}

#[test]
fn midimon_collects_messages_the_script_passes_on() {
    let mut app = midimon::App::new(Box::<MockMidiHost>::default()).unwrap();
    assert!(!app.running());
    let (event, events) = app.load_script("fixtures/monitor.lua".to_string()).unwrap();
    assert_eq!(event, AppEvent::Continue);
    assert_eq!(app.selected_script(), Some("monitor.lua"));
    assert_eq!(app.loaded_script_path(), Some("fixtures/monitor.lua"));
    assert_eq!(events.len(), 1);

    let event = app.connect_to_midi_input("dev0").unwrap().unwrap();
    assert_eq!(connect_name(&event), Some("dev0"));
    let (_, events) = app.load_script("monitor.lua".to_string()).unwrap();
    assert_eq!(events.len(), 2);
    assert_eq!(connect_name(&events[1]), Some("dev0"));

    let forwarded = app.process_midi_messages();
    assert_eq!(forwarded.len(), 1);
    for event in forwarded {
        if let HostEvent::Midi(m) = event {
            app.handle_script_event(ScriptEvent::Midi(m)).unwrap();
        }
    }
    let messages = app.take_messages();
    assert_eq!(messages.len(), 1);
    assert_eq!(messages[0].bytes, MIDI_BYTES);

    assert!(app.connect_to_midi_input_by_index(7).unwrap().is_none());
    let (stop, _) = app
        .handle_script_event(ScriptEvent::Control(ControlFlowApiEvent::Stop))
        .unwrap();
    assert_eq!(stop, Some(AppEvent::Stopping));
}

#[test]
fn channel_selection_needs_a_selected_device() {
    let mut audio = AudioProviderController::new(MockAudio::new());
    let error = audio
        .update_channel_selection(AudioChannelSelection::Mono(0))
        .unwrap_err();
    assert_eq!(error.message, "No audio device selected");
    assert!(audio.selected_device().is_none());
    assert!(audio.selected_channels().is_none());
}

#[test]
fn script_events_are_processed_until_the_script_is_loaded() {
    let mut app = midimon::App::new(Box::<MockMidiHost>::default()).unwrap();
    let (sender, receiver) = crossbeam::channel::bounded(8);
    sender
        .send(ScriptEvent::Log(LogApiEvent::Alert("hello".to_string())))
        .unwrap();
    sender
        .send(ScriptEvent::Connect(ConnectionApiEvent {
            device: "dev1".to_string(),
        }))
        .unwrap();
    sender.send(ScriptEvent::Loaded).unwrap();
    sender
        .send(ScriptEvent::Control(ControlFlowApiEvent::Stop))
        .unwrap();

    let (event, replies) = app.process_script_events(&receiver, 8).unwrap();
    assert_eq!(event, AppEvent::ScriptLoaded);
    assert_eq!(replies.len(), 1);
    assert_eq!(connect_name(&replies[0]), Some("dev1"));
    assert_eq!(app.take_alert().unwrap(), "hello");

    let (event, replies) = app.process_script_events(&receiver, 8).unwrap();
    assert_eq!(event, AppEvent::Stopping);
    assert!(replies.is_empty());

    let (event, _) = app.process_script_events(&receiver, 8).unwrap();
    assert_eq!(event, AppEvent::Continue);
}
