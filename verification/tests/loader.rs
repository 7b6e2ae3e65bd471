use aud::audio::interface::AudioBuffer;
use aud::lua::engine::{HostEvent, ScriptEvent};
use aud::lua::loader::{midi_to_forward, LoaderAction, ScriptLoader};
use aud::midi::MidiData;

fn midi(bytes: &[u8]) -> MidiData {
    MidiData {
        timestamp: 7,
        bytes: bytes.to_vec(),
    }
}

#[test]
fn messages_come_from_the_device_connected_last() {
    let mut loader = ScriptLoader::new();
    match loader.next_action(HostEvent::Midi(midi(&[1]))) {
        LoaderAction::Midi { device, midi } => {
            assert_eq!(device, "");
            assert_eq!(midi.bytes, vec![1]);
        }
        _ => panic!("expected a MIDI action"),
    }
    assert!(matches!(
        loader.next_action(HostEvent::Connect("keys".to_string())),
        LoaderAction::Connect(name) if name == "keys"
    ));
    match loader.next_action(HostEvent::Audio(AudioBuffer {
        data: vec![1, 2, 3, 4],
        num_channels: 2,
    })) {
        LoaderAction::Audio { device, channels } => {
            assert_eq!(device, "keys");
            assert_eq!(channels, vec![vec![1, 3], vec![2, 4]]);
        }
        _ => panic!("expected an audio action"),
    }
}

#[test]
fn scripts_are_loaded_stopped_and_terminated() {
    let mut loader = ScriptLoader::new();
    assert!(matches!(
        loader.next_action(HostEvent::LoadScript {
            name: "a.lua".to_string(),
            chunk: "print(1)".to_string()
        }),
        LoaderAction::LoadScript { name, chunk } if name == "a.lua" && chunk == "print(1)"
    ));
    assert!(matches!(loader.next_action(HostEvent::Stop), LoaderAction::StopScript));
    assert!(matches!(
        loader.next_action(HostEvent::Discover(vec!["x".to_string()])),
        LoaderAction::Discover(names) if names == vec!["x".to_string()]
    ));
    assert!(matches!(loader.next_action(HostEvent::Terminate), LoaderAction::Terminate));
}

#[test]
fn the_script_can_keep_a_message_from_the_host() {
    assert!(midi_to_forward(Some(false), midi(&[9])).is_none());
    assert!(matches!(
        midi_to_forward(Some(true), midi(&[9])),
        Some(ScriptEvent::Midi(m)) if m.bytes == vec![9]
    ));
    assert!(matches!(midi_to_forward(None, midi(&[9])), Some(ScriptEvent::Midi(_))));
}
