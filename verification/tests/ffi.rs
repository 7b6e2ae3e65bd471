use aud::audio::ffi::{CachingAudioProvider, FfiAudioTransmitter, FfiAudioTransmitterResult};
use aud::streams::audio::{AudioChannelSelection as Legacy, AudioDevice as LegacyDevice};
use aud::streams::ffi::FfiAudioReceiver;
use aud::audio::interface::{
    AudioBuffer, AudioChannelSelection, AudioDevice, AudioInterface, AudioProviding,
};
use aud::comms::api::{AudioRequest, AudioResponse};

fn device(name: &str, num_channels: usize) -> AudioDevice {
    AudioDevice {
        name: name.to_owned(),
        num_channels,
    }
}

fn sources() -> Vec<AudioDevice> {
    vec![device("synth", 2), device("drums", 4)]
}

#[test]
fn caching_provider_gathers_pushed_audio_until_retrieved() {
    let (sender, receiver) = crossbeam::channel::bounded(4);
    let mut provider = CachingAudioProvider::new(receiver, sources());
    assert!(!provider.is_accessible());

    sender
        .send(AudioBuffer {
            data: vec![1, 2],
            num_channels: 2,
        })
        .unwrap();
    sender
        .send(AudioBuffer {
            data: vec![3, 4],
            num_channels: 2,
        })
        .unwrap();

    provider.process_audio_events().unwrap();
    provider.process_audio_events().unwrap();
    provider.process_audio_events().unwrap();

    let audio = provider.retrieve_audio_buffer();
    assert_eq!(audio.data, vec![1, 2, 3, 4]);
    assert_eq!(audio.num_channels, 2);

    let empty = provider.retrieve_audio_buffer();
    assert!(empty.data.is_empty());
    assert_eq!(empty.num_channels, 0);

    drop(sender);
    assert!(provider.process_audio_events().is_err());
}

#[test]
fn caching_provider_selects_a_known_source() {
    let (_sender, receiver) = crossbeam::channel::bounded(1);
    let mut provider = CachingAudioProvider::new(receiver, sources());

    // A selection that the device cannot stream is ignored.
    provider
        .connect_to_audio_device(&device("drums", 4), AudioChannelSelection::Mono(7))
        .unwrap();
    assert!(!provider.is_accessible());

    // A device that is not a source is an error.
    assert!(provider
        .connect_to_audio_device(&device("bass", 1), AudioChannelSelection::Mono(0))
        .is_err());
    assert!(!provider.is_accessible());

    provider
        .connect_to_audio_device(&device("drums", 4), AudioChannelSelection::Multi(vec![3, 1]))
        .unwrap();
    assert!(provider.is_accessible());
    assert_eq!(provider.list_audio_devices(), &sources()[..]);
    let connection = provider.connected_audio_device().expect("the source is connected");
    assert_eq!(connection.device, device("drums", 4));
    let mut channels = connection.channels.duplicate().to_vec();
    channels.sort();
    assert_eq!(channels, vec![1, 3]);
}

#[test]
fn ffi_transmitter_serves_its_sources() {
    let mut ffi = FfiAudioTransmitter::new(sources());
    let listed = ffi
        .transmitter_mut()
        .handle_request(AudioRequest::GetDevices)
        .unwrap();
    match listed {
        Some(AudioResponse::Devices(devices)) => assert_eq!(devices, sources()),
        _ => panic!("expected a device list"),
    }
}

#[test]
fn ffi_push_needs_a_connected_source() {
    let mut ffi = FfiAudioTransmitter::new(sources());
    let data = vec![0u32; 8];
    assert_eq!(
        ffi.push(Some("synth"), &data, 4, 2),
        FfiAudioTransmitterResult::NoSourceCurrentlySelected
    );

    ffi.transmitter_mut()
        .handle_request(AudioRequest::Connect {
            device: device("synth", 2),
            channels: AudioChannelSelection::Mono(1),
        })
        .unwrap();
    assert!(ffi.transmitter().is_accessible());

    // Once connected, the host's audio for that source is pushed, cut down
    // to the selected channel; another source's audio is not.
    assert!(ffi.can_push("synth", 4, 2));
    assert_eq!(
        ffi.push(None, &data, 4, 2),
        FfiAudioTransmitterResult::InvalidSourcePointer
    );
    assert_eq!(
        ffi.push(Some("drums"), &data, 4, 2),
        FfiAudioTransmitterResult::OtherSourceSelected
    );
    let interleaved: Vec<u32> = (0..8).collect();
    let buffer = ffi.prepare_push(Some("synth"), &interleaved, 4, 2).unwrap();
    assert_eq!(buffer.num_channels, 1);
    assert_eq!(buffer.data, vec![1, 3, 5, 7]);
    assert_eq!(
        ffi.push(Some("synth"), &interleaved, 4, 2),
        FfiAudioTransmitterResult::AudioPushed
    );
}

#[test]
fn legacy_stream_passes_on_the_selected_source_only() {
    let mut stream = FfiAudioReceiver::new();
    stream.set_sources(vec![
        LegacyDevice {
            name: "a".to_string(),
            channels: 2,
        },
        LegacyDevice {
            name: "b".to_string(),
            channels: 3,
        },
    ]);
    assert_eq!(stream.list_audio_devices().len(), 2);
    let data: Vec<u32> = (1..=6).collect();
    assert!(stream.stream_buffer(Some("b"), &data, 2, 3).is_none());
    assert!(stream.try_fetch_audio().is_err());

    // As written, a selection that the device can stream is refused.
    stream
        .connect_to_audio_device(
            &LegacyDevice {
                name: "b".to_string(),
                channels: 3,
            },
            Legacy::Mono(0),
        )
        .unwrap();
    assert!(stream.stream_buffer(Some("b"), &data, 2, 3).is_none());

    stream
        .connect_to_audio_device(
            &LegacyDevice {
                name: "b".to_string(),
                channels: 3,
            },
            Legacy::Multi(vec![0, 2, 2]),
        )
        .unwrap();
    assert!(stream.can_push(2, 3));
    let buffer = stream.stream_buffer(Some("b"), &data, 2, 3).unwrap();
    assert_eq!(buffer, vec![vec![1, 2], vec![0, 0], vec![3, 4]]);
    assert!(stream.stream_buffer(Some("a"), &data, 2, 3).is_none());
    assert!(stream.stream_buffer(None, &data, 2, 3).is_none());

    stream.push(Some("b"), &data, 2, 3);
    assert_eq!(stream.try_fetch_audio().unwrap(), buffer);
}
