use aud::apps::audio_remote::{split_ports, RemoteAudioProvider};
use aud::channel::LoggedSender;
use aud::audio::interface::{
    AudioBuffer, AudioChannelSelection, AudioDevice, AudioDeviceConnection, AudioInterface,
    AudioProviding,
};
use aud::audio::net::{devices_response, RemoteAudioReceiver, RemoteAudioTransmitter};
use aud::comms::api::{AudioRequest, AudioResponse};
use aud::comms::audio::{AudioPacket, AudioPacketSequence};
use aud::error::AudError;

fn device(name: &str, num_channels: usize) -> AudioDevice {
    AudioDevice {
        name: name.to_owned(),
        num_channels,
    }
}

fn ramp(len: usize) -> Vec<u32> {
    (0..len).map(|x| (x as f32).to_bits()).collect()
}

struct MockProvider {
    devices: Vec<AudioDevice>,
    buffer: Option<AudioBuffer>,
    connected: Option<(String, Vec<usize>)>,
    fail_connect: bool,
    audio_once_connected: bool,
    requested: Option<(AudioDevice, AudioChannelSelection)>,
}

impl MockProvider {
    fn new(devices: Vec<AudioDevice>) -> Self {
        MockProvider {
            devices,
            buffer: None,
            connected: None,
            fail_connect: false,
            audio_once_connected: false,
            requested: None,
        }
    }
}

impl AudioInterface for MockProvider {
    fn accessible(&self) -> bool {
        self.connected.is_some()
    }

    fn audio_devices(&self) -> Vec<AudioDevice> {
        self.devices.clone()
    }

    fn requested_connection(&self) -> Option<(AudioDevice, AudioChannelSelection)> {
        self.requested
            .as_ref()
            .map(|(device, channels)| (device.clone(), channels.duplicate()))
    }

    fn is_accessible(&self) -> bool {
        self.connected.is_some()
    }

    fn list_audio_devices(&self) -> &[AudioDevice] {
        &self.devices
    }

    fn connect_to_audio_device(
        &mut self,
        audio_device: &AudioDevice,
        channel_selection: AudioChannelSelection,
    ) -> Result<(), AudError> {
        self.requested = Some((audio_device.clone(), channel_selection.duplicate()));
        if self.fail_connect {
            return Err(AudError::new("no such device"));
        }
        self.connected = Some((audio_device.name.clone(), channel_selection.to_vec()));
        Ok(())
    }

    fn connected_audio_device(&self) -> Option<&AudioDeviceConnection> {
        None
    }

    fn process_audio_events(&mut self) -> Result<(), AudError> {
        Ok(())
    }
}

impl AudioProviding for MockProvider {
    fn available_audio(&self) -> Option<AudioBuffer> {
        if self.audio_once_connected && self.connected.is_none() {
            None
        } else {
            self.buffer.clone()
        }
    }

    fn retrieve_audio_buffer(&mut self) -> AudioBuffer {
        if self.audio_once_connected && self.connected.is_none() {
            return AudioBuffer {
                data: vec![],
                num_channels: 0,
            };
        }
        self.buffer.take().unwrap_or(AudioBuffer {
            data: vec![],
            num_channels: 0,
        })
    }
}

#[test]
fn receiver_can_fetch_audio_buffers() {
    let num_packets = 6;
    let expected = AudioBuffer {
        data: ramp(AudioPacketSequence::NUM_SAMPLES_PER_PACKET * num_packets),
        num_channels: 2,
    };
    let packets = AudioPacketSequence::from_buffer(0, &expected).into_packets();
    assert_eq!(packets.len(), num_packets);

    let mut receiver = RemoteAudioReceiver::new();
    assert!(!receiver.is_accessible());
    assert!(receiver.take_audio().is_none());

    for packet in packets.into_iter().rev() {
        receiver.handle_response(AudioResponse::Audio(packet));
    }
    assert!(receiver.is_accessible());

    // The packets before the last ones come out in order, joined into one
    // buffer.
    let first = receiver.take_audio().expect("audio should be ready");
    assert_eq!(first.num_channels, 2);
    assert_eq!(
        first.data.len(),
        AudioPacketSequence::NUM_SAMPLES_PER_PACKET * (num_packets - AudioPacketSequence::NUM_BUFFER_PACKETS)
    );
    assert_eq!(first.data[..], expected.data[..first.data.len()]);

    // The last packets are kept back in case a late packet still arrives.
    assert!(receiver.take_audio().is_none());
}

#[test]
fn transmitter_can_send_device_list() {
    let devices = vec![device("a", 1), device("b", 2), device("c", 3)];
    let mut transmitter = RemoteAudioTransmitter::new(MockProvider::new(devices.clone()));

    let response = transmitter.handle_request(AudioRequest::GetDevices).unwrap();
    match response {
        Some(AudioResponse::Devices(listed)) => assert_eq!(listed, devices),
        _ => panic!("expected a device list"),
    }

    let mut receiver = RemoteAudioReceiver::new();
    receiver.handle_response(devices_response(transmitter.list_audio_devices()));
    assert!(receiver.is_accessible());
    assert_eq!(receiver.list_audio_devices(), &devices[..]);
}

#[test]
fn transmitter_can_send_audio() {
    let mut provider = MockProvider::new(vec![device("in", 2)]);
    provider.buffer = Some(AudioBuffer {
        data: ramp(AudioPacketSequence::NUM_SAMPLES_PER_PACKET * 2 + 10),
        num_channels: 2,
    });
    let mut transmitter = RemoteAudioTransmitter::new(provider);

    let packets = transmitter.next_packets().unwrap();
    assert_eq!(packets.len(), 3);
    for (i, packet) in packets.iter().enumerate() {
        assert_eq!(packet.header.index, i as u64);
        assert!(packet.is_valid());
        assert_eq!(packet.buffer.num_channels, 2);
    }
    assert_eq!(packets[2].buffer.data.len(), 10);

    // The numbering carries on with the next buffer.
    let more = transmitter
        .packets_for(&AudioBuffer {
            data: ramp(4),
            num_channels: 2,
        })
        .unwrap();
    assert_eq!(more.len(), 1);
    assert_eq!(more[0].header.index, 3);

    // Nothing is held now: no packet goes out.
    assert!(transmitter.next_packets().unwrap().is_empty());
}

#[test]
fn transmitter_connects_its_source_on_request() {
    let mut transmitter = RemoteAudioTransmitter::new(MockProvider::new(vec![device("in", 4)]));
    assert!(!transmitter.is_accessible());
    let response = transmitter
        .handle_request(AudioRequest::Connect {
            device: device("in", 4),
            channels: AudioChannelSelection::Multi(vec![0, 2]),
        })
        .unwrap();
    assert!(response.is_none());
    assert!(transmitter.is_accessible());
}

#[test]
fn transmitter_reports_a_failed_connection() {
    let mut provider = MockProvider::new(vec![]);
    provider.fail_connect = true;
    let mut transmitter = RemoteAudioTransmitter::new(provider);
    let result = transmitter.handle_request(AudioRequest::Connect {
        device: device("gone", 1),
        channels: AudioChannelSelection::Mono(0),
    });
    assert!(result.is_err());
}

#[test]
fn receiver_asks_to_connect_and_waits_for_an_answer() {
    let mut receiver = RemoteAudioReceiver::new();
    receiver.handle_response(AudioResponse::Devices(vec![device("x", 2)]));
    assert!(receiver.is_accessible());

    let request = receiver.connect_to_audio_device(&device("x", 2), &AudioChannelSelection::Mono(1));
    assert!(!receiver.is_accessible());
    match request {
        AudioRequest::Connect { device, channels } => {
            assert_eq!(device.name, "x");
            assert_eq!(channels.to_vec(), vec![1]);
        }
        AudioRequest::GetDevices => panic!("expected a connection request"),
    }
}

#[test]
fn receiver_drops_invalid_packets() {
    let mut receiver = RemoteAudioReceiver::new();
    for index in 0..6 {
        let mut packet = AudioPacket::new(index, &ramp(8), 1);
        if index == 0 {
            packet.header.checksum ^= 1;
        }
        receiver.handle_response(AudioResponse::Audio(packet));
    }
    let buffer = receiver.take_audio().expect("audio should be ready");
    assert_eq!(buffer.data.len(), 8);
    assert_eq!(buffer.data, ramp(8));
}

#[test]
fn a_remote_provider_plays_what_a_transmitter_sends() {
    let (request_tx, request_rx) = crossbeam::channel::bounded(8);
    let (response_tx, response_rx) = crossbeam::channel::bounded(128);
    let mut responses = LoggedSender::new(response_tx);

    let samples = ramp(AudioPacketSequence::NUM_SAMPLES_PER_PACKET * 6);
    let mut source = MockProvider::new(vec![device("in", 2)]);
    source.buffer = Some(AudioBuffer {
        data: samples.clone(),
        num_channels: 2,
    });
    source.audio_once_connected = true;

    let mut remote = RemoteAudioProvider::new(request_tx, response_rx);
    let mut transmitter = RemoteAudioTransmitter::new(source);

    // Listing the devices asks the transmitter for them.
    assert!(remote.list_audio_devices().is_empty());
    transmitter
        .process_audio_events(&request_rx, &mut responses, 8)
        .unwrap();
    remote.process_audio_events().unwrap();
    assert!(remote.is_accessible());
    assert_eq!(remote.list_audio_devices(), &[device("in", 2)][..]);

    // Connecting waits for the transmitter to answer.
    remote
        .connect_to_audio_device(&device("in", 2), AudioChannelSelection::Mono(0))
        .unwrap();
    assert!(!remote.is_accessible());
    transmitter
        .process_socket_requests(&request_rx, &mut responses, 8)
        .unwrap();
    assert!(transmitter.is_accessible());

    transmitter.try_send_audio(&mut responses).unwrap();
    remote.process_audio_events().unwrap();
    assert!(remote.is_accessible());

    let audio = remote.retrieve_audio_buffer();
    assert_eq!(audio.num_channels, 2);
    assert_eq!(
        audio.data.len(),
        AudioPacketSequence::NUM_SAMPLES_PER_PACKET * (6 - AudioPacketSequence::NUM_BUFFER_PACKETS)
    );
    assert_eq!(audio.data[..], samples[..audio.data.len()]);
    assert!(remote.retrieve_audio_buffer().data.is_empty());
}

#[test]
fn receiver_can_request_devices() {
    let expected_device_list = vec![device("a", 1), device("b", 2), device("c", 3)];

    let (request_tx, request_rx) = crossbeam::channel::bounded(8);
    let (response_tx, response_rx) = crossbeam::channel::bounded(16);
    let mut audio_recv = RemoteAudioProvider::new(request_tx, response_rx);

    assert!(audio_recv.list_audio_devices().is_empty());
    audio_recv.process_audio_events().unwrap();
    assert!(!audio_recv.is_accessible());

    let mut num_requests = 0;
    while let Ok(request) = request_rx.try_recv() {
        assert!(matches!(request, AudioRequest::GetDevices));
        num_requests += 1;
    }
    assert_eq!(num_requests, 1);

    response_tx
        .send(AudioResponse::Devices(expected_device_list.clone()))
        .unwrap();
    audio_recv.process_audio_events().unwrap();
    assert!(audio_recv.is_accessible());
    assert_eq!(audio_recv.list_audio_devices(), &expected_device_list[..]);
}

#[test]
fn a_packet_without_channels_clears_packets_of_another_count() {
    let mut receiver = RemoteAudioReceiver::new();
    for index in 0..6 {
        receiver.handle_response(AudioResponse::Audio(AudioPacket::new(index, &ramp(8), 2)));
    }
    receiver.handle_response(AudioResponse::Audio(AudioPacket::new(6, &[], 0)));
    assert!(receiver.take_audio().is_none());
    // Packets without channels hold no frame to hand out.
    for index in 0..6 {
        receiver.handle_response(AudioResponse::Audio(AudioPacket::new(index, &[], 0)));
    }
    assert!(receiver.take_audio().is_none());
}

#[test]
fn ports_are_split_at_the_first_comma() {
    assert_eq!(
        split_ports("8000,8001"),
        Some(("8000".to_string(), "8001".to_string()))
    );
    assert_eq!(
        split_ports("1,2,3"),
        Some(("1".to_string(), "2,3".to_string()))
    );
    assert_eq!(split_ports("8000"), None);
}
