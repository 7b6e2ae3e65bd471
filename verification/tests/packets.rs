use aud::audio::interface::AudioBuffer;
use aud::comms::api;
use aud::comms::audio::{AudioPacket, AudioPacketSequence, AudioPacketSequenceBuilder};

fn bits(x: f32) -> u32 {
    x.to_bits()
}

fn samples(value: f32, len: usize) -> Vec<u32> {
    vec![bits(value); len]
}

#[test]
fn audio_packet_sequence_will_split_a_buffer_into_correct_number_of_packets() {
    const NUM_EXPECTED_PACKETS: u32 = 16;
    const NUM_SAMPLES: u32 = AudioPacketSequence::NUM_SAMPLES_PER_PACKET as u32 * NUM_EXPECTED_PACKETS;
    let packets =
        AudioPacketSequence::from_buffer(0, &AudioBuffer::with_length(NUM_SAMPLES, 1)).into_packets();

    assert_eq!(packets.len(), NUM_EXPECTED_PACKETS as usize);
}

#[test]
fn audio_packet_sequence_will_return_a_buffer_per_packet() {
    let num_channels = 1;
    let num_fragments_per_buffer = 8;
    let num_samples = AudioPacketSequence::NUM_SAMPLES_PER_PACKET * num_fragments_per_buffer;

    let expected_buffer = AudioBuffer {
        data: (0..num_samples * num_channels).map(|x| bits(x as f32)).collect(),
        num_channels: num_channels as u32,
    };

    let packets = AudioPacketSequence::from_buffer(0, &expected_buffer).into_packets();
    let buffers = AudioPacketSequence::with_packets(packets).consume();
    assert_eq!(buffers.len(), num_fragments_per_buffer);

    let combined_buffer = AudioBuffer::from_buffers(&buffers);
    assert_eq!(combined_buffer.data.len(), expected_buffer.data.len());

    for (returned, expected) in combined_buffer.data.iter().zip(expected_buffer.data.iter()) {
        assert_eq!(f32::from_bits(*returned), f32::from_bits(*expected));
    }
}

#[test]
fn audio_packet_sequence_can_reorder_packets() {
    const NUM_CHANNELS: usize = 16;

    let packet1 = AudioPacket::new(1, &samples(0.0, NUM_CHANNELS), 1);
    let packet2 = AudioPacket::new(2, &samples(1.0, NUM_CHANNELS), 1);
    let packet3 = AudioPacket::new(3, &samples(2.0, NUM_CHANNELS), 1);

    let buffer = AudioPacketSequence::with_packets(vec![packet1, packet3, packet2]).consume();

    assert_eq!(buffer.len(), 3);
    assert_eq!(f32::from_bits(buffer[0].data[0]), 0.0);
    assert_eq!(f32::from_bits(buffer[1].data[0]), 1.0);
    assert_eq!(f32::from_bits(buffer[2].data[0]), 2.0);
}

#[test]
fn audio_packet_sequence_handles_invalid_packets() {
    let packet1 = AudioPacket::new(1, &samples(-1.0, 4), 1);
    let packet2 = AudioPacket::new(1, &samples(-1.0, 4), 1);
    let mut packet3 = AudioPacket::new(2, &samples(1.0, 4), 1);
    packet3.header.checksum = packet3.header.checksum.wrapping_add(1);

    let buffers = AudioPacketSequence::with_packets(vec![packet1, packet2, packet3]).consume();

    assert_eq!(buffers.len(), 2);
    assert!(buffers.iter().all(|b| b.data.iter().all(|x| f32::from_bits(*x) == -1.)));
}

#[test]
fn audio_packet_sequence_can_reoder_packets() {
    let mut seq = api::AudioPacketSequence::default();

    let packet1 = api::AudioPacket::new(1, vec![samples(0.0, 16)]);
    let packet3 = api::AudioPacket::new(3, vec![samples(1.0, 16)]);
    let packet2 = api::AudioPacket::new(2, vec![samples(2.0, 16)]);

    seq.push(packet1);
    seq.push(packet3);
    seq.push(packet2);

    let result = seq.drain();
    assert_eq!(f32::from_bits(result[0][0]), 0.0);
    assert_eq!(f32::from_bits(result[1][0]), 2.0);
    assert_eq!(f32::from_bits(result[2][0]), 1.0);
}

#[test]
fn audio_packet_sequence_can_fallback_to_last_valid_packet_if_checksum_fails() {
    let mut seq = api::AudioPacketSequence::default();

    let packet1 = api::AudioPacket::new(1, vec![samples(-1.0, 16)]);
    let mut packet2 = api::AudioPacket::new(2, vec![samples(1.0, 16)]);
    let packet3 = api::AudioPacket::new(3, vec![samples(2.0, 16)]);
    let packet4 = api::AudioPacket::new(4, vec![samples(3.0, 16)]);
    packet2.metadata.checksum += 1; // make it invalid

    seq.push(packet1);
    seq.push(packet2);
    seq.push(packet3);
    seq.push(packet4);

    let result = seq.drain();
    assert_eq!(result.len(), 4);
    assert_eq!(f32::from_bits(result[0][0]), -1.0);
    assert_eq!(f32::from_bits(result[1][0]), -1.0);
    assert_eq!(f32::from_bits(result[2][0]), 2.0);
    assert_eq!(f32::from_bits(result[3][0]), 3.0);
}

#[test]
fn legacy_sequence_replaces_a_packet_of_the_same_number() {
    let mut seq = api::AudioPacketSequence::default();
    seq.push(api::AudioPacket::new(5, vec![samples(1.0, 2)]));
    seq.push(api::AudioPacket::new(5, vec![samples(4.0, 2)]));
    let result = seq.drain();
    assert_eq!(result.len(), 1);
    assert_eq!(f32::from_bits(result[0][0]), 4.0);
    assert!(seq.drain().is_empty());
}

#[test]
fn legacy_sequence_drops_an_invalid_first_packet() {
    let mut seq = api::AudioPacketSequence::default();
    let mut packet = api::AudioPacket::new(1, vec![samples(1.0, 2)]);
    packet.metadata.checksum = packet.metadata.checksum.wrapping_add(1);
    assert!(!packet.is_valid());
    seq.push(packet);
    assert!(seq.drain().is_empty());
}

#[test]
fn checksum_covers_the_samples_and_the_channel_count() {
    let a = AudioPacket::new(0, &[1, 2, 3], 1);
    let b = AudioPacket::new(0, &[1, 2, 4], 1);
    let c = AudioPacket::new(0, &[1, 2, 3], 2);
    assert!(a.is_valid() && b.is_valid() && c.is_valid());
    assert_ne!(a.header.checksum, b.header.checksum);
    assert_ne!(a.header.checksum, c.header.checksum);
    let expected = crc32fast::hash(&1u32.to_le_bytes())
        .wrapping_add(crc32fast::hash(&[1, 0, 0, 0, 2, 0, 0, 0, 3, 0, 0, 0]));
    assert_eq!(a.header.checksum, expected);
}

#[test]
fn pushing_keeps_packets_in_order_and_drops_bad_ones() {
    let mut seq = AudioPacketSequence::default();
    seq.push(AudioPacket::new(3, &[3], 1));
    seq.push(AudioPacket::new(1, &[1], 1));
    let mut bad = AudioPacket::new(2, &[2], 1);
    bad.header.checksum = bad.header.checksum.wrapping_add(1);
    seq.push(bad);
    seq.push(AudioPacket::new(2, &[2], 1));
    assert_eq!(seq.num_packets(), 3);
    assert_eq!(seq.num_channels(), 1);
    let out: Vec<u32> = seq.consume().iter().map(|b| b.data[0]).collect();
    assert_eq!(out, vec![1, 2, 3]);
    assert_eq!(seq.num_packets(), 0);
    assert_eq!(seq.num_channels(), 0);
}

#[test]
fn a_new_channel_count_empties_the_sequence() {
    let mut seq = AudioPacketSequence::default();
    seq.push(AudioPacket::new(0, &[1, 2], 2));
    seq.push(AudioPacket::new(1, &[1, 2], 2));
    seq.push(AudioPacket::new(2, &[1, 2, 3], 3));
    assert_eq!(seq.num_packets(), 0);
}

#[test]
fn extract_keeps_back_the_last_packets() {
    let buffer = AudioBuffer { data: (0..6 * 256).collect(), num_channels: 2 };
    let mut seq = AudioPacketSequence::from_buffer(10, &buffer);
    assert_eq!(seq.num_packets(), 6);
    assert_eq!(seq.num_available_frames(), 2 * 128);
    assert!(seq.has_available_frames());
    let first = seq.extract();
    assert_eq!(first.len(), 2);
    let frames: usize = first.iter().map(|b| b.data.len() / 2).sum();
    assert_eq!(frames, 2 * 128);
    assert_eq!(first[0].data[0], 0);
    assert_eq!(first[1].data[255], 2 * 256 - 1);
    assert_eq!(seq.num_packets(), 4);
    assert_eq!(seq.num_available_frames(), 0);
    assert!(!seq.has_available_frames());
    let rest = seq.extract();
    assert_eq!(rest.len(), 0);
    assert_eq!(seq.num_packets(), 4);
    assert_eq!(seq.consume().len(), 4);
}

#[test]
fn the_last_packet_holds_the_remaining_samples() {
    let buffer = AudioBuffer { data: (0..600).collect(), num_channels: 1 };
    let packets = AudioPacketSequence::from_buffer(7, &buffer).into_packets();
    assert_eq!(packets.len(), 3);
    assert_eq!(packets[0].header.index, 7);
    assert_eq!(packets[2].header.index, 9);
    assert_eq!(packets[2].buffer.data.len(), 600 - 512);
    assert_eq!(packets[2].buffer.data[0], 512);
    assert!(packets.iter().all(|p| p.is_valid()));
}

#[test]
fn with_packets_keeps_the_first_channel_count_and_equal_indices_in_order() {
    let packets = vec![
        AudioPacket::new(2, &[20], 1),
        AudioPacket::new(1, &[10, 11], 2),
        AudioPacket::new(2, &[21], 1),
        AudioPacket::new(1, &[12], 1),
    ];
    let out: Vec<u32> = AudioPacketSequence::with_packets(packets).consume().iter().map(|b| b.data[0]).collect();
    assert_eq!(out, vec![12, 20, 21]);
    assert_eq!(AudioPacketSequence::with_packets(vec![]).num_packets(), 0);
}

#[test]
fn the_builder_numbers_packets_across_buffers() {
    let mut builder = AudioPacketSequenceBuilder::default();
    let a = builder.from_buffer(&AudioBuffer { data: vec![0; 300], num_channels: 1 }).into_packets();
    let b = builder.from_buffer(&AudioBuffer { data: vec![0; 10], num_channels: 1 }).into_packets();
    assert_eq!(a.iter().map(|p| p.header.index).collect::<Vec<_>>(), vec![0, 1]);
    assert_eq!(b.iter().map(|p| p.header.index).collect::<Vec<_>>(), vec![2]);
    assert_eq!(builder.next_index(), 3);
}

#[test]
fn packets_pushed_in_any_order_give_back_the_buffer() {
    let buffer = AudioBuffer {
        data: (0..(AudioPacketSequence::NUM_SAMPLES_PER_PACKET * 5 + 7) as u32).collect(),
        num_channels: 1,
    };
    let packets = AudioPacketSequence::from_buffer(40, &buffer).into_packets();
    assert_eq!(packets.len(), 6);
    let mut sequence = AudioPacketSequence::default();
    for i in [3usize, 0, 5, 1, 4, 2] {
        sequence.push(AudioPacket {
            header: packets[i].header,
            buffer: packets[i].buffer.clone(),
        });
    }
    let joined = AudioBuffer::from_buffers(&sequence.consume());
    assert_eq!(joined.data, buffer.data);
}

#[test]
fn a_packet_of_a_held_index_replaces_it() {
    let mut seq = AudioPacketSequence::default();
    seq.push(AudioPacket::new(0, &[1, 2], 2));
    seq.push(AudioPacket::new(1, &[3, 4], 2));
    seq.push(AudioPacket::new(1, &[5, 6], 2));
    assert_eq!(seq.num_packets(), 2);
    let packets = seq.into_packets();
    assert_eq!(packets[0].buffer.data, vec![1, 2]);
    assert_eq!(packets[1].header.index, 1);
    assert_eq!(packets[1].buffer.data, vec![5, 6]);
}
