use aud::audio::host::{
    dequeue_audio_buffer, dequeue_received_audio, enqueue_audio_buffer, gather_audio, preferred_buffer_size,
};
use aud::audio::interface::{AudioBuffer, AudioChannelSelection};

fn assign_channel_index_to_each_sample(buffer: &mut AudioBuffer) {
    for frame in buffer.data.chunks_mut(buffer.num_channels as usize) {
        for (chan, value) in frame.iter_mut().enumerate() {
            *value = (chan as f32).to_bits();
        }
    }
}

#[test]
fn test_can_assign_channel_index_to_each_sample() {
    for (num_frames, num_channels) in [(128, 4), (32, 2), (512, 16)] {
        let mut buffer = AudioBuffer::with_frames(num_frames as u32, num_channels as u32);
        assign_channel_index_to_each_sample(&mut buffer);
        let expected_data: Vec<u32> = (0..num_channels as u32)
            .cycle()
            .take(num_channels as usize * num_frames as usize)
            .map(|i| (i as f32).to_bits())
            .collect();
        assert_eq!(buffer.data, expected_data);
    }
}

#[test]
fn can_enqueue_audio_when_a_mono_channel_is_selected() {
    const MAX_NUM_CHANNELS: usize = 10;
    for num_channels in 1..MAX_NUM_CHANNELS {
        for selected_channel in 0..num_channels {
            let num_frames = 128;
            let channels = AudioChannelSelection::Mono(selected_channel).to_vec();
            let mut buffer = AudioBuffer::with_frames(num_frames, num_channels as u32);
            assign_channel_index_to_each_sample(&mut buffer);

            let messages = vec![enqueue_audio_buffer(&buffer.data, num_channels, &channels)];
            assert_eq!(messages.len(), 1);
            assert_eq!(messages[0].num_channels, 1);
            assert!(messages[0]
                .data
                .iter()
                .all(|sample| f32::from_bits(*sample) == selected_channel as f32));
        }
    }
}

#[test]
fn can_enqueue_audio_when_multiple_channels_are_selected() {
    const MAX_NUM_CHANNELS: usize = 10;
    for num_channels in 2..MAX_NUM_CHANNELS {
        for start in 0..num_channels - 1 {
            for end in start + 1..num_channels {
                let num_frames = 128;
                let channels = AudioChannelSelection::Range(start..end).to_vec();

                let mut buffer = AudioBuffer::with_frames(num_frames, num_channels as u32);
                assign_channel_index_to_each_sample(&mut buffer);

                let messages = vec![enqueue_audio_buffer(&buffer.data, num_channels, &channels)];
                assert_eq!(messages.len(), 1);
                assert_eq!(messages[0].num_channels, channels.len() as u32);

                for (idx, sample) in messages[0].data.iter().enumerate() {
                    let channel_idx = channels[idx % channels.len()];
                    let expected_value = channel_idx as f32;
                    assert_eq!(f32::from_bits(*sample), expected_value, "Sample index: {}", idx);
                }
            }
        }
    }
}

#[test]
fn can_dequeue_audio_into_an_output_buffer_for_a_mono_channel() {
    const MAX_NUM_CHANNELS: usize = 10;
    for num_channels in 1..MAX_NUM_CHANNELS {
        for selected_channel in 0..num_channels {
            let num_frames = 128;
            let channels = AudioChannelSelection::Mono(selected_channel).to_vec();

            let mut buffer_sent = AudioBuffer::with_frames(num_frames, num_channels as u32);
            assign_channel_index_to_each_sample(&mut buffer_sent);
            let received = AudioBuffer::from_buffers(&[buffer_sent.duplicate()]);

            let mut output_buffer = vec![0.0f32.to_bits(); num_frames as usize * num_channels];
            dequeue_audio_buffer(&mut output_buffer, num_channels, &channels, &received);

            for (frame_idx, frame) in output_buffer.chunks(num_channels).enumerate() {
                for (chan_idx, sample) in frame.iter().enumerate() {
                    if channels.contains(&chan_idx) {
                        assert_eq!(
                            f32::from_bits(*sample),
                            chan_idx as f32,
                            "Frame {}, Channel {}",
                            frame_idx,
                            chan_idx
                        );
                    } else {
                        assert_eq!(f32::from_bits(*sample), 0.0, "Frame {}, Channel {}", frame_idx, chan_idx);
                    }
                }
            }
        }
    }
}

#[test]
fn can_dequeue_audio_into_an_output_buffer_for_multiple_channels() {
    const MAX_NUM_CHANNELS: usize = 10;
    for num_channels in 2..MAX_NUM_CHANNELS {
        for start in 0..num_channels - 1 {
            for end in start + 1..num_channels {
                let num_frames = 128;
                let channels = AudioChannelSelection::Range(start..end).to_vec();

                let mut buffer_sent = AudioBuffer::with_frames(num_frames, num_channels as u32);
                assign_channel_index_to_each_sample(&mut buffer_sent);
                let received = AudioBuffer::from_buffers(&[buffer_sent.duplicate()]);

                let mut output_buffer = vec![0.0f32.to_bits(); num_frames as usize * num_channels];
                dequeue_audio_buffer(&mut output_buffer, num_channels, &channels, &received);

                for (frame_idx, frame) in output_buffer.chunks(num_channels).enumerate() {
                    for (chan_idx, sample) in frame.iter().enumerate() {
                        if channels.contains(&chan_idx) {
                            assert_eq!(
                                f32::from_bits(*sample),
                                chan_idx as f32,
                                "Frame {}, Channel {}",
                                frame_idx,
                                chan_idx
                            );
                        } else {
                            assert_eq!(
                                f32::from_bits(*sample),
                                0.0,
                                "Frame {}, Channel {}",
                                frame_idx,
                                chan_idx
                            );
                        }
                    }
                }
            }
        }
    }
}

#[test]
fn dequeue_fills_silence_after_the_buffer_and_spreads_a_mono_buffer() {
    let mono = AudioBuffer { data: vec![7, 8], num_channels: 1 };
    let mut out = vec![1u32; 3 * 3 + 1];
    dequeue_audio_buffer(&mut out, 3, &[0, 2], &mono);
    assert_eq!(out, vec![7, 1, 7, 8, 1, 8, 0, 1, 0, 0]);

    let empty = AudioBuffer::new();
    let mut untouched = vec![5u32; 4];
    dequeue_audio_buffer(&mut untouched, 2, &[0, 1], &empty);
    assert_eq!(untouched, vec![5; 4]);

    let stereo = AudioBuffer { data: vec![1, 2, 3, 4], num_channels: 2 };
    let mut wide = vec![0u32; 8];
    dequeue_audio_buffer(&mut wide, 4, &[0, 1, 2, 3], &stereo);
    assert_eq!(wide, vec![1, 2, 2, 2, 3, 4, 4, 4]);
}

#[test]
fn enqueue_drops_a_partial_frame() {
    let input = vec![10, 11, 12, 20, 21, 22, 30];
    let out = enqueue_audio_buffer(&input, 3, &[2, 0]);
    assert_eq!(out.num_channels, 2);
    assert_eq!(out.data, vec![12, 10, 22, 20]);
}

#[test]
fn buffers_join_and_split_into_channels() {
    let a = AudioBuffer { data: vec![1, 2, 3, 4], num_channels: 2 };
    let b = AudioBuffer { data: vec![5, 6], num_channels: 2 };
    let joined = AudioBuffer::from_buffers(&[a, b]);
    assert_eq!(joined.data, vec![1, 2, 3, 4, 5, 6]);
    assert_eq!(joined.num_channels, 2);
    assert_eq!(joined.num_frames(), 3);
    let channels = joined.deinterleave();
    assert_eq!(channels, vec![vec![1, 3, 5], vec![2, 4, 6]]);
    let back = AudioBuffer::from_deinterleaved(&channels);
    assert_eq!(back.data, joined.data);
    assert_eq!(back.num_channels, 2);
    assert_eq!(AudioBuffer::from_buffers(&[]).num_channels, 0);
}

#[test]
fn accumulating_appends_or_replaces() {
    let mut buffer = AudioBuffer { data: vec![1, 2], num_channels: 1 };
    buffer.accumulate(AudioBuffer { data: vec![3], num_channels: 1 });
    assert_eq!(buffer.data, vec![1, 2, 3]);
    buffer.accumulate(AudioBuffer { data: vec![9, 9], num_channels: 2 });
    assert_eq!(buffer.data, vec![9, 9]);
    assert_eq!(buffer.num_channels, 2);
}

#[test]
fn streams_prefer_512_then_1024_then_256_frames() {
    assert_eq!(preferred_buffer_size(None), None);
    assert_eq!(preferred_buffer_size(Some((64, 8192))), Some(512));
    assert_eq!(preferred_buffer_size(Some((600, 2048))), Some(1024));
    assert_eq!(preferred_buffer_size(Some((100, 512))), Some(256));
    assert_eq!(preferred_buffer_size(Some((2048, 4096))), None);
    assert_eq!(preferred_buffer_size(Some((512, 512))), None);
}

#[test]
fn count_is_the_number_of_distinct_channels() {
    assert_eq!(AudioChannelSelection::Multi(vec![1, 1, 2]).count(), 2);
    assert_eq!(AudioChannelSelection::Range(5..3).count(), 0);
    assert_eq!(AudioChannelSelection::Range(5..3).to_vec().len(), 0);
    assert_eq!(AudioChannelSelection::Range(2..6).count(), 4);
    assert_eq!(AudioChannelSelection::Mono(9).count(), 1);
}

#[test]
fn gathering_stops_once_enough_frames_came() {
    let (sender, receiver) = crossbeam::channel::bounded(8);
    for k in 0..4u32 {
        sender
            .send(AudioBuffer {
                data: vec![k; 4],
                num_channels: 2,
            })
            .unwrap();
    }
    // Two frames per buffer: three frames need two buffers.
    let gathered = gather_audio(&receiver, 3, 8);
    assert_eq!(gathered.buffers.len(), 2);
    assert_eq!(gathered.num_frames, 4);
    // The rest is taken until the channel is empty.
    let rest = gather_audio(&receiver, 100, 8);
    assert_eq!(rest.buffers.len(), 2);
    assert_eq!(rest.buffers[1].data, vec![3; 4]);
    assert!(gather_audio(&receiver, 100, 8).buffers.is_empty());
}

#[test]
fn received_audio_fills_the_selected_output_channels() {
    let (sender, receiver) = crossbeam::channel::bounded(8);
    sender
        .send(AudioBuffer {
            data: vec![1, 2],
            num_channels: 1,
        })
        .unwrap();
    let mut output = vec![9u32; 4];
    dequeue_received_audio(&mut output, 2, &[0], &receiver, 8);
    assert_eq!(output, vec![1, 9, 2, 9]);
}
