use aud::audio::interface::AudioDevice;
use aud::streams::audio as legacy;
use aud::audio::interface::AudioChannelSelection as Sel;
use aud::streams::audio::AudioChannelSelection as Legacy;

#[test]
fn interface_mono_channels_can_be_selected() {
    let dev = AudioDevice { name: String::default(), num_channels: 1 };
    assert!(dev.supports_channels(&Sel::Mono(0)));

    for i in 1..100 {
        assert!(!dev.supports_channels(&Sel::Mono(i)));
    }
}

#[test]
fn range_of_channels_can_be_selected() {
    const NUM_CHANNELS: usize = 8;
    let dev = AudioDevice { name: String::default(), num_channels: NUM_CHANNELS };

    assert!(dev.supports_channels(&Sel::Range(0..NUM_CHANNELS)));
    assert!(!dev.supports_channels(&Sel::Range(NUM_CHANNELS..NUM_CHANNELS * 2)));
}

#[test]
fn multiple_channels_can_be_selected() {
    const NUM_CHANNELS: usize = 8;
    let dev = AudioDevice { name: String::default(), num_channels: NUM_CHANNELS };

    assert!(dev.supports_channels(&Sel::Range(0..NUM_CHANNELS)));
    assert!(!dev.supports_channels(&Sel::Range(NUM_CHANNELS..NUM_CHANNELS * 2)));
}

#[test]
fn mod_mono_channels_can_be_selected() {
    let dev = legacy::AudioDevice { name: String::default(), channels: 1 };
    assert!(Legacy::Mono(0).is_valid_for_device(&dev));

    for i in 1..100 {
        assert!(!Legacy::Mono(i).is_valid_for_device(&dev));
    }
}

#[test]
fn channel_selection_cannot_exceed_device_channel_count() {
    const NUM_CHANNELS: usize = 8;
    let dev = legacy::AudioDevice { name: String::default(), channels: NUM_CHANNELS };

    for i in 0..NUM_CHANNELS {
        assert!(Legacy::Mono(i).is_valid_for_device(&dev));
        assert!(Legacy::Stereo((i, i)).is_valid_for_device(&dev));
    }

    for i in NUM_CHANNELS..NUM_CHANNELS * 10 {
        assert!(!Legacy::Mono(i).is_valid_for_device(&dev));
        assert!(!Legacy::Stereo((i, i)).is_valid_for_device(&dev));
    }

    assert!(Legacy::Range(0..NUM_CHANNELS).is_valid_for_device(&dev));
    assert!(!Legacy::Range(NUM_CHANNELS..NUM_CHANNELS * 2).is_valid_for_device(&dev));
}

#[test]
fn a_selection_fits_when_its_channels_exist() {
    let dev = AudioDevice { name: "d".to_string(), num_channels: 4 };
    assert!(dev.supports_channels(&Sel::Multi(vec![0, 3, 1])));
    assert!(dev.supports_channels(&Sel::Multi(vec![0, 1, 2, 3])));
    assert!(!dev.supports_channels(&Sel::Multi(vec![0, 4])));
    assert!(dev.supports_channels(&Sel::Range(1..3)));
    assert!(!dev.supports_channels(&Sel::Range(0..5)));
    assert!(!dev.supports_channels(&Sel::Range(3..3)));
    assert!(dev.supports_channels(&Sel::Range(0..4)));
    let eight = AudioDevice { name: "e".to_string(), num_channels: 8 };
    assert!(eight.supports_channels(&Sel::Range(1..3)));
    let two = AudioDevice { name: "t".to_string(), num_channels: 2 };
    assert_eq!(
        two.supports_channels(&Sel::Multi(vec![0, 1])),
        two.supports_channels(&Sel::Range(0..2))
    );
}

#[test]
fn channel_lists_name_each_channel_once() {
    assert_eq!(Sel::Multi(vec![3, 1, 3, 0, 1]).to_vec(), vec![3, 1, 0]);
    assert_eq!(Sel::Multi(vec![3, 1, 3, 0, 1]).count(), 3);
    assert_eq!(Sel::Range(2..5).to_vec(), vec![2, 3, 4]);
    assert_eq!(Sel::Range(2..5).count(), 3);
    assert_eq!(Sel::Range(5..2).to_vec(), Vec::<usize>::new());
    assert_eq!(Sel::Mono(7).to_vec(), vec![7]);
    assert_eq!(Sel::Mono(7).count(), 1);
}

#[test]
fn legacy_selections_list_their_channels_in_order() {
    assert_eq!(Legacy::Stereo((4, 1)).to_vec(), vec![4, 1]);
    assert_eq!(Legacy::Multi(vec![2, 2]).to_vec(), vec![2, 2]);
    assert_eq!(Legacy::Range(0..3).to_vec(), vec![0, 1, 2]);
    let dev = legacy::AudioDevice { name: "d".to_string(), channels: 3 };
    assert!(Legacy::Multi(vec![0, 2]).is_valid_for_device(&dev));
    assert!(!Legacy::Multi(vec![0, 1, 2]).is_valid_for_device(&dev));
}

#[test]
fn devices_are_the_same_by_name_and_channel_count() {
    let a = AudioDevice { name: "mic".to_string(), num_channels: 2 };
    let b = a.duplicate();
    assert!(a.is_same(&b));
    assert_eq!(b.name, "mic");
    assert!(!a.is_same(&AudioDevice { name: "mic".to_string(), num_channels: 1 }));
    assert!(!a.is_same(&AudioDevice { name: "mix".to_string(), num_channels: 2 }));
}
