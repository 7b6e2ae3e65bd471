use vstd::prelude::*;

use core::ops::Range;

use crate::audio::interface::range_seq;

verus! {

/// An audio device, by name, with its number of channels.
#[derive(Debug)]
pub struct AudioDevice {
    pub name: String,
    pub channels: usize,
}

/// The channels of a device that a stream reads.
#[derive(Debug)]
pub enum AudioChannelSelection {
    Mono(usize),
    Stereo((usize, usize)),
    Range(Range<usize>),
    Multi(Vec<usize>),
}

/// The channels that a selection names, in the order it names them.
pub open spec fn channel_list(selection: AudioChannelSelection) -> Seq<usize> {
    match selection {
        AudioChannelSelection::Mono(chan) => seq![chan],
        AudioChannelSelection::Stereo((a, b)) => seq![a, b],
        AudioChannelSelection::Range(r) => range_seq(r.start, r.end),
        AudioChannelSelection::Multi(list) => list@,
    }
}

/// A device of `channels` channels can stream the selection: single channels
/// must exist, a range must start at channel 0 and not go past the last
/// channel, and a list must name existing channels, fewer of them than the
/// device has.
pub open spec fn valid_for(selection: AudioChannelSelection, channels: usize) -> bool {
    match selection {
        AudioChannelSelection::Mono(chan) => chan < channels,
        AudioChannelSelection::Stereo((a, b)) => a < channels && b < channels,
        AudioChannelSelection::Range(r) => r.start <= 0 < r.end && !(r.start <= channels < r.end),
        AudioChannelSelection::Multi(list) => (forall|i: int|
            0 <= i < list@.len() ==> #[trigger] list@[i] < channels) && list@.len() < channels,
    }
}

impl AudioChannelSelection {
    /// The channels selected, in order.
    pub fn to_vec(self) -> (r: Vec<usize>)
        ensures
            r@ == channel_list(self),
    {
        match self {
            AudioChannelSelection::Mono(chan) => {
                let mut v: Vec<usize> = Vec::new();
                v.push(chan);
                assert(v@ =~= seq![chan]);
                v
            },
            AudioChannelSelection::Stereo((a, b)) => {
                let mut v: Vec<usize> = Vec::new();
                v.push(a);
                v.push(b);
                assert(v@ =~= seq![a, b]);
                v
            },
            AudioChannelSelection::Range(r) => {
                let mut v: Vec<usize> = Vec::new();
                let mut c = r.start;
                while c < r.end
                    invariant
                        r.start <= c,
                        c <= r.end || c == r.start,
                        v@ == range_seq(r.start, c),
                    decreases r.end - c,
                {
                    v.push(c);
                    c += 1;
                    assert(v@ =~= range_seq(r.start, c));
                }
                assert(v@ =~= range_seq(r.start, r.end));
                v
            },
            AudioChannelSelection::Multi(list) => list,
        }
    }

    /// Whether `device` can stream this selection.
    pub fn is_valid_for_device(&self, device: &AudioDevice) -> (r: bool)
        ensures
            r == valid_for(*self, device.channels),
    {
        let n = device.channels;
        match self {
            AudioChannelSelection::Mono(chan) => *chan < n,
            AudioChannelSelection::Stereo((a, b)) => *a < n && *b < n,
            AudioChannelSelection::Range(r) => (r.start <= 0 && 0 < r.end) && !(r.start <= n && n < r.end),
            AudioChannelSelection::Multi(list) => {
                let mut i: usize = 0;
                while i < list.len()
                    invariant
                        *self == AudioChannelSelection::Multi(*list),
                        n == device.channels,
                        i <= list@.len(),
                        forall|k: int| 0 <= k < i ==> #[trigger] list@[k] < n,
                    decreases list.len() - i,
                {
                    if list[i] >= n {
                        assert(list@[i as int] >= n);
                        return false;
                    }
                    i += 1;
                }
                list.len() < n
            },
        }
    }
}

} // verus!
