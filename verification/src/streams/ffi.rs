//! The first C interface: the host program declares its audio sources and
//! pushes deinterleaved audio for them; the audio of the source selected is
//! passed on through a channel.

use vstd::prelude::*;

use crossbeam::channel::{Receiver, Sender};

use crate::apps::audio_midi::str_eq;
use crate::channel::{bounded, poll, LoggedSender, Polled};
use crate::error::AudError;
use crate::streams::audio::{channel_list, valid_for, AudioChannelSelection, AudioDevice};

verus! {

/// The number of buffers that can wait in the channel.
pub const STREAM_CHANNEL_CAPACITY: usize = 100;

/// What a receiver of the host's audio holds, as plain values.
pub struct FfiReceiverView {
    pub sources: Seq<AudioDevice>,
    pub selected_source: Option<usize>,
    pub selected_channels: Seq<usize>,
    pub is_active: bool,
}

/// The receiving end of the audio that a host program pushes for its
/// sources.
pub struct FfiAudioReceiver {
    sender: LoggedSender<Vec<Vec<u32>>>,
    receiver: Receiver<Vec<Vec<u32>>>,
    sources: Vec<AudioDevice>,
    selected_source: Option<usize>,
    selected_channels: Vec<usize>,
    is_active: bool,
}

/// Source `source` is `device`: same name and channel count.
pub open spec fn is_source(source: AudioDevice, device: AudioDevice) -> bool {
    source.name@ == device.name@ && source.channels == device.channels
}

/// The buffer passed on for a push of `num_samples` samples of each of
/// `num_channels` channels: each selected channel holds `num_samples`
/// samples read from position `chan`, any other channel holds silence.
pub open spec fn pushed_channels(
    data: Seq<u32>,
    num_samples: int,
    num_channels: int,
    selected: Seq<usize>,
    buffer: Seq<Seq<u32>>,
) -> bool {
    &&& buffer.len() == num_channels
    &&& forall|c: int| #![trigger buffer[c]] 0 <= c < num_channels ==> {
        &&& buffer[c].len() == num_samples
        &&& selected.contains(c as usize) ==> buffer[c] == data.subrange(c, c + num_samples)
        &&& !selected.contains(c as usize) ==> forall|i: int| 0 <= i < num_samples ==> buffer[c][i] == 0
    }
}

impl FfiAudioReceiver {
    pub closed spec fn view(&self) -> FfiReceiverView {
        FfiReceiverView {
            sources: self.sources@,
            selected_source: self.selected_source,
            selected_channels: self.selected_channels@,
            is_active: self.is_active,
        }
    }

    /// A receiver with no source, nothing selected and inactive.
    pub fn new() -> (r: Self)
        ensures
            r.view().sources.len() == 0,
            r.view().selected_source is None,
            r.view().selected_channels.len() == 0,
            !r.view().is_active,
            r.passed_on() == Seq::<Vec<Vec<u32>>>::empty(),
    {
        let (sender, receiver) = bounded(STREAM_CHANNEL_CAPACITY);
        FfiAudioReceiver {
            sender: LoggedSender::new(sender),
            receiver,
            sources: Vec::new(),
            selected_source: None,
            selected_channels: Vec::new(),
            is_active: false,
        }
    }

    /// The sources that the host declared.
    pub fn list_audio_devices(&self) -> (r: &[AudioDevice])
        ensures
            r@ == self.view().sources,
    {
        self.sources.as_slice()
    }

    /// Replaces the sources that the host declared.
    pub fn set_sources(&mut self, sources: Vec<AudioDevice>)
        ensures
            final(self).view().sources == sources@,
            final(self).view().selected_source == old(self).view().selected_source,
            final(self).view().selected_channels == old(self).view().selected_channels,
            final(self).view().is_active == old(self).view().is_active,
    {
        self.sources = sources;
    }

    /// Selects the first source with the name and channel count of
    /// `audio_device`, and the channels of `channel_selection`. As written,
    /// a selection that the device can stream is refused (nothing changes),
    /// and any other is taken; a device that is no source is an error once
    /// the channels are taken.
    pub fn connect_to_audio_device(
        &mut self,
        audio_device: &AudioDevice,
        channel_selection: AudioChannelSelection,
    ) -> (r: Result<(), AudError>)
        ensures
            final(self).view().sources == old(self).view().sources,
            valid_for(channel_selection, audio_device.channels) ==> r is Ok && final(self).view() == old(self).view(),
            !valid_for(channel_selection, audio_device.channels) ==> {
                &&& final(self).view().selected_channels == channel_list(channel_selection)
                &&& r is Err ==> final(self).view().selected_source == old(self).view().selected_source
                    && final(self).view().is_active == old(self).view().is_active
                &&& r is Ok ==> final(self).view().is_active
                &&& r is Ok <==> exists|i: int| 0 <= i < old(self).view().sources.len() && #[trigger] is_source(
                    old(self).view().sources[i],
                    *audio_device,
                )
                &&& r is Ok ==> (final(self).view().selected_source matches Some(i)
                    && i < old(self).view().sources.len() && is_source(old(self).view().sources[i as int], *audio_device)
                    && forall|k: int| 0 <= k < i ==> !is_source(#[trigger] old(self).view().sources[k], *audio_device))
            },
    {
        if channel_selection.is_valid_for_device(audio_device) {
            return Ok(());
        }
        let ghost sel = channel_selection;
        self.selected_channels = channel_selection.to_vec();
        let mut i: usize = 0;
        while i < self.sources.len()
            invariant
                sel == channel_selection,
                !valid_for(sel, audio_device.channels),
                self.selected_channels@ == channel_list(sel),
                self.sources@ == old(self).sources@,
                self.selected_source == old(self).selected_source,
                self.is_active == old(self).is_active,
                i <= self.sources@.len(),
                forall|k: int| 0 <= k < i ==> !is_source(#[trigger] self.sources@[k], *audio_device),
            decreases self.sources.len() - i,
        {
            if self.sources[i].channels == audio_device.channels && str_eq(
                self.sources[i].name.as_str(),
                audio_device.name.as_str(),
            ) {
                proof {
                    assert(is_source(old(self).sources@[i as int], *audio_device));
                }
                self.is_active = true;
                self.selected_source = Some(i);
                return Ok(());
            }
            i += 1;
        }
        Err(AudError::new("audio device not found"))
    }

    /// Takes the buffer waiting first in the channel; fails when none is
    /// waiting.
    pub fn try_fetch_audio(&mut self) -> (r: Result<Vec<Vec<u32>>, AudError>)
        ensures
            final(self).view() == old(self).view(),
    {
        match poll(&self.receiver) {
            Polled::Message(buffer) => Ok(buffer),
            Polled::Empty => Err(AudError::new("receiving on an empty channel")),
            Polled::Disconnected => Err(AudError::new("receiving on an empty and disconnected channel")),
        }
    }

    /// Whether a push of `num_samples` samples of each of `num_channels`
    /// channels can be read: the selected source is one of the sources, and
    /// each selected channel's samples lie in the buffer.
    pub fn can_push(&self, num_samples: usize, num_channels: usize) -> (r: bool)
        ensures
            r == push_fits(self.view(), num_samples, num_channels),
    {
        if let Some(i) = self.selected_source {
            if i >= self.sources.len() {
                return false;
            }
        }
        let a: u128 = num_channels as u128;
        let b: u128 = num_samples as u128;
        assert(a * b <= u64::MAX * u64::MAX) by (nonlinear_arith)
            requires a <= u64::MAX, b <= u64::MAX;
        let total: u128 = a * b;
        let mut k: usize = 0;
        while k < self.selected_channels.len()
            invariant
                k <= self.selected_channels@.len(),
                total == num_channels * num_samples,
                self.view().selected_source matches Some(i) ==> i < self.view().sources.len(),
                forall|m: int| 0 <= m < k ==> #[trigger] self.selected_channels@[m] >= num_channels
                    || self.selected_channels@[m] + num_samples <= total,
            decreases self.selected_channels.len() - k,
        {
            let c = self.selected_channels[k];
            if c < num_channels && c as u128 + num_samples as u128 > total {
                proof {
                    assert(self.view().selected_channels.contains(c));
                }
                return false;
            }
            k += 1;
        }
        proof {
            assert forall|c: usize| c < num_channels && #[trigger] self.view().selected_channels.contains(c) implies c
                + num_samples <= total by {
                let m = choose|m: int| 0 <= m < self.selected_channels@.len() && self.selected_channels@[m] == c;
                assert(self.selected_channels@[m] >= num_channels || self.selected_channels@[m] + num_samples
                    <= total);
            }
        }
        true
    }

    /// The buffer that a push of the host makes, if it is passed on: the
    /// receiver is active, a source is selected, the host's source name
    /// could be read (`Some`) and is the selected source's name. Each
    /// selected channel takes `num_samples` samples from position `chan` of
    /// `data`; the other channels are silent.
    pub fn stream_buffer(
        &self,
        source_name: Option<&str>,
        data: &[u32],
        num_samples: usize,
        num_channels: usize,
    ) -> (r: Option<Vec<Vec<u32>>>)
        requires
            data@.len() == num_channels * num_samples,
            push_fits(self.view(), num_samples, num_channels),
        ensures
            r is Some <==> {
                &&& self.view().is_active
                &&& self.view().selected_source is Some
                &&& source_name matches Some(n) && self.view().sources[self.view().selected_source->0 as int].name@
                    == n@
            },
            r matches Some(buffer) ==> pushed_channels(
                data@,
                num_samples as int,
                num_channels as int,
                self.view().selected_channels,
                vec_views_u32(buffer@),
            ),
    {
        if !self.is_active {
            return None;
        }
        let index = match self.selected_source {
            Some(i) => i,
            None => return None,
        };
        let name = match source_name {
            Some(n) => n,
            None => return None,
        };
        if !str_eq(self.sources[index].name.as_str(), name) {
            return None;
        }
        let mut buffer: Vec<Vec<u32>> = Vec::new();
        let mut chan: usize = 0;
        while chan < num_channels
            invariant
                chan <= num_channels,
                buffer@.len() == chan,
                data@.len() == num_channels * num_samples,
                forall|c: usize| c < num_channels && #[trigger] self.view().selected_channels.contains(c) ==> c
                    + num_samples <= data@.len(),
                forall|c: int| #![trigger buffer@[c]] 0 <= c < chan ==> {
                    &&& buffer@[c]@.len() == num_samples
                    &&& self.view().selected_channels.contains(c as usize) ==> buffer@[c]@ == data@.subrange(
                        c,
                        c + num_samples,
                    )
                    &&& !self.view().selected_channels.contains(c as usize) ==> forall|i: int|
                        0 <= i < num_samples ==> buffer@[c]@[i] == 0
                },
            decreases num_channels - chan,
        {
            let selected = contains_channel(self.selected_channels.as_slice(), chan);
            assert(selected ==> self.view().selected_channels.contains(chan));
            let mut samples: Vec<u32> = Vec::new();
            let mut i: usize = 0;
            while i < num_samples
                invariant
                    i <= num_samples,
                    chan < num_channels,
                    samples@.len() == i,
                    data@.len() == num_channels * num_samples,
                    selected ==> chan + num_samples <= data@.len(),
                    selected ==> forall|k: int| 0 <= k < i ==> samples@[k] == data@[chan + k],
                    !selected ==> forall|k: int| 0 <= k < i ==> samples@[k] == 0,
                decreases num_samples - i,
            {
                if selected {
                    assert(chan + i < data.len());
                    samples.push(data[chan + i]);
                } else {
                    samples.push(0);
                }
                i += 1;
            }
            proof {
                if selected {
                    assert(samples@ =~= data@.subrange(chan as int, chan + num_samples));
                }
            }
            buffer.push(samples);
            chan += 1;
        }
        proof {
            let views = vec_views_u32(buffer@);
            assert forall|c: int| 0 <= c < num_channels implies #[trigger] views[c] == buffer@[c]@ by {}
        }
        Some(buffer)
    }

    /// The buffers passed on so far, oldest first.
    pub closed spec fn passed_on(&self) -> Seq<Vec<Vec<u32>>> {
        self.sender.offered()
    }

    /// Passes on the buffer of a push of the host, if any (see
    /// `stream_buffer`); a full channel drops it.
    pub fn push(&mut self, source_name: Option<&str>, data: &[u32], num_samples: usize, num_channels: usize)
        requires
            data@.len() == num_channels * num_samples,
            push_fits(old(self).view(), num_samples, num_channels),
        ensures
            final(self).view() == old(self).view(),
            !streams_source(old(self).view(), name_view(source_name)) ==> final(self).passed_on() == old(
                self,
            ).passed_on(),
            streams_source(old(self).view(), name_view(source_name)) ==> {
                &&& final(self).passed_on().len() == old(self).passed_on().len() + 1
                &&& final(self).passed_on().drop_last() == old(self).passed_on()
                &&& pushed_channels(
                    data@,
                    num_samples as int,
                    num_channels as int,
                    old(self).view().selected_channels,
                    vec_views_u32(final(self).passed_on().last()@),
                )
            },
    {
        if let Some(buffer) = self.stream_buffer(source_name, data, num_samples, num_channels) {
            let _ = self.sender.offer(buffer);
        }
    }
}

/// The characters of a source name, if it could be read.
pub open spec fn name_view(name: Option<&str>) -> Option<Seq<char>> {
    match name {
        Some(n) => Some(n@),
        None => None,
    }
}

/// A push for the source named `name` is passed on: the receiver is active
/// and `name` could be read and is the selected source's name.
pub open spec fn streams_source(view: FfiReceiverView, name: Option<Seq<char>>) -> bool {
    &&& view.is_active
    &&& view.selected_source is Some
    &&& name matches Some(n) && view.sources[view.selected_source->0 as int].name@ == n
}

/// A push of `num_samples` samples of each of `num_channels` channels can be
/// read: the selected source is one of the sources, and each selected
/// channel's samples lie in the buffer.
pub open spec fn push_fits(view: FfiReceiverView, num_samples: usize, num_channels: usize) -> bool {
    &&& view.selected_source matches Some(i) ==> i < view.sources.len()
    &&& forall|c: usize| c < num_channels && #[trigger] view.selected_channels.contains(c) ==> c + num_samples
        <= num_channels * num_samples
}

/// The samples of each channel.
pub open spec fn vec_views_u32(v: Seq<Vec<u32>>) -> Seq<Seq<u32>> {
    v.map_values(|x: Vec<u32>| x@)
}

/// Whether `chan` is one of `channels`.
fn contains_channel(channels: &[usize], chan: usize) -> (r: bool)
    ensures
        r == channels@.contains(chan),
{
    let mut i: usize = 0;
    while i < channels.len()
        invariant
            i <= channels@.len(),
            forall|k: int| 0 <= k < i ==> channels@[k] != chan,
        decreases channels.len() - i,
    {
        if channels[i] == chan {
            assert(channels@[i as int] == chan);
            return true;
        }
        i += 1;
    }
    false
}

} // verus!
