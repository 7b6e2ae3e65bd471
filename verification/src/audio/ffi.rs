//! The Rust side of the C interface through which a host program streams
//! its own audio sources to a remote receiver: a provider that caches the
//! audio pushed by the host, and the transmitter that serves it.

use vstd::prelude::*;

use crossbeam::channel::{Receiver, Sender};

use crate::channel::{bounded, poll, LoggedSender, Polled};

use crate::audio::host::{channels_readable, enqueue_audio_buffer, sample_at};
use crate::audio::interface::{
    frames_in, same_device, same_selection, selected_channels, selection_fits, AudioBuffer, AudioChannelSelection,
    AudioDevice, AudioDeviceConnection, AudioInterface, AudioProviding,
};
use crate::apps::audio_midi::str_eq;
use crate::audio::net::RemoteAudioTransmitter;
use crate::error::AudError;

verus! {

/// The number of buffers that the host can push before the provider takes
/// them in.
pub const AUDIO_CHANNEL_CAPACITY: usize = 100;

/// What a caching provider holds, as plain values.
pub struct CachingView {
    pub sources: Seq<AudioDevice>,
    pub selected_source: Option<usize>,
    pub selected_channels: Seq<usize>,
    pub connected: Option<AudioDeviceConnection>,
    pub audio: Seq<u32>,
    pub audio_channels: u32,
    pub is_active: bool,
}

/// An audio provider over the sources that a host program declares: the
/// host pushes audio through a channel, and the provider gathers what
/// arrived until it is retrieved. Selecting a source records the connection
/// to it, at sample rate 0: the host's sources declare no sample rate.
pub struct CachingAudioProvider {
    receiver: Receiver<AudioBuffer>,
    sources: Vec<AudioDevice>,
    selected_source: Option<usize>,
    selected_channels: Vec<usize>,
    connected_device: Option<AudioDeviceConnection>,
    audio: AudioBuffer,
    is_active: bool,
    requested: Ghost<Option<(AudioDevice, AudioChannelSelection)>>,
}

/// The position of the first source that is the same device as `device`.
pub open spec fn first_match(sources: Seq<AudioDevice>, device: AudioDevice, i: int) -> bool {
    &&& 0 <= i < sources.len()
    &&& same_device(sources[i], device)
    &&& forall|k: int| 0 <= k < i ==> !same_device(#[trigger] sources[k], device)
}

/// No source is the same device as `device`.
pub open spec fn no_match(sources: Seq<AudioDevice>, device: AudioDevice) -> bool {
    forall|k: int| 0 <= k < sources.len() ==> !same_device(#[trigger] sources[k], device)
}

impl CachingAudioProvider {
    pub closed spec fn view(&self) -> CachingView {
        CachingView {
            sources: self.sources@,
            selected_source: self.selected_source,
            selected_channels: self.selected_channels@,
            connected: self.connected_device,
            audio: self.audio.data@,
            audio_channels: self.audio.num_channels,
            is_active: self.is_active,
        }
    }

    /// A provider of `sources` that takes its audio from `receiver`, with
    /// nothing selected and nothing cached.
    pub fn new(receiver: Receiver<AudioBuffer>, sources: Vec<AudioDevice>) -> (r: Self)
        ensures
            r.view().sources == sources@,
            r.view().selected_source is None,
            r.view().selected_channels.len() == 0,
            r.view().connected is None,
            r.view().audio.len() == 0,
            r.view().audio_channels == 0,
            !r.view().is_active,
    {
        CachingAudioProvider {
            receiver,
            sources,
            selected_source: None,
            selected_channels: Vec::new(),
            connected_device: None,
            audio: AudioBuffer::new(),
            is_active: false,
            requested: Ghost(None),
        }
    }

    /// Takes in what a look at the channel found: a buffer's samples join
    /// those cached, under the buffer's channel count; a channel whose
    /// sending side is gone is an error.
    pub fn take_polled(&mut self, polled: Polled<AudioBuffer>) -> (r: Result<(), AudError>)
        ensures
            final(self).view().sources == old(self).view().sources,
            final(self).view().selected_source == old(self).view().selected_source,
            final(self).view().selected_channels == old(self).view().selected_channels,
            final(self).view().connected == old(self).view().connected,
            final(self).view().is_active == old(self).view().is_active,
            polled matches Polled::Message(audio) ==> {
                &&& r is Ok
                &&& final(self).view().audio == old(self).view().audio + audio.data@
                &&& final(self).view().audio_channels == audio.num_channels
            },
            polled is Empty ==> r is Ok && final(self).view() == old(self).view(),
            polled is Disconnected ==> r is Err && final(self).view() == old(self).view(),
    {
        match polled {
            Polled::Message(mut audio) => {
                self.audio.num_channels = audio.num_channels;
                self.audio.data.append(&mut audio.data);
                Ok(())
            },
            Polled::Empty => Ok(()),
            Polled::Disconnected => Err(AudError::new("receiving on an empty and disconnected channel")),
        }
    }
}

impl AudioInterface for CachingAudioProvider {
    open spec fn accessible(&self) -> bool {
        self.view().selected_source is Some
    }

    closed spec fn audio_devices(&self) -> Vec<AudioDevice> {
        self.sources
    }

    closed spec fn requested_connection(&self) -> Option<(AudioDevice, AudioChannelSelection)> {
        self.requested@
    }

    /// A source is selected.
    fn is_accessible(&self) -> (r: bool)
        ensures
            r == self.view().selected_source is Some,
    {
        self.selected_source.is_some()
    }

    fn list_audio_devices(&self) -> (r: &[AudioDevice])
        ensures
            r@ == self.view().sources,
    {
        self.sources.as_slice()
    }

    /// Selects the first source that is `audio_device` and the channels of
    /// `channel_selection`. A selection that the device cannot stream is
    /// ignored; a device that is not a source is an error.
    fn connect_to_audio_device(
        &mut self,
        audio_device: &AudioDevice,
        channel_selection: AudioChannelSelection,
    ) -> (r: Result<(), AudError>)
        ensures
            final(self).view().sources == old(self).view().sources,
            final(self).view().audio == old(self).view().audio,
            final(self).view().audio_channels == old(self).view().audio_channels,
            !selection_fits(channel_selection, audio_device.num_channels) ==> r is Ok && final(self).view()
                == old(self).view(),
            selection_fits(channel_selection, audio_device.num_channels) ==> {
                &&& r is Err <==> no_match(old(self).view().sources, *audio_device)
                &&& r is Err ==> final(self).view() == old(self).view()
                &&& r is Ok ==> {
                    &&& final(self).view().is_active
                    &&& final(self).view().selected_source matches Some(i) && first_match(
                        old(self).view().sources,
                        *audio_device,
                        i as int,
                    )
                    &&& final(self).view().selected_channels == selected_channels(channel_selection)
                    &&& final(self).view().connected matches Some(c) && same_device(c.device, *audio_device)
                        && same_selection(c.channels, channel_selection) && c.sample_rate == 0
                }
            },
    {
        let ghost asked = Some((*audio_device, channel_selection));
        if !audio_device.supports_channels(&channel_selection) {
            self.requested = Ghost(asked);
            return Ok(());
        }
        let mut i: usize = 0;
        while i < self.sources.len()
            invariant
                *self == *old(self),
                asked == Some((*audio_device, channel_selection)),
                selection_fits(channel_selection, audio_device.num_channels),
                i <= self.sources@.len(),
                forall|k: int| 0 <= k < i ==> !same_device(#[trigger] self.sources@[k], *audio_device),
            decreases self.sources.len() - i,
        {
            if self.sources[i].is_same(audio_device) {
                self.is_active = true;
                self.selected_source = Some(i);
                let channels = channel_selection.duplicate();
                self.selected_channels = channel_selection.to_vec();
                self.connected_device = Some(
                    AudioDeviceConnection { device: audio_device.duplicate(), channels, sample_rate: 0 },
                );
                self.requested = Ghost(asked);
                return Ok(());
            }
            i += 1;
        }
        self.requested = Ghost(asked);
        Err(AudError::new("audio device not found"))
    }

    fn connected_audio_device(&self) -> (r: Option<&AudioDeviceConnection>)
        ensures
            r is Some <==> self.view().connected is Some,
            r matches Some(c) ==> Some(*c) == self.view().connected,
    {
        self.connected_device.as_ref()
    }

    /// Takes in the buffer waiting first in the channel, if any.
    fn process_audio_events(&mut self) -> (r: Result<(), AudError>)
        ensures
            final(self).view().sources == old(self).view().sources,
            final(self).view().selected_source == old(self).view().selected_source,
            final(self).view().selected_channels == old(self).view().selected_channels,
            final(self).view().connected == old(self).view().connected,
            final(self).view().is_active == old(self).view().is_active,
            r is Err ==> final(self).view() == old(self).view(),
            final(self).view().audio.len() >= old(self).view().audio.len(),
            final(self).view().audio.subrange(0, old(self).view().audio.len() as int) == old(self).view().audio,
    {
        let polled = poll(&self.receiver);
        let r = self.take_polled(polled);
        assert(self.view().audio.subrange(0, old(self).view().audio.len() as int) =~= old(self).view().audio);
        r
    }
}

impl AudioProviding for CachingAudioProvider {
    closed spec fn available_audio(&self) -> Option<AudioBuffer> {
        Some(self.audio)
    }

    /// Hands out the audio cached, leaving an empty buffer of no channel.
    fn retrieve_audio_buffer(&mut self) -> (r: AudioBuffer)
        ensures
            r.data@ == old(self).view().audio,
            r.num_channels == old(self).view().audio_channels,
            final(self).view().audio.len() == 0,
            final(self).view().audio_channels == 0,
            final(self).view().sources == old(self).view().sources,
            final(self).view().selected_source == old(self).view().selected_source,
            final(self).view().selected_channels == old(self).view().selected_channels,
            final(self).view().connected == old(self).view().connected,
            final(self).view().is_active == old(self).view().is_active,
    {
        let mut audio = AudioBuffer::new();
        std::mem::swap(&mut self.audio, &mut audio);
        audio
    }
}

/// What the C interface reports back to the host program.
#[derive(Clone, Copy, Debug, PartialEq, Eq, Structural)]
pub enum FfiAudioTransmitterResult {
    NoError,
    AudioPushed,
    NoSourceCurrentlySelected,
    OtherSourceSelected,
    FailedToConnectToSocket,
    FailedToParseInputSocket,
    FailedToParseOutputAddress,
    InvalidSourcePointer,
    FailedToParseAudioSource,
    InvalidTransmitterPointer,
}

/// A host buffer of `num_frames` frames of `num_channels` channels can be
/// cut into the channels of the connection, if the named source is the one
/// connected: each of those channels is one of the host's, and the buffer
/// made of them fits a `u32` count of samples.
pub open spec fn push_fits(view: CachingView, source_name: Seq<char>, num_frames: u32, num_channels: u32) -> bool {
    match view.connected {
        Some(c) => c.device.name@ == source_name ==> {
            let chans = selected_channels(c.channels);
            &&& num_frames > 0 ==> forall|j: int| 0 <= j < chans.len() ==> #[trigger] chans[j] < num_channels
            &&& chans.len() <= u32::MAX
            &&& num_frames * chans.len() <= u32::MAX
        },
        None => true,
    }
}

/// The characters of a source name, if it could be read.
pub open spec fn name_view(name: Option<&str>) -> Option<Seq<char>> {
    match name {
        Some(n) => Some(n@),
        None => None,
    }
}

/// What a push of a buffer for `source_name` reports: no source selected
/// or connected; the name could not be read; another source is connected;
/// or the audio was pushed.
pub open spec fn push_result(view: CachingView, source_name: Option<Seq<char>>) -> FfiAudioTransmitterResult {
    if !(view.selected_source is Some && view.connected is Some) {
        FfiAudioTransmitterResult::NoSourceCurrentlySelected
    } else {
        match source_name {
            None => FfiAudioTransmitterResult::InvalidSourcePointer,
            Some(name) => if view.connected->0.device.name@ == name {
                FfiAudioTransmitterResult::AudioPushed
            } else {
                FfiAudioTransmitterResult::OtherSourceSelected
            },
        }
    }
}

/// `buffer` holds, for each of the `num_frames` frames of the interleaved
/// host samples, the samples of channels `chans` in that order.
pub open spec fn extracted(
    buffer: AudioBuffer,
    chans: Seq<usize>,
    interleaved: Seq<u32>,
    num_frames: u32,
    num_channels: u32,
) -> bool {
    &&& buffer.num_channels == chans.len()
    &&& buffer.data@.len() == num_frames * chans.len()
    &&& forall|f: int, j: int|
        0 <= f < num_frames && 0 <= j < chans.len() ==> #[trigger] sample_at(buffer.data@, chans.len() as int, f, j)
            == sample_at(interleaved, num_channels as int, f, chans[j] as int)
}

/// The audio transmitter behind the C interface: the host pushes audio for
/// one of its sources, and the transmitter serves the source that the
/// remote receiver selected.
pub struct FfiAudioTransmitter {
    transmitter: RemoteAudioTransmitter<CachingAudioProvider>,
    sender: LoggedSender<AudioBuffer>,
}

impl FfiAudioTransmitter {
    /// What the provider behind the transmitter holds.
    pub closed spec fn provider_view(&self) -> CachingView {
        self.transmitter.source().view()
    }

    /// The buffers handed to the provider so far, oldest first.
    pub closed spec fn pushed(&self) -> Seq<AudioBuffer> {
        self.sender.offered()
    }

    /// The transmitter that serves the provider.
    pub closed spec fn transmitter_view(&self) -> RemoteAudioTransmitter<CachingAudioProvider> {
        self.transmitter
    }

    /// A transmitter of the host's `sources`, with nothing selected.
    pub fn new(sources: Vec<AudioDevice>) -> (r: Self)
        ensures
            r.provider_view().sources == sources@,
            r.provider_view().selected_source is None,
            r.provider_view().connected is None,
            r.provider_view().audio.len() == 0,
            !r.provider_view().is_active,
            r.transmitter_view().next_packet_index() == 0,
            r.pushed() == Seq::<AudioBuffer>::empty(),
    {
        let (sender, receiver) = bounded(AUDIO_CHANNEL_CAPACITY);
        let provider = CachingAudioProvider::new(receiver, sources);
        FfiAudioTransmitter { transmitter: RemoteAudioTransmitter::new(provider), sender: LoggedSender::new(sender) }
    }

    pub fn transmitter(&self) -> (r: &RemoteAudioTransmitter<CachingAudioProvider>)
        ensures
            *r == self.transmitter_view(),
    {
        &self.transmitter
    }

    /// The transmitter, to take in the receiver's requests and send its
    /// packets.
    pub fn transmitter_mut(&mut self) -> (r: &mut RemoteAudioTransmitter<CachingAudioProvider>)
        ensures
            *r == old(self).transmitter_view(),
            final(self).transmitter_view() == *final(r),
    {
        &mut self.transmitter
    }

    /// Whether `push_fits` holds, so that pushing this buffer is possible.
    pub fn can_push(&self, source_name: &str, num_frames: u32, num_channels: u32) -> (r: bool)
        ensures
            r == push_fits(self.provider_view(), source_name@, num_frames, num_channels),
    {
        match self.transmitter.provider().connected_audio_device() {
            None => true,
            Some(connection) => {
                if !str_eq(connection.device.name.as_str(), source_name) {
                    return true;
                }
                let chans = connection.channels.duplicate().to_vec();
                if chans.len() > u32::MAX as usize {
                    return false;
                }
                let k: u64 = chans.len() as u64;
                assert(num_frames * k <= u32::MAX * u32::MAX) by (nonlinear_arith)
                    requires num_frames <= u32::MAX, k <= u32::MAX;
                if num_frames as u64 * k > u32::MAX as u64 {
                    return false;
                }
                if num_frames == 0 {
                    return true;
                }
                let mut j: usize = 0;
                while j < chans.len()
                    invariant
                        j <= chans@.len(),
                        num_frames > 0,
                        chans@ == selected_channels(connection.channels),
                        self.provider_view().connected == Some(*connection),
                        connection.device.name@ == source_name@,
                        forall|m: int| 0 <= m < j ==> #[trigger] chans@[m] < num_channels,
                    decreases chans.len() - j,
                {
                    if chans[j] >= num_channels as usize {
                        assert(selected_channels(connection.channels)[j as int] >= num_channels);
                        return false;
                    }
                    j += 1;
                }
                true
            },
        }
    }

    /// Cuts a buffer pushed by the host for `source_name` down to the
    /// channels that the remote receiver selected, when that source is the
    /// one connected. Fails with `NoSourceCurrentlySelected` when no source
    /// is selected or connected, `InvalidSourcePointer` when the host's name
    /// could not be read (`None`), and `OtherSourceSelected` when another
    /// source is connected.
    pub fn prepare_push(
        &self,
        source_name: Option<&str>,
        interleaved: &[u32],
        num_frames: u32,
        num_channels: u32,
    ) -> (r: Result<AudioBuffer, FfiAudioTransmitterResult>)
        requires
            interleaved@.len() == num_frames * num_channels,
            source_name matches Some(name) ==> push_fits(self.provider_view(), name@, num_frames, num_channels),
        ensures
            ({
                let result = push_result(self.provider_view(), name_view(source_name));
                &&& result != FfiAudioTransmitterResult::AudioPushed ==> r == Err::<AudioBuffer, FfiAudioTransmitterResult>(result)
                &&& result == FfiAudioTransmitterResult::AudioPushed ==> (r matches Ok(buffer) && extracted(
                    buffer,
                    selected_channels(self.provider_view().connected->0.channels),
                    interleaved@,
                    num_frames,
                    num_channels,
                ))
            }),
    {
        let provider = self.transmitter.provider();
        let connection = match provider.connected_audio_device() {
            Some(c) => c,
            None => return Err(FfiAudioTransmitterResult::NoSourceCurrentlySelected),
        };
        if !provider.is_accessible() {
            return Err(FfiAudioTransmitterResult::NoSourceCurrentlySelected);
        }
        let name = match source_name {
            Some(name) => name,
            None => return Err(FfiAudioTransmitterResult::InvalidSourcePointer),
        };
        if !str_eq(connection.device.name.as_str(), name) {
            return Err(FfiAudioTransmitterResult::OtherSourceSelected);
        }
        let chans = connection.channels.duplicate().to_vec();
        if num_channels == 0 {
            proof {
                if num_frames > 0 && chans@.len() > 0 {
                    assert(selected_channels(connection.channels)[0] < num_channels);
                }
                assert(num_frames * chans@.len() == 0) by (nonlinear_arith)
                    requires num_frames == 0 || chans@.len() == 0;
            }
            return Ok(AudioBuffer { data: Vec::new(), num_channels: chans.len() as u32 });
        }
        proof {
            let n = num_channels as int;
            let nf = num_frames as int;
            assert(frames_in(interleaved@.len() as int, n) == nf) by (nonlinear_arith)
                requires interleaved@.len() == nf * n, n > 0;
            assert forall|j: int| 0 <= j < chans@.len() && nf > 0 implies (nf - 1) * n + #[trigger] chans@[j]
                < interleaved@.len() by {
                assert(chans@[j] < n);
                assert((nf - 1) * n + chans@[j] < nf * n) by (nonlinear_arith)
                    requires chans@[j] < n, nf > 0;
            }
        }
        Ok(enqueue_audio_buffer(interleaved, num_channels as usize, chans.as_slice()))
    }

    /// Pushes a buffer of the host for `source_name` (see `prepare_push`)
    /// to the provider, and reports `AudioPushed`, or why nothing was
    /// pushed. A pushed buffer that the provider's channel cannot take is
    /// dropped.
    pub fn push(&mut self, source_name: Option<&str>, interleaved: &[u32], num_frames: u32, num_channels: u32) -> (r:
        FfiAudioTransmitterResult)
        requires
            interleaved@.len() == num_frames * num_channels,
            source_name matches Some(name) ==> push_fits(old(self).provider_view(), name@, num_frames, num_channels),
        ensures
            r == push_result(old(self).provider_view(), name_view(source_name)),
            final(self).provider_view() == old(self).provider_view(),
            final(self).transmitter_view() == old(self).transmitter_view(),
            r != FfiAudioTransmitterResult::AudioPushed ==> final(self).pushed() == old(self).pushed(),
            r == FfiAudioTransmitterResult::AudioPushed ==> {
                &&& final(self).pushed().len() == old(self).pushed().len() + 1
                &&& final(self).pushed().drop_last() == old(self).pushed()
                &&& extracted(
                    final(self).pushed().last(),
                    selected_channels(old(self).provider_view().connected->0.channels),
                    interleaved@,
                    num_frames,
                    num_channels,
                )
            },
    {
        match self.prepare_push(source_name, interleaved, num_frames, num_channels) {
            Ok(buffer) => {
                let _ = self.sender.offer(buffer);
                FfiAudioTransmitterResult::AudioPushed
            },
            Err(result) => result,
        }
    }
}

} // verus!
