//! An audio source that lives on another machine: requests go out, and
//! responses come in, through channels that threads of the application tie
//! to the network.

use vstd::prelude::*;

use crossbeam::channel::{Receiver, Sender};

use crate::audio::interface::{
    AudioBuffer, AudioChannelSelection, AudioDevice, AudioDeviceConnection, AudioInterface,
    AudioProviding,
};
use crate::audio::interface::concat_data;
use crate::audio::net::{ReceiverView, RemoteAudioReceiver};
use crate::comms::audio::{buffers_of, num_retained, pushed_into, total_frames, AudioPacket};
use crate::channel::{poll, send, Polled};
use crate::comms::api::{AudioRequest, AudioResponse};
use crate::error::AudError;

verus! {

/// The number of requests that can wait to be sent.
pub const REQUEST_CAPACITY: usize = 8;

/// The number of responses that can wait to be taken in; a look at the
/// responses takes in at most that many.
pub const RESPONSE_CAPACITY: usize = 16;

/// The number of buffers of audio that the provider keeps for its user.
pub const AUDIO_PIPE_CAPACITY: usize = 16;

/// What a remote audio provider holds: the receiver's state, and the
/// buffers ready for the user, oldest first.
pub struct RemoteProviderView {
    pub receiver: ReceiverView,
    pub pipe: Seq<AudioBuffer>,
}

/// The number of packets of `s` handed out when audio is taken: all but
/// the last ones, which are kept back.
pub open spec fn num_handed_out(s: Seq<AudioPacket>) -> int {
    s.len() - num_retained(s.len() as int)
}

/// Packets `s` hold audio to hand out: frames in the packets before the
/// last ones, which are kept back.
pub open spec fn audio_ready(s: Seq<AudioPacket>) -> bool {
    total_frames(s.take(num_handed_out(s))) != 0
}

/// The samples handed out of packets `s`: those of the packets before the
/// last ones, one after the other.
pub open spec fn ready_samples(s: Seq<AudioPacket>) -> Seq<u32> {
    concat_data(buffers_of(s.take(num_handed_out(s))))
}

/// An audio provider whose source is remote: the receiver reassembles the
/// packets that arrive, and the buffers it makes of them wait for the user.
pub struct RemoteAudioProvider {
    interface: RemoteAudioReceiver,
    requests: Sender<AudioRequest>,
    responses: Receiver<AudioResponse>,
    pipe: Vec<AudioBuffer>,
    requested: Ghost<Option<(AudioDevice, AudioChannelSelection)>>,
}

impl RemoteAudioProvider {
    pub closed spec fn view(&self) -> RemoteProviderView {
        RemoteProviderView { receiver: self.interface@, pipe: self.pipe@ }
    }

    /// The channel end through which requests are sent.
    pub closed spec fn request_sender(&self) -> Sender<AudioRequest> {
        self.requests
    }

    /// The channel end from which responses are taken.
    pub closed spec fn response_receiver(&self) -> Receiver<AudioResponse> {
        self.responses
    }

    /// A provider that sends its requests through `requests` and takes the
    /// remote side's responses from `responses`.
    pub fn new(requests: Sender<AudioRequest>, responses: Receiver<AudioResponse>) -> (r: Self)
        ensures
            r.request_sender() == requests,
            r.response_receiver() == responses,
            r.view().receiver.devices.len() == 0,
            !r.view().receiver.has_connected,
            r.view().receiver.packets.len() == 0,
            r.view().pipe.len() == 0,
    {
        RemoteAudioProvider {
            interface: RemoteAudioReceiver::new(),
            requests,
            responses,
            pipe: Vec::new(),
            requested: Ghost(None),
        }
    }

    /// Takes in a response of the remote side (see
    /// `RemoteAudioReceiver::handle_response`).
    pub fn take_response(&mut self, response: AudioResponse)
        ensures
            final(self).view().pipe == old(self).view().pipe,
            final(self).view().receiver.has_connected,
            response matches AudioResponse::Devices(devices) ==> final(self).view().receiver.devices == devices@
                && final(self).view().receiver.packets == old(self).view().receiver.packets,
            response matches AudioResponse::Audio(packet) ==> final(self).view().receiver.devices
                == old(self).view().receiver.devices && final(self).view().receiver.packets == pushed_into(
                old(self).view().receiver.packets,
                packet,
            ),
    {
        self.interface.handle_response(response);
    }

    /// Moves the audio that the receiver has ready, if any, to the buffers
    /// kept for the user; fails when those are full, the audio taken out of
    /// the receiver being dropped. Audio of more samples than a `u32` counts
    /// is dropped too.
    pub fn pass_on_audio(&mut self) -> (r: Result<(), AudError>)
        ensures
            !audio_ready(old(self).view().receiver.packets) ==> r is Ok && final(self).view() == old(self).view(),
            audio_ready(old(self).view().receiver.packets) ==> final(self).view().receiver.packets
                == old(self).view().receiver.packets.skip(num_handed_out(old(self).view().receiver.packets)),
            audio_ready(old(self).view().receiver.packets) && ready_samples(old(self).view().receiver.packets).len()
                > u32::MAX ==> r is Ok && final(self).view().pipe == old(self).view().pipe,
            audio_ready(old(self).view().receiver.packets) && ready_samples(old(self).view().receiver.packets).len()
                <= u32::MAX && old(self).view().pipe.len() < AUDIO_PIPE_CAPACITY ==> {
                &&& r is Ok
                &&& final(self).view().pipe.len() == old(self).view().pipe.len() + 1
                &&& final(self).view().pipe.last().data@ == ready_samples(old(self).view().receiver.packets)
                &&& final(self).view().pipe.last().num_channels == old(self).view().receiver.packets[0].buffer.num_channels
            },
            audio_ready(old(self).view().receiver.packets) && ready_samples(old(self).view().receiver.packets).len()
                <= u32::MAX && old(self).view().pipe.len() >= AUDIO_PIPE_CAPACITY ==> r is Err
                && final(self).view().pipe == old(self).view().pipe,
            final(self).view().receiver.devices == old(self).view().receiver.devices,
            final(self).view().receiver.has_connected == old(self).view().receiver.has_connected,
            final(self).view().pipe.len() <= old(self).view().pipe.len() + 1,
            final(self).view().pipe.len() >= old(self).view().pipe.len(),
            final(self).view().pipe.subrange(0, old(self).view().pipe.len() as int) == old(self).view().pipe,
            r is Err ==> old(self).view().pipe.len() >= AUDIO_PIPE_CAPACITY,
    {
        if let Some(buffer) = self.interface.take_audio() {
            if self.pipe.len() >= AUDIO_PIPE_CAPACITY {
                return Err(AudError::new("sending on a full channel"));
            }
            self.pipe.push(buffer);
        }
        proof {
            assert(self.pipe@.subrange(0, old(self).pipe@.len() as int) =~= old(self).pipe@);
        }
        Ok(())
    }
}

impl AudioInterface for RemoteAudioProvider {
    open spec fn accessible(&self) -> bool {
        self.view().receiver.has_connected
    }

    closed spec fn audio_devices(&self) -> Vec<AudioDevice> {
        self.interface.devices_held()
    }

    closed spec fn requested_connection(&self) -> Option<(AudioDevice, AudioChannelSelection)> {
        self.requested@
    }

    /// The remote side has answered since the last connection request.
    fn is_accessible(&self) -> (r: bool)
        ensures
            r == self.view().receiver.has_connected,
    {
        self.interface.is_accessible()
    }

    /// The devices that the remote side listed last; a fresh list is asked
    /// for each time.
    fn list_audio_devices(&self) -> (r: &[AudioDevice])
        ensures
            r@ == self.view().receiver.devices,
    {
        let _ = send(&self.requests, AudioRequest::GetDevices);
        self.interface.list_audio_devices()
    }

    /// Asks the remote side to connect to `audio_device`; the provider is
    /// not accessible until the remote side answers. Fails when the request
    /// cannot be sent.
    fn connect_to_audio_device(
        &mut self,
        audio_device: &AudioDevice,
        channel_selection: AudioChannelSelection,
    ) -> (r: Result<(), AudError>)
        ensures
            !final(self).view().receiver.has_connected,
            final(self).view().receiver.devices == old(self).view().receiver.devices,
            final(self).view().receiver.packets == old(self).view().receiver.packets,
            final(self).view().pipe == old(self).view().pipe,
    {
        self.requested = Ghost(Some((*audio_device, channel_selection)));
        let request = self.interface.connect_to_audio_device(audio_device, &channel_selection);
        if !send(&self.requests, request) {
            return Err(AudError::new("sending on a disconnected channel"));
        }
        Ok(())
    }

    fn connected_audio_device(&self) -> (r: Option<&AudioDeviceConnection>)
        ensures
            r is None,
    {
        None
    }

    /// Takes in the responses waiting, at most `RESPONSE_CAPACITY` of them,
    /// then passes on the audio that is ready.
    fn process_audio_events(&mut self) -> (r: Result<(), AudError>)
        ensures
            final(self).view().pipe.len() >= old(self).view().pipe.len(),
            final(self).view().pipe.subrange(0, old(self).view().pipe.len() as int) == old(self).view().pipe,
    {
        let mut taken: usize = 0;
        while taken < RESPONSE_CAPACITY
            invariant
                self.view().pipe == old(self).view().pipe,
            decreases RESPONSE_CAPACITY - taken,
        {
            match poll(&self.responses) {
                Polled::Message(response) => {
                    self.take_response(response);
                },
                _ => {
                    break;
                },
            }
            taken += 1;
        }
        self.pass_on_audio()
    }
}

impl AudioProviding for RemoteAudioProvider {
    closed spec fn available_audio(&self) -> Option<AudioBuffer> {
        if self.pipe@.len() > 0 {
            Some(self.pipe@[0])
        } else {
            None
        }
    }

    /// The oldest buffer kept for the user, or an empty buffer of no channel.
    fn retrieve_audio_buffer(&mut self) -> (r: AudioBuffer)
        ensures
            old(self).view().pipe.len() == 0 ==> r.data@.len() == 0 && r.num_channels == 0 && final(self).view()
                == old(self).view(),
            old(self).view().pipe.len() > 0 ==> r == old(self).view().pipe[0] && final(self).view().pipe
                == old(self).view().pipe.drop_first(),
            final(self).view().receiver == old(self).view().receiver,
    {
        if self.pipe.len() == 0 {
            return AudioBuffer::new();
        }
        self.pipe.remove(0)
    }
}

/// The two ports written in `ports` as `in,out`: the text before the first
/// comma and the text after it; `None` when there is no comma.
pub fn split_ports(ports: &str) -> (r: Option<(String, String)>)
    ensures
        r is None <==> !ports@.contains(','),
        r matches Some((a, b)) ==> ports@ == a@ + seq![','] + b@ && !a@.contains(','),
{
    let n = ports.unicode_len();
    let mut i: usize = 0;
    while i < n
        invariant
            n == ports@.len(),
            i <= n,
            forall|k: int| 0 <= k < i ==> ports@[k] != ',',
        decreases n - i,
    {
        if ports.get_char(i) == ',' {
            let a = ports.substring_char(0, i);
            let b = ports.substring_char(i + 1, n);
            proof {
                assert(ports@ =~= a@ + seq![','] + b@);
                assert forall|k: int| 0 <= k < a@.len() implies a@[k] != ',' by {
                    assert(a@[k] == ports@[k]);
                }
            }
            return Some((a.to_string(), b.to_string()));
        }
        i += 1;
    }
    None
}

} // verus!
