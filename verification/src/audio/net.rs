use vstd::prelude::*;

use crate::audio::interface::{
    available_channels, available_samples, concat_data, concat_fits, same_device, same_selection, AudioBuffer, AudioChannelSelection, AudioDevice,
    AudioInterface, AudioProviding,
};
use crate::comms::api::{AudioRequest, AudioResponse};
use crate::comms::audio::{
    buffers_of, num_chunks, num_retained, placed, pushed_into, sorted_insert, splits, total_frames,
    AudioPacket, AudioPacketSequence, AudioPacketSequenceBuilder,
};
use crate::channel::{poll, LoggedSender, Polled};
use crate::error::AudError;
use crossbeam::channel::{Receiver, Sender};

verus! {

/// What a remote audio receiver holds: the devices that the remote side
/// listed, whether it has heard from it since the last connection request,
/// and the audio packets waiting to be put in order.
pub struct ReceiverView {
    pub devices: Seq<AudioDevice>,
    pub has_connected: bool,
    pub packets: Seq<AudioPacket>,
}

/// The receiving half of remote audio: it proxies a remote audio source and
/// reassembles the audio packets that the source streams.
///
/// Requests are handed to the caller to send; responses are handed in by the
/// caller as they arrive.
#[derive(Debug)]
pub struct RemoteAudioReceiver {
    devices: Vec<AudioDevice>,
    has_connected: bool,
    packets: AudioPacketSequence,
}

impl View for RemoteAudioReceiver {
    type V = ReceiverView;

    closed spec fn view(&self) -> ReceiverView {
        ReceiverView { devices: self.devices@, has_connected: self.has_connected, packets: self.packets@ }
    }
}

impl RemoteAudioReceiver {
    /// A receiver that has heard nothing yet.
    pub fn new() -> (r: Self)
        ensures
            r@.devices == Seq::<AudioDevice>::empty(),
            !r@.has_connected,
            r@.packets == Seq::<AudioPacket>::empty(),
    {
        RemoteAudioReceiver { devices: Vec::new(), has_connected: false, packets: AudioPacketSequence::default() }
    }

    /// Whether the remote side has answered since the last connection request.
    pub fn is_accessible(&self) -> (r: bool)
        ensures
            r == self@.has_connected,
    {
        self.has_connected
    }

    /// The devices that the remote side listed last, as held.
    pub closed spec fn devices_held(&self) -> Vec<AudioDevice> {
        self.devices
    }

    /// The devices that the remote side listed last. The caller asks for a
    /// fresh list by sending `AudioRequest::GetDevices` each time.
    pub fn list_audio_devices(&self) -> (r: &[AudioDevice])
        ensures
            r@ == self@.devices,
            r@ == self.devices_held()@,
    {
        self.devices.as_slice()
    }

    /// Starts connecting to a remote device: the receiver waits for the remote
    /// side to answer again, and returns the request to send.
    pub fn connect_to_audio_device(
        &mut self,
        audio_device: &AudioDevice,
        channel_selection: &AudioChannelSelection,
    ) -> (r: AudioRequest)
        ensures
            !final(self)@.has_connected,
            final(self)@.devices == old(self)@.devices,
            final(self)@.packets == old(self)@.packets,
            r matches AudioRequest::Connect { device, channels } && same_device(device, *audio_device)
                && same_selection(channels, *channel_selection),
    {
        self.has_connected = false;
        AudioRequest::Connect { device: audio_device.duplicate(), channels: channel_selection.duplicate() }
    }

    /// Takes in a response of the remote side: a device list replaces the
    /// one held, and an audio packet joins the packets held.
    pub fn handle_response(&mut self, response: AudioResponse)
        ensures
            final(self)@.has_connected,
            response matches AudioResponse::Devices(devices) ==> {
                &&& final(self)@.devices == devices@
                &&& final(self)@.packets == old(self)@.packets
            },
            response matches AudioResponse::Audio(packet) ==> {
                &&& final(self)@.devices == old(self)@.devices
                &&& !packet.valid() ==> final(self)@.packets == old(self)@.packets
                &&& packet.valid() && old(self)@.packets.len() > 0
                    && old(self)@.packets.last().buffer.num_channels != packet.buffer.num_channels
                    ==> final(self)@.packets == Seq::<AudioPacket>::empty()
                &&& packet.valid() && (old(self)@.packets.len() == 0
                    || old(self)@.packets.last().buffer.num_channels == packet.buffer.num_channels)
                    ==> final(self)@.packets == placed(old(self)@.packets, packet)
                &&& final(self)@.packets == pushed_into(old(self)@.packets, packet)
            },
    {
        match response {
            AudioResponse::Devices(devices) => {
                self.has_connected = true;
                self.devices = devices;
            },
            AudioResponse::Audio(packet) => {
                self.has_connected = true;
                self.packets.push(packet);
            },
        }
    }

    /// The audio that is ready: when the packets held have a frame to hand
    /// out beyond the last `NUM_BUFFER_PACKETS`, which are kept back, every
    /// packet before those is taken out and their buffers are joined into
    /// one. Joined buffers of more samples than a `u32` counts are dropped.
    pub fn take_audio(&mut self) -> (r: Option<AudioBuffer>)
        ensures
            final(self)@.devices == old(self)@.devices,
            final(self)@.has_connected == old(self)@.has_connected,
            ({
                let s = old(self)@.packets;
                let k = s.len() - num_retained(s.len() as int);
                if total_frames(s.take(k)) != 0 {
                    &&& final(self)@.packets == s.skip(k)
                    &&& concat_data(buffers_of(s.take(k))).len() <= u32::MAX ==> (r matches Some(buffer)
                        && buffer.data@ == concat_data(buffers_of(s.take(k)))
                        && buffer.num_channels == s[0].buffer.num_channels)
                    &&& concat_data(buffers_of(s.take(k))).len() > u32::MAX ==> r is None
                } else {
                    &&& r is None
                    &&& final(self)@.packets == s
                }
            }),
    {
        let mut packets = AudioPacketSequence::default();
        std::mem::swap(&mut self.packets, &mut packets);
        let ghost s = packets@;
        if !packets.has_available_frames() {
            self.packets = packets;
            return None;
        }
        let buffers = packets.extract();
        proof {
            let k = s.len() - num_retained(s.len() as int);
            if k == 0 {
                assert(s.take(k) =~= Seq::<AudioPacket>::empty());
            }
            assert(buffers@.len() == k);
            assert(buffers@[0] == s[0].buffer);
        }
        self.packets = packets;
        if !concat_fits(buffers.as_slice()) {
            return None;
        }
        Some(AudioBuffer::from_buffers(buffers.as_slice()))
    }
}

/// The transmitting half of remote audio: it serves a local audio source to
/// a remote receiver, answering its requests and cutting the source's audio
/// into numbered packets.
///
/// Requests are handed in by the caller as they arrive; responses and packets
/// are handed to the caller to send.
pub struct RemoteAudioTransmitter<P: AudioProviding + AudioInterface> {
    audio_provider: P,
    sequence: AudioPacketSequenceBuilder,
    taken: Ghost<Seq<AudioBuffer>>,
}

impl<P: AudioProviding + AudioInterface> RemoteAudioTransmitter<P> {
    /// A transmitter for `audio_provider`, numbering packets from 0.
    pub fn new(audio_provider: P) -> (r: Self)
        ensures
            r.next_packet_index() == 0,
            r.source() == audio_provider,
            r.taken() == Seq::<AudioBuffer>::empty(),
    {
        RemoteAudioTransmitter {
            audio_provider,
            sequence: AudioPacketSequenceBuilder::default(),
            taken: Ghost(Seq::empty()),
        }
    }

    /// The buffers taken from the source to be sent, oldest first.
    pub closed spec fn taken(&self) -> Seq<AudioBuffer> {
        self.taken@
    }

    /// The number that the next packet sent will carry.
    pub closed spec fn next_packet_index(&self) -> u64 {
        self.sequence@
    }

    /// The audio source served.
    pub closed spec fn source(&self) -> P {
        self.audio_provider
    }

    /// The audio source served.
    pub fn provider(&self) -> (r: &P)
        ensures
            *r == self.source(),
    {
        &self.audio_provider
    }

    /// Whether the source is accessible.
    pub fn is_accessible(&self) -> (r: bool)
        ensures
            r == self.source().accessible(),
    {
        self.audio_provider.is_accessible()
    }

    /// The devices of the source.
    pub fn list_audio_devices(&self) -> (r: &[AudioDevice])
        ensures
            r@ == self.source().audio_devices()@,
    {
        self.audio_provider.list_audio_devices()
    }

    /// Connects the source to a device, first dropping the audio it holds.
    pub fn connect_to_audio_device(
        &mut self,
        audio_device: &AudioDevice,
        channel_selection: AudioChannelSelection,
    ) -> (r: Result<(), AudError>)
        ensures
            final(self).next_packet_index() == old(self).next_packet_index(),
            final(self).taken() == old(self).taken(),
            final(self).source().requested_connection() matches Some((device, channels)) && same_device(
                device,
                *audio_device,
            ) && same_selection(channels, channel_selection),
    {
        let _ = self.audio_provider.retrieve_audio_buffer();
        self.audio_provider.connect_to_audio_device(audio_device, channel_selection)
    }

    /// Lets the source process its pending events.
    pub fn process_provider_events(&mut self) -> (r: Result<(), AudError>)
        ensures
            final(self).next_packet_index() == old(self).next_packet_index(),
            final(self).taken() == old(self).taken(),
    {
        self.audio_provider.process_audio_events()
    }

    /// Serves a request of the receiver: a device list request is answered
    /// with the source's devices; a connection request connects the source
    /// and has no answer. A failure to connect is returned.
    pub fn handle_request(&mut self, request: AudioRequest) -> (r: Result<Option<AudioResponse>, AudError>)
        ensures
            final(self).next_packet_index() == old(self).next_packet_index(),
            final(self).taken() == old(self).taken(),
            r matches Ok(Some(response)) ==> response is Devices,
            request is GetDevices ==> (r matches Ok(Some(AudioResponse::Devices(list))) && list@.len()
                == old(self).source().audio_devices()@.len() && forall|i: int|
                0 <= i < list@.len() ==> same_device(#[trigger] list@[i], old(self).source().audio_devices()@[i])),
            request is GetDevices ==> *final(self) == *old(self),
            request is Connect ==> r matches Ok(None) || r is Err,
            request matches AudioRequest::Connect { device, channels } ==> (
            final(self).source().requested_connection() matches Some((d, c)) && same_device(d, device)
                && same_selection(c, channels)),
    {
        match request {
            AudioRequest::GetDevices => {
                Ok(Some(devices_response(self.audio_provider.list_audio_devices())))
            },
            AudioRequest::Connect { device, channels } => {
                self.audio_provider.connect_to_audio_device(&device, channels)?;
                Ok(None)
            },
        }
    }

    /// Serves the requests waiting in `requests`, at most `max_requests` of
    /// them (see `handle_request`), and sends the answers through
    /// `responses`. Stops at the first failure: a connection that fails, or
    /// an answer that cannot be sent.
    pub fn process_socket_requests(
        &mut self,
        requests: &Receiver<AudioRequest>,
        responses: &mut LoggedSender<AudioResponse>,
        max_requests: usize,
    ) -> (r: Result<(), AudError>)
        ensures
            final(self).next_packet_index() == old(self).next_packet_index(),
            max_requests == 0 ==> r is Ok && *final(self) == *old(self) && final(responses).offered() == old(
                responses,
            ).offered(),
            final(self).taken() == old(self).taken(),
            answered(old(responses).offered(), final(responses).offered()),
    {
        let mut handled: usize = 0;
        proof {
            assert(old(responses).offered().take(old(responses).offered().len() as int) =~= old(
                responses,
            ).offered());
        }
        while handled < max_requests
            invariant
                self.next_packet_index() == old(self).next_packet_index(),
                handled <= max_requests,
                handled == 0 ==> *self == *old(self) && responses.offered() == old(responses).offered(),
                self.taken() == old(self).taken(),
                answered(old(responses).offered(), responses.offered()),
            decreases max_requests - handled,
        {
            match poll(requests) {
                Polled::Message(request) => {
                    if let Some(response) = self.handle_request(request)? {
                        let ghost before = responses.offered();
                        let accepted = responses.offer(response);
                        proof {
                            let n = old(responses).offered().len() as int;
                            assert(responses.offered().take(n) =~= before.take(n));
                        }
                        if !accepted {
                            return Err(AudError::new("sending on a full channel"));
                        }
                    }
                },
                _ => {
                    return Ok(());
                },
            }
            handled += 1;
        }
        Ok(())
    }

    /// Sends the packets of the audio that the source holds through
    /// `responses`, in order (see `next_packets`). A packet that cannot be
    /// sent is dropped.
    pub fn try_send_audio(&mut self, responses: &mut LoggedSender<AudioResponse>) -> (r: Result<(), AudError>)
        ensures
            old(self).next_packet_index() + usize::MAX / 256 + 1 <= u64::MAX ==> r is Ok,
            final(self).taken().len() == old(self).taken().len() + 1,
            final(self).taken().drop_last() == old(self).taken(),
            final(self).taken().last().data@ == available_samples(old(self).source().available_audio()),
            final(self).taken().last().num_channels == available_channels(old(self).source().available_audio()),
            r is Err ==> final(self).next_packet_index() == old(self).next_packet_index() && final(responses).offered()
                == old(responses).offered(),
            r is Ok ==> exists|packets: Seq<AudioPacket>|
                #![trigger splits(packets, old(self).next_packet_index(), final(self).taken().last())]
                {
                    &&& splits(packets, old(self).next_packet_index(), final(self).taken().last())
                    &&& final(self).next_packet_index() == old(self).next_packet_index() + packets.len()
                    &&& final(responses).offered() == old(responses).offered() + audio_responses(packets)
                },
    {
        let mut packets = self.next_packets()?;
        let total = packets.len();
        let ghost all = packets@;
        let ghost before = responses.offered();
        let mut sent: usize = 0;
        while packets.len() > 0
            invariant
                total == all.len(),
                sent + packets@.len() == all.len(),
                packets@ == all.skip(sent as int),
                responses.offered() == before + audio_responses(all.take(sent as int)),
            decreases packets.len(),
        {
            let packet = packets.remove(0);
            proof {
                assert(packet == all[sent as int]);
                assert(audio_responses(all.take(sent + 1)) =~= audio_responses(all.take(sent as int)).push(
                    AudioResponse::Audio(packet),
                ));
                assert(packets@ =~= all.skip(sent + 1));
            }
            let _ = responses.offer(AudioResponse::Audio(packet));
            sent += 1;
        }
        proof {
            assert(all.take(sent as int) =~= all);
        }
        Ok(())
    }

    /// Lets the source process its events, serves the requests waiting (see
    /// `process_socket_requests`), then sends the source's audio (see
    /// `try_send_audio`): on success, one buffer more was taken from the
    /// source, and what went out is the answers to the requests followed by
    /// the packets of that buffer, which hold its samples in order.
    pub fn process_audio_events(
        &mut self,
        requests: &Receiver<AudioRequest>,
        responses: &mut LoggedSender<AudioResponse>,
        max_requests: usize,
    ) -> (r: Result<(), AudError>)
        ensures
            final(self).next_packet_index() >= old(self).next_packet_index(),
            r is Ok ==> {
                &&& final(self).taken().len() == old(self).taken().len() + 1
                &&& final(self).taken().drop_last() == old(self).taken()
                &&& exists|answers: Seq<AudioResponse>, packets: Seq<AudioPacket>|
                    #![trigger splits(packets, old(self).next_packet_index(), final(self).taken().last()), answers.len()]
                    {
                        &&& forall|i: int| 0 <= i < answers.len() ==> (#[trigger] answers[i]) is Devices
                        &&& splits(packets, old(self).next_packet_index(), final(self).taken().last())
                        &&& concat_data(buffers_of(packets)) == final(self).taken().last().data@
                        &&& final(self).next_packet_index() == old(self).next_packet_index() + packets.len()
                        &&& final(responses).offered() == old(responses).offered() + answers + audio_responses(
                            packets,
                        )
                    }
            },
    {
        self.process_provider_events()?;
        self.process_socket_requests(requests, responses, max_requests)?;
        let ghost answered_now = responses.offered();
        let ghost start = self.next_packet_index();
        let sent = self.try_send_audio(responses);
        proof {
            if sent is Ok {
                let answers = answered_now.skip(old(responses).offered().len() as int);
                assert(answered_now =~= old(responses).offered() + answers);
                assert forall|i: int| 0 <= i < answers.len() implies (#[trigger] answers[i]) is Devices by {
                    assert(answers[i] == answered_now[old(responses).offered().len() + i]);
                }
                let packets = choose|packets: Seq<AudioPacket>|
                    #![trigger splits(packets, start, self.taken().last())]
                    {
                        &&& splits(packets, start, self.taken().last())
                        &&& self.next_packet_index() == start + packets.len()
                        &&& responses.offered() == answered_now + audio_responses(packets)
                    };
                lemma_split_packets_hold_the_buffer(packets, start, self.taken().last());
                assert(responses.offered() =~= old(responses).offered() + answers + audio_responses(packets));
            }
        }
        sent
    }

    /// The packets of the audio that the source holds, numbered after the
    /// packets sent before (see `packets_for`); the source's audio is taken
    /// either way.
    pub fn next_packets(&mut self) -> (r: Result<Vec<AudioPacket>, AudError>)
        ensures
            old(self).next_packet_index() + usize::MAX / 256 + 1 <= u64::MAX ==> r is Ok,
            r is Ok <==> old(self).next_packet_index() + num_chunks(
                available_samples(old(self).source().available_audio()).len() as int,
            ) <= u64::MAX,
            final(self).taken().len() == old(self).taken().len() + 1,
            final(self).taken().drop_last() == old(self).taken(),
            final(self).taken().last().data@ == available_samples(old(self).source().available_audio()),
            final(self).taken().last().num_channels == available_channels(old(self).source().available_audio()),
            r matches Ok(packets) ==> {
                &&& splits(packets@, old(self).next_packet_index(), final(self).taken().last())
                &&& final(self).next_packet_index() == old(self).next_packet_index() + packets@.len()
            },
            r is Err ==> final(self).next_packet_index() == old(self).next_packet_index(),
    {
        let buffer = self.audio_provider.retrieve_audio_buffer();
        let n = buffer.data.len();
        proof {
            let len = n as int;
            assert(num_chunks(len) <= usize::MAX / 256 + 1) by (nonlinear_arith)
                requires 0 <= len <= usize::MAX, num_chunks(len) == (len + 255) / 256;
        }
        let r = self.packets_for(&buffer);
        self.taken = Ghost(self.taken@.push(buffer));
        proof {
            assert(self.taken@.drop_last() =~= old(self).taken@);
        }
        r
    }

    /// The packets of `buffer`, numbered after the packets sent before.
    /// Fails, and numbers nothing, when the numbers would overflow a `u64`.
    pub fn packets_for(&mut self, buffer: &AudioBuffer) -> (r: Result<Vec<AudioPacket>, AudError>)
        ensures
            r is Ok <==> old(self).next_packet_index() + num_chunks(buffer.data@.len() as int) <= u64::MAX,
            final(self).taken() == old(self).taken(),
            r matches Ok(packets) ==> {
                &&& splits(packets@, old(self).next_packet_index(), *buffer)
                &&& final(self).next_packet_index() == old(self).next_packet_index() + packets@.len()
            },
            r is Err ==> final(self).next_packet_index() == old(self).next_packet_index(),
    {
        let len = buffer.data.len();
        let chunks: u64 = (len / 256) as u64 + if len % 256 == 0 { 0 } else { 1 };
        proof {
            assert(chunks == num_chunks(len as int)) by (nonlinear_arith)
                requires chunks == len / 256 + if len % 256 == 0 { 0int } else { 1int };
        }
        if self.sequence.next_index() > u64::MAX - chunks {
            return Err(AudError::new("packet numbers exhausted"));
        }
        let sequence = self.sequence.from_buffer(buffer);
        Ok(sequence.into_packets())
    }
}

/// The answer to a device list request: a copy of `devices`.
pub fn devices_response(devices: &[AudioDevice]) -> (r: AudioResponse)
    ensures
        r matches AudioResponse::Devices(list) && list@.len() == devices@.len()
            && forall|i: int| 0 <= i < devices@.len() ==> same_device(#[trigger] list@[i], devices@[i]),
{
    AudioResponse::Devices(copy_devices(devices))
}

/// A copy of each device.
fn copy_devices(devices: &[AudioDevice]) -> (r: Vec<AudioDevice>)
    ensures
        r@.len() == devices@.len(),
        forall|i: int| 0 <= i < devices@.len() ==> same_device(#[trigger] r@[i], devices@[i]),
{
    let mut out: Vec<AudioDevice> = Vec::new();
    let mut i: usize = 0;
    while i < devices.len()
        invariant
            i <= devices@.len(),
            out@.len() == i,
            forall|k: int| 0 <= k < i ==> same_device(#[trigger] out@[k], devices@[k]),
        decreases devices.len() - i,
    {
        out.push(devices[i].duplicate());
        i += 1;
    }
    out
}

/// Each packet as an audio response, in order.
pub open spec fn audio_responses(packets: Seq<AudioPacket>) -> Seq<AudioResponse> {
    packets.map_values(|p: AudioPacket| AudioResponse::Audio(p))
}

/// `after` is `before` followed by answers to requests, each a device list.
pub open spec fn answered(before: Seq<AudioResponse>, after: Seq<AudioResponse>) -> bool {
    &&& before.len() <= after.len()
    &&& after.take(before.len() as int) == before
    &&& forall|i: int| before.len() <= i < after.len() ==> (#[trigger] after[i]) is Devices
}

/// The packets that a buffer is split into hold its samples, in order.
pub proof fn lemma_split_packets_hold_the_buffer(packets: Seq<AudioPacket>, start: u64, buffer: AudioBuffer)
    requires
        splits(packets, start, buffer),
    ensures
        concat_data(buffers_of(packets)) == buffer.data@,
{
    let data = buffer.data@;
    crate::comms::audio::lemma_chunks_prefix(packets, start, buffer, packets.len() as int);
    assert(packets.take(packets.len() as int) =~= packets);
    if packets.len() == 0 {
        assert(data.len() == 0) by (nonlinear_arith)
            requires (data.len() + 255) / 256 == 0;
        assert(data =~= Seq::<u32>::empty());
    } else {
        assert(data.len() <= 256 * packets.len()) by (nonlinear_arith)
            requires packets.len() == (data.len() + 255) / 256;
    }
    assert(data.subrange(0, data.len() as int) =~= data);
}

} // verus!
