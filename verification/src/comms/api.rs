use vstd::prelude::*;

use crate::audio::interface::{AudioChannelSelection, AudioDevice};
use crate::comms::crc::{crc32, crc32_hash, words_le_bytes, words_to_le_bytes};

verus! {

/// What the receiving side asks of the transmitting side.
#[derive(Debug)]
pub enum AudioRequest {
    GetDevices,
    Connect { device: AudioDevice, channels: AudioChannelSelection },
}

/// What the transmitting side sends back.
#[derive(Debug)]
pub enum AudioResponse {
    Devices(Vec<AudioDevice>),
    Audio(crate::comms::audio::AudioPacket),
}

/// The number and checksum of a packet of deinterleaved audio.
#[derive(Clone, Copy, Debug, PartialEq)]
pub struct AudioPacketMetadata {
    pub index: u64,
    pub checksum: u32,
}

/// A packet of deinterleaved audio: one vector of samples per channel, each
/// sample held as the bit pattern of its `f32` value.
#[derive(Debug, PartialEq)]
pub struct AudioPacket {
    pub metadata: AudioPacketMetadata,
    pub payload: Vec<Vec<u32>>,
}

/// The channels of a payload, as sequences of samples.
pub open spec fn payload_view(payload: Seq<Vec<u32>>) -> Seq<Seq<u32>> {
    payload.map_values(|channel: Vec<u32>| channel@)
}

/// A packet as the contracts see it: its number, checksum and channels.
pub struct PacketView {
    pub index: u64,
    pub checksum: u32,
    pub payload: Seq<Seq<u32>>,
}

impl AudioPacket {
    pub open spec fn view_of(self) -> PacketView {
        PacketView {
            index: self.metadata.index,
            checksum: self.metadata.checksum,
            payload: payload_view(self.payload@),
        }
    }
}

/// The bytes of all the channels, one channel after the other, each sample
/// least significant byte first.
pub open spec fn payload_bytes(payload: Seq<Seq<u32>>) -> Seq<u8>
    decreases payload.len(),
{
    if payload.len() == 0 {
        Seq::empty()
    } else {
        payload_bytes(payload.drop_last()) + words_le_bytes(payload.last())
    }
}

/// The checksum of a payload: the CRC32 of the bytes of all its channels.
pub open spec fn payload_checksum(payload: Seq<Seq<u32>>) -> u32 {
    crc32(payload_bytes(payload))
}

impl PacketView {
    pub open spec fn valid(self) -> bool {
        self.checksum == payload_checksum(self.payload)
    }
}

/// The checksum of `payload`. Feeding the channels one after the other to a
/// CRC32 hasher gives the CRC32 of their concatenation, which is what is
/// computed here.
fn checksum(payload: &Vec<Vec<u32>>) -> (r: u32)
    ensures
        r == payload_checksum(payload_view(payload@)),
{
    let mut bytes: Vec<u8> = Vec::new();
    let mut c: usize = 0;
    while c < payload.len()
        invariant
            c <= payload@.len(),
            bytes@ == payload_bytes(payload_view(payload@.subrange(0, c as int))),
        decreases payload.len() - c,
    {
        let mut channel_bytes = words_to_le_bytes(payload[c].as_slice());
        proof {
            let before = payload_view(payload@.subrange(0, c as int));
            let after = payload_view(payload@.subrange(0, c + 1));
            assert(after.drop_last() =~= before);
            assert(after.last() == payload@[c as int]@);
        }
        bytes.append(&mut channel_bytes);
        c += 1;
    }
    assert(payload@.subrange(0, payload@.len() as int) =~= payload@);
    crc32_hash(bytes.as_slice())
}

/// A copy of the channels of a payload.
fn copy_payload(payload: &Vec<Vec<u32>>) -> (r: Vec<Vec<u32>>)
    ensures
        payload_view(r@) == payload_view(payload@),
{
    let mut out: Vec<Vec<u32>> = Vec::new();
    let mut c: usize = 0;
    while c < payload.len()
        invariant
            c <= payload@.len(),
            payload_view(out@) == payload_view(payload@.subrange(0, c as int)),
        decreases payload.len() - c,
    {
        let src = &payload[c];
        let mut channel: Vec<u32> = Vec::with_capacity(src.len());
        let mut i: usize = 0;
        while i < src.len()
            invariant
                i <= src@.len(),
                channel@ == src@.subrange(0, i as int),
            decreases src.len() - i,
        {
            channel.push(src[i]);
            i += 1;
        }
        assert(channel@ =~= src@);
        let ghost before = out@;
        out.push(channel);
        proof {
            assert(payload_view(out@) =~= payload_view(before).push(src@));
            assert(payload_view(payload@.subrange(0, c + 1)) =~= payload_view(
                payload@.subrange(0, c as int),
            ).push(src@));
        }
        c += 1;
    }
    assert(payload@.subrange(0, payload@.len() as int) =~= payload@);
    out
}

impl AudioPacket {
    /// The packet number `index` holding `payload`, with its checksum.
    pub fn new(index: u64, payload: Vec<Vec<u32>>) -> (r: Self)
        ensures
            r.view_of().index == index,
            r.view_of().payload == payload_view(payload@),
            r.view_of().valid(),
    {
        let checksum = checksum(&payload);
        AudioPacket { metadata: AudioPacketMetadata { index, checksum }, payload }
    }

    pub fn is_valid(&self) -> (r: bool)
        ensures
            r == self.view_of().valid(),
    {
        self.metadata.checksum == checksum(&self.payload)
    }
}

/// Packet numbers strictly increase along the sequence.
pub open spec fn strictly_ordered(s: Seq<PacketView>) -> bool {
    forall|i: int, j: int| 0 <= i < j < s.len() ==> s[i].index < s[j].index
}

/// Number of packets of `s` whose number is below `index`.
pub open spec fn count_lt(s: Seq<PacketView>, index: u64) -> nat
    decreases s.len(),
{
    if s.len() == 0 {
        0
    } else {
        count_lt(s.drop_last(), index) + if s.last().index < index { 1nat } else { 0nat }
    }
}

/// `p` put in its place: it replaces the packet of the same number if there
/// is one, and is inserted in order otherwise.
pub open spec fn place(s: Seq<PacketView>, p: PacketView) -> Seq<PacketView> {
    let pos = count_lt(s, p.index) as int;
    if pos < s.len() && s[pos].index == p.index {
        s.update(pos, p)
    } else {
        s.insert(pos, p)
    }
}

/// Some packet of `s` has number `index`.
pub open spec fn has_index(s: Seq<PacketView>, index: u64) -> bool {
    exists|i: int| 0 <= i < s.len() && (#[trigger] s[i]).index == index
}

/// All the channels of the packets, packet after packet.
pub open spec fn all_channels(s: Seq<PacketView>) -> Seq<Seq<u32>>
    decreases s.len(),
{
    if s.len() == 0 {
        Seq::empty()
    } else {
        all_channels(s.drop_last()) + s.last().payload
    }
}

/// For strictly ordered packets, `count_lt` splits them into those of lower
/// number and those of greater or equal number.
pub proof fn lemma_count_lt_splits(s: Seq<PacketView>, index: u64)
    requires
        strictly_ordered(s),
    ensures
        count_lt(s, index) <= s.len(),
        forall|i: int| 0 <= i < count_lt(s, index) ==> (#[trigger] s[i]).index < index,
        forall|i: int| count_lt(s, index) <= i < s.len() ==> (#[trigger] s[i]).index >= index,
    decreases s.len(),
{
    if s.len() > 0 {
        let t = s.drop_last();
        assert forall|i: int| 0 <= i < t.len() implies t[i] == s[i] by {}
        assert(strictly_ordered(t));
        lemma_count_lt_splits(t, index);
        if s.last().index < index {
            assert forall|i: int| 0 <= i < t.len() implies t[i].index < index by {
                assert(s[i].index < s[s.len() - 1].index);
            }
            assert(count_lt(t, index) == t.len());
        }
    }
}

/// A position that splits strictly ordered packets as `count_lt` does is `count_lt`.
pub proof fn lemma_count_lt_unique(s: Seq<PacketView>, index: u64, pos: int)
    requires
        strictly_ordered(s),
        0 <= pos <= s.len(),
        forall|i: int| 0 <= i < pos ==> (#[trigger] s[i]).index < index,
        forall|i: int| pos <= i < s.len() ==> (#[trigger] s[i]).index >= index,
    ensures
        count_lt(s, index) == pos,
{
    lemma_count_lt_splits(s, index);
    let c = count_lt(s, index) as int;
    if c < pos {
        assert(s[c].index < index);
    } else if c > pos {
        assert(s[pos].index < index);
    }
}

/// Placing a packet keeps the packets strictly ordered, with the packet in it.
pub proof fn lemma_place_ordered(s: Seq<PacketView>, p: PacketView)
    requires
        strictly_ordered(s),
    ensures
        strictly_ordered(place(s, p)),
        has_index(place(s, p), p.index),
        has_index(s, p.index) ==> place(s, p).len() == s.len(),
        !has_index(s, p.index) ==> place(s, p).len() == s.len() + 1,
{
    lemma_count_lt_splits(s, p.index);
    let pos = count_lt(s, p.index) as int;
    let r = place(s, p);
    if pos < s.len() && s[pos].index == p.index {
        assert(r[pos] == p);
        assert forall|i: int, j: int| 0 <= i < j < r.len() implies r[i].index < r[j].index by {
            if i != pos && j != pos {
                assert(r[i] == s[i] && r[j] == s[j]);
            } else if i == pos {
                assert(r[j] == s[j]);
            } else {
                assert(r[i] == s[i]);
            }
        }
    } else {
        assert(r[pos] == p);
        assert forall|i: int, j: int| 0 <= i < j < r.len() implies r[i].index < r[j].index by {
            if i < pos && j < pos {
                assert(r[i] == s[i] && r[j] == s[j]);
            } else if i < pos && j == pos {
                assert(r[i] == s[i]);
            } else if i < pos {
                assert(r[i] == s[i] && r[j] == s[j - 1]);
            } else if i == pos {
                assert(r[j] == s[j - 1]);
            } else {
                assert(r[i] == s[i - 1] && r[j] == s[j - 1]);
            }
        }
        if has_index(s, p.index) {
            let k = choose|k: int| 0 <= k < s.len() && (#[trigger] s[k]).index == p.index;
            if k < pos {
                assert(s[k].index < p.index);
            } else if k > pos {
                assert(s[pos].index < s[k].index);
            }
        }
    }
}

/// A sequence of deinterleaved audio packets, ordered by number with one
/// packet per number. A packet whose checksum fails is replaced by the
/// payload of the last packet held, unless its number is already there.
#[derive(Debug)]
pub struct AudioPacketSequence {
    packets: Vec<AudioPacket>,
}

/// The views of the packets.
pub open spec fn packet_views(s: Seq<AudioPacket>) -> Seq<PacketView> {
    s.map_values(|p: AudioPacket| p.view_of())
}

impl View for AudioPacketSequence {
    type V = Seq<PacketView>;

    closed spec fn view(&self) -> Seq<PacketView> {
        packet_views(self.packets@)
    }
}

impl Default for AudioPacketSequence {
    fn default() -> (r: Self)
        ensures
            r@ == Seq::<PacketView>::empty(),
    {
        let r = AudioPacketSequence { packets: Vec::new() };
        assert(r@ =~= Seq::<PacketView>::empty());
        r
    }
}

impl AudioPacketSequence {
    #[verifier::type_invariant]
    spec fn inv(self) -> bool {
        strictly_ordered(packet_views(self.packets@))
    }

    /// Adds a packet. A valid packet takes its place (replacing the packet of
    /// the same number, if any). An invalid packet is dropped when a packet of
    /// its number is held or the sequence is empty; otherwise the payload of
    /// the last packet takes its place under its number and checksum.
    pub fn push(&mut self, packet: AudioPacket)
        ensures
            strictly_ordered(final(self)@),
            packet.view_of().valid() ==> final(self)@ == place(old(self)@, packet.view_of()),
            !packet.view_of().valid() && (has_index(old(self)@, packet.metadata.index) || old(
                self,
            )@.len() == 0) ==> final(self)@ == old(self)@,
            !packet.view_of().valid() && !has_index(old(self)@, packet.metadata.index) && old(
                self,
            )@.len() > 0 ==> final(self)@ == place(
                old(self)@,
                PacketView {
                    index: packet.metadata.index,
                    checksum: packet.metadata.checksum,
                    payload: old(self)@.last().payload,
                },
            ),
    {
        proof {
            use_type_invariant(&*self);
        }
        if !packet.is_valid() {
            self.handle_missing_packet(packet);
        } else {
            self.insert_sorted(packet);
        }
        proof {
            use_type_invariant(&*self);
        }
    }

    /// Takes out every packet, returning all their channels, packet after packet.
    pub fn drain(&mut self) -> (r: Vec<Vec<u32>>)
        ensures
            payload_view(r@) == all_channels(old(self)@),
            final(self)@ == Seq::<PacketView>::empty(),
    {
        let mut packets: Vec<AudioPacket> = Vec::new();
        std::mem::swap(&mut self.packets, &mut packets);
        let ghost all = packets@;
        let total: usize = packets.len();
        let mut audio: Vec<Vec<u32>> = Vec::new();
        let mut taken: usize = 0;
        while packets.len() > 0
            invariant
                all.len() == taken + packets@.len(),
                all.len() == total,
                packets@ == all.subrange(taken as int, all.len() as int),
                payload_view(audio@) == all_channels(packet_views(all.subrange(0, taken as int))),
            decreases packets@.len(),
        {
            let packet = packets.remove(0);
            let mut payload = packet.payload;
            let ghost before = audio@;
            audio.append(&mut payload);
            proof {
                let pre = packet_views(all.subrange(0, taken as int));
                let post = packet_views(all.subrange(0, taken + 1));
                assert(post.drop_last() =~= pre);
                assert(post.last() == packet.view_of());
                assert(payload_view(audio@) =~= payload_view(before) + packet.view_of().payload);
                assert(packets@ =~= all.subrange(taken + 1, all.len() as int));
            }
            taken += 1;
        }
        assert(all.subrange(0, taken as int) =~= all);
        assert(self@ =~= Seq::<PacketView>::empty());
        audio
    }

    fn handle_missing_packet(&mut self, packet: AudioPacket)
        requires
            strictly_ordered(old(self)@),
        ensures
            has_index(old(self)@, packet.metadata.index) || old(self)@.len() == 0 ==> final(self)@
                == old(self)@,
            !has_index(old(self)@, packet.metadata.index) && old(self)@.len() > 0 ==> final(self)@
                == place(
                old(self)@,
                PacketView {
                    index: packet.metadata.index,
                    checksum: packet.metadata.checksum,
                    payload: old(self)@.last().payload,
                },
            ),
    {
        let n = self.packets.len();
        let mut i: usize = 0;
        while i < n
            invariant
                n == self.packets@.len(),
                self@ == packet_views(self.packets@),
                i <= n,
                forall|k: int| 0 <= k < i ==> (#[trigger] self@[k]).index != packet.metadata.index,
            decreases n - i,
        {
            if self.packets[i].metadata.index == packet.metadata.index {
                assert(self@[i as int].index == packet.metadata.index);
                return;
            }
            i += 1;
        }
        if n == 0 {
            return;
        }
        let payload = copy_payload(&self.packets[n - 1].payload);
        let replacement = AudioPacket { metadata: packet.metadata, payload };
        self.insert_sorted(replacement);
    }

    fn insert_sorted(&mut self, packet: AudioPacket)
        ensures
            final(self)@ == place(old(self)@, packet.view_of()),
    {
        proof {
            use_type_invariant(&*self);
        }
        let key = packet.metadata.index;
        let ghost s = self@;
        let mut lo: usize = 0;
        let mut hi: usize = self.packets.len();
        while lo < hi
            invariant
                s == packet_views(self.packets@),
                strictly_ordered(s),
                0 <= lo <= hi <= s.len(),
                forall|i: int| 0 <= i < lo ==> (#[trigger] s[i]).index < key,
                forall|i: int| hi <= i < s.len() ==> (#[trigger] s[i]).index >= key,
            decreases hi - lo,
        {
            let mid = lo + (hi - lo) / 2;
            if self.packets[mid].metadata.index < key {
                assert forall|i: int| 0 <= i < mid + 1 implies (#[trigger] s[i]).index < key by {
                    if i < mid {
                        assert(s[i].index < s[mid as int].index);
                    }
                }
                lo = mid + 1;
            } else {
                assert forall|i: int| mid <= i < s.len() implies (#[trigger] s[i]).index >= key by {
                    if i > mid {
                        assert(s[mid as int].index < s[i].index);
                    }
                }
                hi = mid;
            }
        }
        proof {
            lemma_count_lt_unique(s, key, lo as int);
            lemma_place_ordered(s, packet.view_of());
        }
        let mut packets: Vec<AudioPacket> = Vec::new();
        std::mem::swap(&mut self.packets, &mut packets);
        if lo < packets.len() && packets[lo].metadata.index == key {
            packets.set(lo, packet);
        } else {
            packets.insert(lo, packet);
        }
        assert(packet_views(packets@) =~= place(s, packet.view_of()));
        self.packets = packets;
    }
}

} // verus!
