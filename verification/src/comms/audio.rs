use vstd::prelude::*;

use crate::audio::interface::{concat_data, frames_in, AudioBuffer};
use crate::comms::crc::{crc32, crc32_hash, push_u32_le, u32_le_bytes, words_le_bytes, words_to_le_bytes};

verus! {

/// The checksum of a buffer: the CRC32 of its channel count (4 bytes, least
/// significant first) plus, wrapping, the CRC32 of its samples.
pub open spec fn buffer_checksum(buffer: AudioBuffer) -> u32 {
    ((crc32(u32_le_bytes(buffer.num_channels)) as int + crc32(words_le_bytes(buffer.data@)) as int)
        % 0x1_0000_0000) as u32
}

impl AudioBuffer {
    /// The checksum that packets carry for this buffer.
    pub fn checksum(&self) -> (r: u32)
        ensures
            r == buffer_checksum(*self),
    {
        let mut channel_bytes: Vec<u8> = Vec::new();
        push_u32_le(&mut channel_bytes, self.num_channels);
        assert(channel_bytes@ =~= u32_le_bytes(self.num_channels));
        let channels_crc = crc32_hash(channel_bytes.as_slice());
        let sample_bytes = words_to_le_bytes(self.data.as_slice());
        let data_crc = crc32_hash(sample_bytes.as_slice());
        channels_crc.wrapping_add(data_crc)
    }
}

#[derive(Clone, Copy, Debug, PartialEq, Default)]
pub struct AudioPacketHeader {
    pub index: u64,
    pub checksum: u32,
}

/// A buffer of audio and the header that orders and checks it.
#[derive(Debug, PartialEq)]
pub struct AudioPacket {
    pub header: AudioPacketHeader,
    pub buffer: AudioBuffer,
}

impl AudioPacket {
    /// A packet is valid when its checksum is that of its buffer.
    pub open spec fn valid(self) -> bool {
        self.header.checksum == buffer_checksum(self.buffer)
    }

    /// The packet number `index` holding a copy of `samples`, for
    /// `num_channels` channels, with the checksum of that buffer.
    pub fn new(index: u64, samples: &[u32], num_channels: u32) -> (r: Self)
        ensures
            r.header.index == index,
            r.buffer.data@ == samples@,
            r.buffer.num_channels == num_channels,
            r.valid(),
    {
        let mut data: Vec<u32> = Vec::with_capacity(samples.len());
        let mut i: usize = 0;
        while i < samples.len()
            invariant
                i <= samples@.len(),
                data@ == samples@.subrange(0, i as int),
            decreases samples.len() - i,
        {
            data.push(samples[i]);
            i += 1;
        }
        assert(data@ =~= samples@);
        let buffer = AudioBuffer { data, num_channels };
        let checksum = buffer.checksum();
        AudioPacket { header: AudioPacketHeader { index, checksum }, buffer }
    }

    pub fn is_valid(&self) -> (r: bool)
        ensures
            r == self.valid(),
    {
        self.header.checksum == self.buffer.checksum()
    }
}

/// Packets ordered by index: no packet has a greater index than one after it.
pub open spec fn is_ordered(s: Seq<AudioPacket>) -> bool {
    forall|i: int, j: int| 0 <= i <= j < s.len() ==> s[i].header.index <= s[j].header.index
}

/// Every packet carries the checksum of its buffer.
pub open spec fn all_valid(s: Seq<AudioPacket>) -> bool {
    forall|i: int| 0 <= i < s.len() ==> (#[trigger] s[i]).valid()
}

/// Every packet has the channel count of the first one.
pub open spec fn same_channels(s: Seq<AudioPacket>) -> bool {
    forall|i: int| 0 <= i < s.len() ==> (#[trigger] s[i]).buffer.num_channels == s[0].buffer.num_channels
}

/// What an `AudioPacketSequence` holds at any time.
pub open spec fn sequence_wf(s: Seq<AudioPacket>) -> bool {
    &&& is_ordered(s)
    &&& all_valid(s)
    &&& same_channels(s)
}

/// Number of packets of `s` whose index is at most `index`.
pub open spec fn count_le(s: Seq<AudioPacket>, index: u64) -> nat
    decreases s.len(),
{
    if s.len() == 0 {
        0
    } else {
        count_le(s.drop_last(), index) + if s.last().header.index <= index { 1nat } else { 0nat }
    }
}

/// `p` inserted after every packet whose index is at most its own.
pub open spec fn sorted_insert(s: Seq<AudioPacket>, p: AudioPacket) -> Seq<AudioPacket> {
    s.insert(count_le(s, p.header.index) as int, p)
}

/// `p` put in index order: it replaces the last packet of its index, when
/// there is one, and is otherwise inserted after every packet of lower
/// index.
pub open spec fn placed(s: Seq<AudioPacket>, p: AudioPacket) -> Seq<AudioPacket> {
    let k = count_le(s, p.header.index) as int;
    if k > 0 && s[k - 1].header.index == p.header.index {
        s.update(k - 1, p)
    } else {
        sorted_insert(s, p)
    }
}

/// The packets of `s` sorted by index; packets of equal index keep their order.
pub open spec fn sort_by_index(s: Seq<AudioPacket>) -> Seq<AudioPacket>
    decreases s.len(),
{
    if s.len() == 0 {
        s
    } else {
        sorted_insert(sort_by_index(s.drop_last()), s.last())
    }
}

/// The packets of `s` that are valid and have `num_channels` channels, in order.
pub open spec fn retain_compatible(s: Seq<AudioPacket>, num_channels: u32) -> Seq<AudioPacket>
    decreases s.len(),
{
    if s.len() == 0 {
        s
    } else {
        let kept = retain_compatible(s.drop_last(), num_channels);
        if s.last().valid() && s.last().buffer.num_channels == num_channels {
            kept.push(s.last())
        } else {
            kept
        }
    }
}

/// The buffers of the packets, in order.
pub open spec fn buffers_of(s: Seq<AudioPacket>) -> Seq<AudioBuffer> {
    s.map_values(|p: AudioPacket| p.buffer)
}

/// Number of frames in the buffers of the packets.
pub open spec fn total_frames(s: Seq<AudioPacket>) -> int
    decreases s.len(),
{
    if s.len() == 0 {
        0
    } else {
        total_frames(s.drop_last()) + frames_in(
            s.last().buffer.data@.len() as int,
            s.last().buffer.num_channels as int,
        )
    }
}

/// Number of packets of `len` that a sequence keeps back when extracting.
pub open spec fn num_retained(len: int) -> int {
    if len < 4 { len } else { 4 }
}

/// Number of samples in each packet that `from_buffer` makes.
pub open spec fn samples_per_packet() -> int {
    256
}

/// Number of packets that a buffer of `len` samples is split into.
pub open spec fn num_chunks(len: int) -> int {
    (len + 255) / 256
}

/// Samples `256 * i` up to `256 * (i + 1)` of `data` (fewer in the last chunk).
pub open spec fn chunk(data: Seq<u32>, i: int) -> Seq<u32> {
    let end = if 256 * (i + 1) < data.len() { 256 * (i + 1) } else { data.len() as int };
    data.subrange(256 * i, end)
}

/// `packets` are what `from_buffer` makes of `buffer`, numbered from `start`:
/// packet `i` is valid, has number `start + i`, the buffer's channel count,
/// and chunk `i` of its samples.
pub open spec fn splits(packets: Seq<AudioPacket>, start: u64, buffer: AudioBuffer) -> bool {
    &&& packets.len() == num_chunks(buffer.data@.len() as int)
    &&& forall|i: int| #![trigger packets[i]] 0 <= i < packets.len() ==> {
        &&& packets[i].header.index == start + i
        &&& packets[i].buffer.num_channels == buffer.num_channels
        &&& packets[i].buffer.data@ == chunk(buffer.data@, i)
        &&& packets[i].valid()
    }
}

/// For ordered packets, `count_le` splits them into those of index at most
/// `index` and those of greater index.
pub proof fn lemma_count_le_splits(s: Seq<AudioPacket>, index: u64)
    requires
        is_ordered(s),
    ensures
        count_le(s, index) <= s.len(),
        forall|i: int| 0 <= i < count_le(s, index) ==> (#[trigger] s[i]).header.index <= index,
        forall|i: int| count_le(s, index) <= i < s.len() ==> (#[trigger] s[i]).header.index > index,
    decreases s.len(),
{
    if s.len() > 0 {
        let t = s.drop_last();
        assert(is_ordered(t)) by {
            assert forall|i: int, j: int| 0 <= i <= j < t.len() implies t[i].header.index
                <= t[j].header.index by {
                assert(t[i] == s[i] && t[j] == s[j]);
            }
        }
        lemma_count_le_splits(t, index);
        assert forall|i: int| 0 <= i < t.len() implies t[i] == s[i] by {}
        if s.last().header.index <= index {
            assert forall|i: int| 0 <= i < t.len() implies t[i].header.index <= index by {
                assert(s[i].header.index <= s[s.len() - 1].header.index);
            }
            assert(count_le(t, index) == t.len());
        }
    }
}

/// A position that splits ordered packets as `count_le` does is `count_le`.
pub proof fn lemma_count_le_unique(s: Seq<AudioPacket>, index: u64, pos: int)
    requires
        is_ordered(s),
        0 <= pos <= s.len(),
        forall|i: int| 0 <= i < pos ==> (#[trigger] s[i]).header.index <= index,
        forall|i: int| pos <= i < s.len() ==> (#[trigger] s[i]).header.index > index,
    ensures
        count_le(s, index) == pos,
{
    lemma_count_le_splits(s, index);
    let c = count_le(s, index) as int;
    if c < pos {
        assert(s[c].header.index <= index);
    } else if c > pos {
        assert(s[pos].header.index <= index);
    }
}

/// Inserting a valid packet of the right channel count keeps a sequence well formed.
pub proof fn lemma_sorted_insert_wf(s: Seq<AudioPacket>, p: AudioPacket)
    requires
        sequence_wf(s),
        p.valid(),
        s.len() > 0 ==> p.buffer.num_channels == s[0].buffer.num_channels,
    ensures
        sequence_wf(sorted_insert(s, p)),
        sorted_insert(s, p).len() == s.len() + 1,
{
    lemma_count_le_splits(s, p.header.index);
    let pos = count_le(s, p.header.index) as int;
    let r = sorted_insert(s, p);
    assert(r.len() == s.len() + 1);
    assert forall|i: int, j: int| 0 <= i <= j < r.len() implies r[i].header.index <= r[j].header.index by {
        if i < pos && j < pos {
            assert(r[i] == s[i] && r[j] == s[j]);
        } else if i < pos && j == pos {
            assert(r[i] == s[i]);
        } else if i < pos {
            assert(r[i] == s[i] && r[j] == s[j - 1]);
        } else if i == pos && j > pos {
            assert(r[j] == s[j - 1]);
        } else if i > pos {
            assert(r[i] == s[i - 1] && r[j] == s[j - 1]);
        }
    }
    assert forall|i: int| 0 <= i < r.len() implies (#[trigger] r[i]).valid() by {
        if i < pos {
            assert(r[i] == s[i]);
        } else if i > pos {
            assert(r[i] == s[i - 1]);
        }
    }
    assert forall|i: int| 0 <= i < r.len() implies (#[trigger] r[i]).buffer.num_channels
        == r[0].buffer.num_channels by {
        if s.len() > 0 {
            if pos > 0 {
                assert(r[0] == s[0]);
            } else {
                assert(r[0] == p);
            }
            if i < pos {
                assert(r[i] == s[i]);
            } else if i > pos {
                assert(r[i] == s[i - 1]);
            }
        }
    }
}

/// Placing a valid packet of the right channel count keeps a sequence well
/// formed; it adds a packet unless one of its index is held.
pub proof fn lemma_placed_wf(s: Seq<AudioPacket>, p: AudioPacket)
    requires
        sequence_wf(s),
        p.valid(),
        s.len() > 0 ==> p.buffer.num_channels == s[0].buffer.num_channels,
    ensures
        sequence_wf(placed(s, p)),
        placed(s, p).len() > 0,
        placed(s, p)[0].buffer.num_channels == (if s.len() == 0 { p.buffer.num_channels } else {
            s[0].buffer.num_channels
        }),
        (forall|i: int| 0 <= i < s.len() ==> (#[trigger] s[i]).header.index != p.header.index) ==> placed(s, p)
            == sorted_insert(s, p),
{
    lemma_count_le_splits(s, p.header.index);
    let k = count_le(s, p.header.index) as int;
    if k > 0 && s[k - 1].header.index == p.header.index {
        let r = s.update(k - 1, p);
        assert forall|i: int, j: int| 0 <= i <= j < r.len() implies r[i].header.index <= r[j].header.index by {
            if i == k - 1 {
                assert(s[k - 1].header.index <= s[j].header.index);
            } else if j == k - 1 {
                assert(s[i].header.index <= s[k - 1].header.index);
            }
        }
        assert forall|i: int| 0 <= i < r.len() implies (#[trigger] r[i]).buffer.num_channels
            == r[0].buffer.num_channels by {
            assert(s[i].buffer.num_channels == s[0].buffer.num_channels);
        }
        assert forall|i: int| 0 <= i < r.len() implies (#[trigger] r[i]).valid() by {
            if i != k - 1 {
                assert(s[i].valid());
            }
        }
    } else {
        lemma_sorted_insert_wf(s, p);
        let r = sorted_insert(s, p);
        if s.len() > 0 && k == 0 {
            assert(r[0] == p);
        } else if s.len() > 0 {
            assert(r[0] == s[0]);
        } else {
            assert(r[0] == p);
        }
    }
}

/// Placing a packet whose index no packet of ordered `s` has inserts it.
pub proof fn lemma_placed_fresh(s: Seq<AudioPacket>, p: AudioPacket)
    requires
        is_ordered(s),
        forall|i: int| 0 <= i < s.len() ==> (#[trigger] s[i]).header.index != p.header.index,
    ensures
        placed(s, p) == sorted_insert(s, p),
{
    lemma_count_le_splits(s, p.header.index);
}

/// A sequence of buffered packets, ordered by index, all valid and of one
/// channel count. It reorders packets and drops invalid ones.
#[derive(Debug)]
pub struct AudioPacketSequence {
    packets: Vec<AudioPacket>,
}

impl View for AudioPacketSequence {
    type V = Seq<AudioPacket>;

    closed spec fn view(&self) -> Seq<AudioPacket> {
        self.packets@
    }
}

impl Default for AudioPacketSequence {
    fn default() -> (r: Self)
        ensures
            r@ == Seq::<AudioPacket>::empty(),
    {
        AudioPacketSequence { packets: Vec::new() }
    }
}

impl AudioPacketSequence {
    #[verifier::type_invariant]
    spec fn inv(self) -> bool {
        sequence_wf(self.packets@)
    }

    /// Number of packets that `extract` keeps back, to leave time for late
    /// packets to be put in order.
    pub const NUM_BUFFER_PACKETS: usize = 4;

    /// Number of samples in each packet that `from_buffer` makes.
    pub const NUM_SAMPLES_PER_PACKET: usize = 256;

    /// The sequence of the packets that a multi-channel buffer splits into,
    /// numbered from `start_index`: each packet holds at most
    /// `NUM_SAMPLES_PER_PACKET` samples.
    pub fn from_buffer(start_index: u64, buffer: &AudioBuffer) -> (r: Self)
        requires
            start_index + num_chunks(buffer.data@.len() as int) <= u64::MAX,
        ensures
            splits(r@, start_index, *buffer),
            sequence_wf(r@),
    {
        let len = buffer.data.len();
        let mut packets: Vec<AudioPacket> = Vec::new();
        let mut offset: usize = 0;
        let mut i: u64 = 0;
        while offset < len
            invariant
                len == buffer.data@.len(),
                start_index + num_chunks(len as int) <= u64::MAX,
                offset <= len,
                offset < len ==> offset == 256 * i && i < num_chunks(len as int),
                offset == len ==> i == num_chunks(len as int),
                packets@.len() == i,
                forall|k: int| #![trigger packets@[k]] 0 <= k < i ==> {
                    &&& packets@[k].header.index == start_index + k
                    &&& packets@[k].buffer.num_channels == buffer.num_channels
                    &&& packets@[k].buffer.data@ == chunk(buffer.data@, k)
                    &&& packets@[k].valid()
                },
                sequence_wf(packets@),
                packets@.len() > 0 ==> packets@[0].buffer.num_channels == buffer.num_channels,
            decreases len - offset,
        {
            let end: usize = if len - offset > 256 { offset + 256 } else { len };
            proof {
                let ii = i as int;
                assert(ii < (len as int + 255) / 256) by (nonlinear_arith)
                    requires 256 * ii < len as int;
                if end == len {
                    assert(ii + 1 == (len as int + 255) / 256) by (nonlinear_arith)
                        requires 256 * ii < len as int, len as int <= 256 * ii + 256;
                } else {
                    assert(ii + 1 < (len as int + 255) / 256) by (nonlinear_arith)
                        requires 256 * ii + 256 < len as int;
                }
            }
            let samples = slice_range(buffer.data.as_slice(), offset, end);
            let packet = AudioPacket::new(start_index + i, samples, buffer.num_channels);
            proof {
                assert(packet.buffer.data@ == chunk(buffer.data@, i as int));
                let s = packets@;
                let r = s.push(packet);
                assert forall|a: int, b: int| 0 <= a <= b < r.len() implies r[a].header.index
                    <= r[b].header.index by {
                    if b == s.len() {
                        if a < s.len() {
                            assert(r[a] == s[a]);
                        }
                    } else {
                        assert(r[a] == s[a] && r[b] == s[b]);
                    }
                }
                assert forall|a: int| 0 <= a < r.len() implies (#[trigger] r[a]).valid() by {
                    if a < s.len() {
                        assert(r[a] == s[a]);
                    }
                }
                assert forall|a: int| 0 <= a < r.len() implies (#[trigger] r[a]).buffer.num_channels
                    == r[0].buffer.num_channels by {
                    if a < s.len() {
                        assert(r[a] == s[a]);
                    }
                }
            }
            packets.push(packet);
            offset = end;
            i += 1;
        }
        AudioPacketSequence { packets }
    }

    /// A sequence made of `packets` at once: only the valid packets with the
    /// channel count of the first packet are kept, then they are sorted by
    /// index (packets of equal index keep their order).
    pub fn with_packets(packets: Vec<AudioPacket>) -> (r: Self)
        ensures
            packets@.len() == 0 ==> r@ == Seq::<AudioPacket>::empty(),
            packets@.len() > 0 ==> r@ == sort_by_index(
                retain_compatible(packets@, packets@[0].buffer.num_channels),
            ),
            sequence_wf(r@),
    {
        let mut packets = packets;
        if packets.len() == 0 {
            let empty = AudioPacketSequence::default();
            proof {
                use_type_invariant(&empty);
            }
            return empty;
        }
        let num_channels = packets[0].buffer.num_channels;
        let ghost all = packets@;
        let mut seq = AudioPacketSequence { packets: Vec::new() };
        let mut taken: usize = 0;
        while packets.len() > 0
            invariant
                all.len() == taken + packets@.len(),
                all.len() <= usize::MAX,
                packets@ == all.subrange(taken as int, all.len() as int),
                seq@ == sort_by_index(retain_compatible(all.subrange(0, taken as int), num_channels)),
                seq@.len() > 0 ==> seq@[0].buffer.num_channels == num_channels,
            decreases packets@.len(),
        {
            let packet = packets.remove(0);
            proof {
                let before = all.subrange(0, taken as int);
                let after = all.subrange(0, taken + 1);
                assert(after.drop_last() =~= before);
                assert(after.last() == packet);
                assert(packets@ =~= all.subrange(taken + 1, all.len() as int));
            }
            if packet.is_valid() && packet.buffer.num_channels == num_channels {
                proof {
                    let kept = retain_compatible(all.subrange(0, taken as int), num_channels);
                    assert(kept.push(packet).drop_last() =~= kept);
                }
                seq.insert_sorted(packet);
            }
            taken += 1;
        }
        assert(all.subrange(0, taken as int) =~= all);
        proof {
            use_type_invariant(&seq);
        }
        seq
    }

    /// Consumes the sequence, returning its packets in order.
    pub fn into_packets(self) -> (r: Vec<AudioPacket>)
        ensures
            r@ == self@,
            sequence_wf(r@),
    {
        proof {
            use_type_invariant(&self);
        }
        self.packets
    }

    /// Adds one packet. An invalid packet is dropped; a packet whose channel
    /// count differs from that of the packets held empties the sequence and
    /// is dropped too; any other packet is put in order, replacing the
    /// packet of the same index if one is held.
    pub fn push(&mut self, packet: AudioPacket)
        ensures
            !packet.valid() ==> final(self)@ == old(self)@,
            packet.valid() && old(self)@.len() > 0 && old(self)@.last().buffer.num_channels
                != packet.buffer.num_channels ==> final(self)@ == Seq::<AudioPacket>::empty(),
            packet.valid() && (old(self)@.len() == 0 || old(self)@.last().buffer.num_channels
                == packet.buffer.num_channels) ==> final(self)@ == placed(old(self)@, packet),
            final(self)@ == pushed_into(old(self)@, packet),
            sequence_wf(old(self)@),
            sequence_wf(final(self)@),
    {
        proof {
            use_type_invariant(&*self);
        }
        if !packet.is_valid() {
            return;
        }
        let n = self.packets.len();
        if n > 0 && self.packets[n - 1].buffer.num_channels != packet.buffer.num_channels {
            self.packets = Vec::new();
            return;
        }
        proof {
            if n > 0 {
                assert(self.packets@[n - 1].buffer.num_channels == self.packets@[0].buffer.num_channels);
            }
        }
        self.place(packet);
        proof {
            use_type_invariant(&*self);
        }
    }

    /// Total number of packets currently held.
    pub fn num_packets(&self) -> (r: usize)
        ensures
            r == self@.len(),
    {
        self.packets.len()
    }

    /// The channel count of the packets held (0 when there is none).
    pub fn num_channels(&self) -> (r: u32)
        ensures
            r == (if self@.len() == 0 { 0 } else { self@[0].buffer.num_channels }),
    {
        if self.packets.len() == 0 {
            0
        } else {
            self.packets[0].buffer.num_channels
        }
    }

    /// Number of frames that `extract` can hand out without eating into the
    /// packets it keeps back: the frames of all but the last
    /// `NUM_BUFFER_PACKETS` packets.
    pub fn num_available_frames(&self) -> (r: usize)
        requires
            total_frames(self@.take(self@.len() - num_retained(self@.len() as int))) <= usize::MAX,
        ensures
            r == total_frames(self@.take(self@.len() - num_retained(self@.len() as int))),
    {
        proof {
            use_type_invariant(self);
        }
        let len = self.packets.len();
        let count: usize = if len > 4 { len - 4 } else { 0 };
        let ghost counted = self@.take(count as int);
        let mut total: usize = 0;
        let mut i: usize = 0;
        while i < count
            invariant
                count <= len,
                len == self@.len(),
                counted == self@.take(count as int),
                total_frames(counted) <= usize::MAX,
                i <= count,
                total == total_frames(counted.take(i as int)),
            decreases count - i,
        {
            proof {
                assert(counted.take(i + 1).drop_last() =~= counted.take(i as int));
                lemma_total_frames_prefix(counted, i + 1);
                lemma_total_frames_monotone(counted, i + 1);
            }
            let frames = frames_of_buffer(&self.packets[i].buffer);
            total = total + frames;
            i += 1;
        }
        assert(counted.take(count as int) =~= counted);
        total
    }

    /// Whether `extract` can hand out a frame, that is whether
    /// `num_available_frames` is not 0; unlike it, this never adds up frames.
    pub fn has_available_frames(&self) -> (r: bool)
        ensures
            r == (total_frames(self@.take(self@.len() - num_retained(self@.len() as int))) != 0),
    {
        proof {
            use_type_invariant(self);
        }
        let len = self.packets.len();
        let count: usize = if len > 4 { len - 4 } else { 0 };
        let ghost counted = self@.take(count as int);
        let mut i: usize = 0;
        while i < count
            invariant
                count <= len,
                len == self@.len(),
                counted == self@.take(count as int),
                count == self@.len() - num_retained(self@.len() as int),
                i <= count,
                total_frames(counted.take(i as int)) == 0,
            decreases count - i,
        {
            proof {
                lemma_total_frames_prefix(counted, i + 1);
                assert(counted[i as int] == self@[i as int]);
            }
            if frames_of_buffer(&self.packets[i].buffer) > 0 {
                proof {
                    lemma_total_frames_monotone(counted, i + 1);
                    assert(total_frames(counted) > 0);
                }
                return true;
            }
            i += 1;
        }
        assert(counted.take(count as int) =~= counted);
        false
    }

    /// Takes out every packet, returning their buffers in order.
    pub fn consume(&mut self) -> (r: Vec<AudioBuffer>)
        ensures
            r@ == buffers_of(old(self)@),
            final(self)@ == Seq::<AudioPacket>::empty(),
            sequence_wf(old(self)@),
    {
        proof {
            use_type_invariant(&*self);
        }
        let n = self.packets.len();
        let r = self.drain(n);
        assert(old(self)@.take(n as int) =~= old(self)@);
        r
    }

    /// Takes out every packet but the last `NUM_BUFFER_PACKETS`, returning
    /// their buffers in order: the packets kept back let late packets still
    /// be put in order, for a latency of at most `NUM_BUFFER_PACKETS` packets.
    /// The frames handed out are those that `num_available_frames` counts.
    pub fn extract(&mut self) -> (r: Vec<AudioBuffer>)
        ensures
            r@ == buffers_of(old(self)@.take(old(self)@.len() - num_retained(old(self)@.len() as int))),
            final(self)@ == old(self)@.skip(old(self)@.len() - num_retained(old(self)@.len() as int)),
            sequence_wf(old(self)@),
            sequence_wf(final(self)@),
    {
        proof {
            use_type_invariant(&*self);
        }
        let n = self.packets.len();
        let k: usize = if n > Self::NUM_BUFFER_PACKETS { n - Self::NUM_BUFFER_PACKETS } else { 0 };
        let r = self.drain(k);
        proof {
            use_type_invariant(&*self);
        }
        r
    }

    /// Takes out the first `num_packets` packets (all of them when there are
    /// fewer) and returns their buffers in order.
    fn drain(&mut self, num_packets: usize) -> (r: Vec<AudioBuffer>)
        ensures
            ({
                let k = if num_packets < old(self)@.len() { num_packets as int } else { old(self)@.len() as int };
                &&& r@ == buffers_of(old(self)@.take(k))
                &&& final(self)@ == old(self)@.skip(k)
            }),
    {
        proof {
            use_type_invariant(&*self);
        }
        let len = self.packets.len();
        let k: usize = if num_packets < len { num_packets } else { len };
        let ghost old_packets = self.packets@;
        proof {
            lemma_suffix_wf(old_packets, k as int);
        }
        let mut taken: Vec<AudioPacket> = Vec::new();
        std::mem::swap(&mut self.packets, &mut taken);
        let rest = taken.split_off(k);
        self.packets = rest;
        assert(self.packets@ =~= old_packets.skip(k as int));
        let mut buffers: Vec<AudioBuffer> = Vec::new();
        let ghost prefix = taken@;
        let mut i: usize = 0;
        while taken.len() > 0
            invariant
                prefix == old_packets.take(k as int),
                prefix.len() == k,
                taken@ == prefix.subrange(i as int, prefix.len() as int),
                i + taken@.len() == prefix.len(),
                buffers@ == buffers_of(prefix.take(i as int)),
            decreases taken@.len(),
        {
            let packet = taken.remove(0);
            buffers.push(packet.buffer);
            proof {
                assert(buffers_of(prefix.take(i + 1)) =~= buffers_of(prefix.take(i as int)).push(
                    prefix[i as int].buffer,
                ));
                assert(taken@ =~= prefix.subrange(i + 1, prefix.len() as int));
            }
            i += 1;
        }
        assert(prefix.take(i as int) =~= prefix);
        buffers
    }

    /// The number of packets held whose index is at most `key`, found by
    /// binary search.
    fn position_after(&self, key: u64) -> (lo: usize)
        ensures
            lo == count_le(self@, key),
            lo <= self@.len(),
    {
        proof {
            use_type_invariant(self);
        }
        let mut lo: usize = 0;
        let mut hi: usize = self.packets.len();
        while lo < hi
            invariant
                is_ordered(self.packets@),
                0 <= lo <= hi <= self.packets@.len(),
                forall|i: int| 0 <= i < lo ==> (#[trigger] self.packets@[i]).header.index <= key,
                forall|i: int| hi <= i < self.packets@.len() ==> (#[trigger] self.packets@[i]).header.index > key,
            decreases hi - lo,
        {
            let mid = lo + (hi - lo) / 2;
            if self.packets[mid].header.index <= key {
                assert forall|i: int| 0 <= i < mid + 1 implies (#[trigger] self.packets@[i]).header.index
                    <= key by {
                    assert(self.packets@[i].header.index <= self.packets@[mid as int].header.index);
                }
                lo = mid + 1;
            } else {
                assert forall|i: int| mid <= i < self.packets@.len() implies (
                #[trigger] self.packets@[i]).header.index > key by {
                    assert(self.packets@[mid as int].header.index <= self.packets@[i].header.index);
                }
                hi = mid;
            }
        }
        proof {
            lemma_count_le_unique(self.packets@, key, lo as int);
        }
        lo
    }

    /// Puts a valid packet of the right channel count in order: after every
    /// packet of lower or equal index.
    fn insert_sorted(&mut self, packet: AudioPacket)
        requires
            packet.valid(),
            old(self)@.len() > 0 ==> packet.buffer.num_channels == old(self)@[0].buffer.num_channels,
        ensures
            final(self)@ == sorted_insert(old(self)@, packet),
            final(self)@.len() > 0,
            final(self)@[0].buffer.num_channels == (if old(self)@.len() == 0 {
                packet.buffer.num_channels
            } else {
                old(self)@[0].buffer.num_channels
            }),
    {
        proof {
            use_type_invariant(&*self);
        }
        let lo = self.position_after(packet.header.index);
        proof {
            lemma_count_le_splits(self.packets@, packet.header.index);
            lemma_sorted_insert_wf(self.packets@, packet);
            if self.packets@.len() > 0 && lo == 0 {
                assert(sorted_insert(self.packets@, packet)[0] == packet);
            } else if self.packets@.len() > 0 {
                assert(sorted_insert(self.packets@, packet)[0] == self.packets@[0]);
            }
        }
        let mut packets: Vec<AudioPacket> = Vec::new();
        std::mem::swap(&mut self.packets, &mut packets);
        packets.insert(lo, packet);
        self.packets = packets;
    }

    /// Puts a valid packet of the right channel count in order, replacing
    /// the last packet of its index if one is held (see `placed`).
    fn place(&mut self, packet: AudioPacket)
        requires
            packet.valid(),
            old(self)@.len() > 0 ==> packet.buffer.num_channels == old(self)@[0].buffer.num_channels,
        ensures
            final(self)@ == placed(old(self)@, packet),
    {
        proof {
            use_type_invariant(&*self);
        }
        let lo = self.position_after(packet.header.index);
        proof {
            lemma_placed_wf(self.packets@, packet);
        }
        let mut packets: Vec<AudioPacket> = Vec::new();
        std::mem::swap(&mut self.packets, &mut packets);
        if lo > 0 && packets[lo - 1].header.index == packet.header.index {
            packets.set(lo - 1, packet);
        } else {
            packets.insert(lo, packet);
        }
        self.packets = packets;
    }
}

/// The frames of `buffer`: none when it has no channel.
fn frames_of_buffer(buffer: &AudioBuffer) -> (r: usize)
    ensures
        r == frames_in(buffer.data@.len() as int, buffer.num_channels as int),
{
    if buffer.num_channels > 0 {
        buffer.num_frames()
    } else {
        0
    }
}

/// The samples `start` up to `end` of `samples`.
fn slice_range(samples: &[u32], start: usize, end: usize) -> (r: &[u32])
    requires
        start <= end <= samples@.len(),
    ensures
        r@ == samples@.subrange(start as int, end as int),
{
    vstd::slice::slice_subrange(samples, start, end)
}

/// The frames of a prefix of packets, one packet more.
pub proof fn lemma_total_frames_prefix(s: Seq<AudioPacket>, i: int)
    requires
        0 < i <= s.len(),
    ensures
        total_frames(s.take(i)) == total_frames(s.take(i - 1)) + frames_in(
            s[i - 1].buffer.data@.len() as int,
            s[i - 1].buffer.num_channels as int,
        ),
        total_frames(s.take(i - 1)) <= total_frames(s.take(i)),
{
    assert(s.take(i).drop_last() =~= s.take(i - 1));
    assert(s.take(i).last() == s[i - 1]);
    lemma_frames_in_nonneg(s[i - 1].buffer.data@.len() as int, s[i - 1].buffer.num_channels as int);
}

pub proof fn lemma_frames_in_nonneg(len: int, n: int)
    requires
        len >= 0,
    ensures
        frames_in(len, n) >= 0,
{
    if n > 0 {
        assert(len / n >= 0) by (nonlinear_arith)
            requires len >= 0, n > 0;
    }
}

/// The frames of a prefix of packets are at most those of all the packets.
pub proof fn lemma_total_frames_monotone(s: Seq<AudioPacket>, i: int)
    requires
        0 <= i <= s.len(),
    ensures
        total_frames(s.take(i)) <= total_frames(s),
    decreases s.len() - i,
{
    if i < s.len() {
        lemma_total_frames_monotone(s, i + 1);
        lemma_total_frames_prefix(s, i + 1);
    } else {
        assert(s.take(i) =~= s);
    }
}

/// What remains of a well-formed sequence after its first `k` packets is well formed.
pub proof fn lemma_suffix_wf(s: Seq<AudioPacket>, k: int)
    requires
        sequence_wf(s),
        0 <= k <= s.len(),
    ensures
        sequence_wf(s.skip(k)),
        sequence_wf(s.take(k)),
{
    let t = s.skip(k);
    assert forall|i: int, j: int| 0 <= i <= j < t.len() implies t[i].header.index <= t[j].header.index by {
        assert(t[i] == s[i + k] && t[j] == s[j + k]);
    }
    assert forall|i: int| 0 <= i < t.len() implies (#[trigger] t[i]).valid() by {
        assert(t[i] == s[i + k]);
    }
    assert forall|i: int| 0 <= i < t.len() implies (#[trigger] t[i]).buffer.num_channels
        == t[0].buffer.num_channels by {
        assert(t[i] == s[i + k] && t[0] == s[k]);
    }
    let h = s.take(k);
    assert forall|i: int| 0 <= i < h.len() implies (#[trigger] h[i]).buffer.num_channels
        == h[0].buffer.num_channels by {
        assert(h[i] == s[i] && h[0] == s[0]);
    }
}

/// Numbers consecutive sequences: each buffer's packets continue the
/// numbering where the previous buffer's packets stopped.
#[derive(Debug)]
pub struct AudioPacketSequenceBuilder {
    packet_count: u64,
}

impl View for AudioPacketSequenceBuilder {
    type V = u64;

    /// The number that the next packet will carry.
    closed spec fn view(&self) -> u64 {
        self.packet_count
    }
}

impl Default for AudioPacketSequenceBuilder {
    fn default() -> (r: Self)
        ensures
            r@ == 0,
    {
        AudioPacketSequenceBuilder { packet_count: 0 }
    }
}

impl AudioPacketSequenceBuilder {
    /// The number that the next packet will carry.
    pub fn next_index(&self) -> (r: u64)
        ensures
            r == self@,
    {
        self.packet_count
    }

    /// The sequence of the packets of `buffer`, numbered after those of the
    /// buffers given before.
    pub fn from_buffer(&mut self, buffer: &AudioBuffer) -> (r: AudioPacketSequence)
        requires
            old(self)@ + num_chunks(buffer.data@.len() as int) <= u64::MAX,
        ensures
            splits(r@, old(self)@, *buffer),
            final(self)@ == old(self)@ + r@.len(),
    {
        let sequence = AudioPacketSequence::from_buffer(self.packet_count, buffer);
        self.packet_count = self.packet_count + sequence.num_packets() as u64;
        sequence
    }
}

/// Packets that are all valid and of one channel count are all retained.
pub proof fn lemma_retain_all(s: Seq<AudioPacket>, num_channels: u32)
    requires
        forall|i: int| 0 <= i < s.len() ==> (#[trigger] s[i]).valid()
            && s[i].buffer.num_channels == num_channels,
    ensures
        retain_compatible(s, num_channels) == s,
    decreases s.len(),
{
    if s.len() > 0 {
        let t = s.drop_last();
        assert forall|i: int| 0 <= i < t.len() implies (#[trigger] t[i]).valid()
            && t[i].buffer.num_channels == num_channels by {
            assert(t[i] == s[i]);
        }
        lemma_retain_all(t, num_channels);
        assert(s[s.len() - 1].valid());
        assert(t.push(s.last()) =~= s);
    }
}

/// Sorting packets that are already in order changes nothing.
pub proof fn lemma_sort_ordered(s: Seq<AudioPacket>)
    requires
        is_ordered(s),
    ensures
        sort_by_index(s) == s,
    decreases s.len(),
{
    if s.len() > 0 {
        let t = s.drop_last();
        assert(is_ordered(t)) by {
            assert forall|i: int, j: int| 0 <= i <= j < t.len() implies t[i].header.index
                <= t[j].header.index by {
                assert(t[i] == s[i] && t[j] == s[j]);
            }
        }
        lemma_sort_ordered(t);
        let key = s.last().header.index;
        assert forall|i: int| 0 <= i < t.len() implies (#[trigger] t[i]).header.index <= key by {
            assert(t[i] == s[i]);
            assert(s[i].header.index <= s[s.len() - 1].header.index);
        }
        lemma_count_le_unique(t, key, t.len() as int);
        assert(t.insert(t.len() as int, s.last()) =~= s);
    }
}

/// The samples of the first `i` chunks of `data`.
pub proof fn lemma_chunks_prefix(packets: Seq<AudioPacket>, start: u64, buffer: AudioBuffer, i: int)
    requires
        splits(packets, start, buffer),
        0 <= i <= packets.len(),
    ensures
        concat_data(buffers_of(packets.take(i))) == buffer.data@.subrange(
            0,
            if 256 * i < buffer.data@.len() { 256 * i } else { buffer.data@.len() as int },
        ),
    decreases i,
{
    let data = buffer.data@;
    if i == 0 {
        assert(buffers_of(packets.take(0)) =~= Seq::<AudioBuffer>::empty());
        assert(data.subrange(0, 0) =~= Seq::<u32>::empty());
    } else {
        lemma_chunks_prefix(packets, start, buffer, i - 1);
        assert(buffers_of(packets.take(i)).drop_last() =~= buffers_of(packets.take(i - 1)));
        assert(buffers_of(packets.take(i)).last() == packets[i - 1].buffer);
        assert(256 * (i - 1) < data.len()) by (nonlinear_arith)
            requires i - 1 < (data.len() + 255) / 256, i >= 1;
        let end = if 256 * i < data.len() { 256 * i } else { data.len() as int };
        assert(data.subrange(0, 256 * (i - 1)) + data.subrange(256 * (i - 1), end) =~= data.subrange(0, end));
    }
}

/// The packets that a buffer is split into, put into a sequence at once and
/// taken out again, give back the samples of the buffer in order.
pub proof fn lemma_packets_reassemble_buffer(packets: Seq<AudioPacket>, start: u64, buffer: AudioBuffer)
    requires
        splits(packets, start, buffer),
    ensures
        packets.len() == 0 ==> buffer.data@.len() == 0,
        packets.len() > 0 ==> concat_data(
            buffers_of(sort_by_index(retain_compatible(packets, packets[0].buffer.num_channels))),
        ) == buffer.data@,
{
    let data = buffer.data@;
    if packets.len() == 0 {
        assert(data.len() == 0) by (nonlinear_arith)
            requires (data.len() + 255) / 256 == 0;
    } else {
        lemma_retain_all(packets, packets[0].buffer.num_channels);
        assert(is_ordered(packets));
        lemma_sort_ordered(packets);
        lemma_chunks_prefix(packets, start, buffer, packets.len() as int);
        assert(packets.take(packets.len() as int) =~= packets);
        assert(data.len() <= 256 * packets.len()) by (nonlinear_arith)
            requires packets.len() == (data.len() + 255) / 256;
        assert(data.subrange(0, data.len() as int) =~= data);
    }
}

/// Inserting a packet keeps packets ordered.
pub proof fn lemma_sorted_insert_ordered(s: Seq<AudioPacket>, p: AudioPacket)
    requires
        is_ordered(s),
    ensures
        is_ordered(sorted_insert(s, p)),
{
    lemma_count_le_splits(s, p.header.index);
    let pos = count_le(s, p.header.index) as int;
    let r = sorted_insert(s, p);
    assert forall|i: int, j: int| 0 <= i <= j < r.len() implies r[i].header.index <= r[j].header.index by {
        if i < pos && j < pos {
            assert(r[i] == s[i] && r[j] == s[j]);
        } else if i < pos && j == pos {
            assert(r[i] == s[i]);
        } else if i < pos {
            assert(r[i] == s[i] && r[j] == s[j - 1]);
        } else if i == pos && j > pos {
            assert(r[j] == s[j - 1]);
        } else if i > pos {
            assert(r[i] == s[i - 1] && r[j] == s[j - 1]);
        }
    }
}

/// Sorting by index orders the packets and keeps each of them.
pub proof fn lemma_sort_by_index_permutes(s: Seq<AudioPacket>)
    ensures
        is_ordered(sort_by_index(s)),
        sort_by_index(s).to_multiset() == s.to_multiset(),
    decreases s.len(),
{
    broadcast use vstd::seq_lib::to_multiset_insert, vstd::seq_lib::to_multiset_build;

    if s.len() == 0 {
        assert(sort_by_index(s) == s);
    } else {
        let t = s.drop_last();
        lemma_sort_by_index_permutes(t);
        let sorted = sort_by_index(t);
        lemma_sorted_insert_ordered(sorted, s.last());
        lemma_count_le_splits(sorted, s.last().header.index);
        assert(sorted.insert(count_le(sorted, s.last().header.index) as int, s.last()).to_multiset()
            == sorted.to_multiset().insert(s.last()));
        assert(t.push(s.last()) =~= s);
    }
}

/// Packets whose indices strictly increase.
pub open spec fn strictly_ordered(s: Seq<AudioPacket>) -> bool {
    forall|i: int, j: int| 0 <= i < j < s.len() ==> s[i].header.index < s[j].header.index
}

/// An ordered sequence holding the same packets as a sequence of strictly
/// increasing indices is that sequence.
pub proof fn lemma_ordered_permutation_unique(a: Seq<AudioPacket>, b: Seq<AudioPacket>)
    requires
        is_ordered(a),
        strictly_ordered(b),
        a.to_multiset() == b.to_multiset(),
    ensures
        a == b,
    decreases b.len(),
{
    broadcast use vstd::seq_lib::to_multiset_len, vstd::seq_lib::to_multiset_contains, vstd::seq_lib::to_multiset_remove;

    vstd::seq_lib::to_multiset_len(a);
    vstd::seq_lib::to_multiset_len(b);
    if b.len() > 0 {
        let n = b.len() as int;
        let x = a.last();
        let y = b.last();
        assert(a.to_multiset().count(x) > 0) by {
            assert(a.contains(x)) by {
                assert(a[n - 1] == x);
            }
        }
        assert(b.contains(x));
        let i = choose|i: int| 0 <= i < n && b[i] == x;
        assert(b.to_multiset().count(y) > 0) by {
            assert(b[n - 1] == y);
        }
        assert(a.contains(y));
        let k = choose|k: int| 0 <= k < n && a[k] == y;
        assert(y.header.index <= x.header.index) by {
            assert(a[k].header.index <= a[n - 1].header.index);
        }
        if i < n - 1 {
            assert(b[i].header.index < b[n - 1].header.index);
            assert(false);
        }
        assert(x == y);
        assert(a.remove(n - 1) =~= a.drop_last());
        assert(b.remove(n - 1) =~= b.drop_last());
        assert(a.drop_last().to_multiset() == b.drop_last().to_multiset());
        assert(is_ordered(a.drop_last())) by {
            assert forall|p: int, q: int| 0 <= p <= q < n - 1 implies a.drop_last()[p].header.index
                <= a.drop_last()[q].header.index by {
                assert(a.drop_last()[p] == a[p] && a.drop_last()[q] == a[q]);
            }
        }
        assert(strictly_ordered(b.drop_last())) by {
            assert forall|p: int, q: int| 0 <= p < q < n - 1 implies b.drop_last()[p].header.index
                < b.drop_last()[q].header.index by {
                assert(b.drop_last()[p] == b[p] && b.drop_last()[q] == b[q]);
            }
        }
        lemma_ordered_permutation_unique(a.drop_last(), b.drop_last());
        assert(a =~= a.drop_last().push(x));
        assert(b =~= b.drop_last().push(y));
    } else {
        assert(a =~= b);
    }
}

/// Whatever order they arrive in, the packets that a buffer was split into
/// are put back in the order they were split in, and their samples, one
/// packet after the other, are the buffer's samples.
pub proof fn lemma_arrival_order_does_not_matter(
    packets: Seq<AudioPacket>,
    start: u64,
    buffer: AudioBuffer,
    arrived: Seq<AudioPacket>,
)
    requires
        splits(packets, start, buffer),
        arrived.to_multiset() == packets.to_multiset(),
    ensures
        sort_by_index(arrived) == packets,
        concat_data(buffers_of(sort_by_index(arrived))) == buffer.data@,
{
    lemma_sort_by_index_permutes(arrived);
    assert(strictly_ordered(packets));
    lemma_ordered_permutation_unique(sort_by_index(arrived), packets);
    let data = buffer.data@;
    lemma_chunks_prefix(packets, start, buffer, packets.len() as int);
    assert(packets.take(packets.len() as int) =~= packets);
    if packets.len() == 0 {
        assert(data.len() == 0) by (nonlinear_arith)
            requires (data.len() + 255) / 256 == 0;
        assert(data =~= Seq::<u32>::empty());
    } else {
        assert(data.len() <= 256 * packets.len()) by (nonlinear_arith)
            requires packets.len() == (data.len() + 255) / 256;
    }
    assert(data.subrange(0, data.len() as int) =~= data);
}

/// What pushing `p` makes of the packets `s`: an invalid packet is dropped,
/// a packet of another channel count than the last one empties the
/// sequence, and any other packet is placed in index order, replacing a
/// packet of its index.
pub open spec fn pushed_into(s: Seq<AudioPacket>, p: AudioPacket) -> Seq<AudioPacket> {
    if !p.valid() {
        s
    } else if s.len() > 0 && s.last().buffer.num_channels != p.buffer.num_channels {
        Seq::empty()
    } else {
        placed(s, p)
    }
}

/// What pushing `arrivals` one after the other makes of `s`.
pub open spec fn push_all(s: Seq<AudioPacket>, arrivals: Seq<AudioPacket>) -> Seq<AudioPacket>
    decreases arrivals.len(),
{
    if arrivals.len() == 0 {
        s
    } else {
        pushed_into(push_all(s, arrivals.drop_last()), arrivals.last())
    }
}

/// No two packets of `s` have the same index.
pub open spec fn distinct_indices(s: Seq<AudioPacket>) -> bool {
    forall|i: int, j: int| 0 <= i < s.len() && 0 <= j < s.len() && i != j ==> s[i].header.index != s[j].header.index
}

/// Pushing valid packets of one channel count and distinct indices, one
/// after the other, into an empty sequence sorts them by index.
pub proof fn lemma_push_all_sorts(arrived: Seq<AudioPacket>)
    requires
        all_valid(arrived),
        same_channels(arrived),
        distinct_indices(arrived),
    ensures
        push_all(Seq::empty(), arrived) == sort_by_index(arrived),
    decreases arrived.len(),
{
    broadcast use vstd::seq_lib::to_multiset_contains;

    if arrived.len() > 0 {
        let t = arrived.drop_last();
        assert(all_valid(t)) by {
            assert forall|i: int| 0 <= i < t.len() implies (#[trigger] t[i]).valid() by {
                assert(t[i] == arrived[i]);
            }
        }
        assert(same_channels(t)) by {
            assert forall|i: int| 0 <= i < t.len() implies (#[trigger] t[i]).buffer.num_channels
                == t[0].buffer.num_channels by {
                assert(t[i] == arrived[i] && t[0] == arrived[0]);
            }
        }
        assert(distinct_indices(t)) by {
            assert forall|i: int, j: int| 0 <= i < t.len() && 0 <= j < t.len() && i != j implies t[i].header.index
                != t[j].header.index by {
                assert(t[i] == arrived[i] && t[j] == arrived[j]);
            }
        }
        lemma_push_all_sorts(t);
        let sorted = sort_by_index(t);
        lemma_sort_by_index_permutes(t);
        assert(arrived.last().valid());
        let p = arrived.last();
        assert forall|k: int| 0 <= k < sorted.len() implies (#[trigger] sorted[k]).header.index != p.header.index by {
            assert(sorted.contains(sorted[k]));
            assert(sorted.to_multiset().count(sorted[k]) > 0);
            assert(t.contains(sorted[k]));
            let i = choose|i: int| 0 <= i < t.len() && t[i] == sorted[k];
            assert(t[i] == arrived[i]);
            assert(arrived[i].header.index != arrived[arrived.len() - 1].header.index);
        }
        lemma_placed_fresh(sorted, p);
        if sorted.len() > 0 {
            let x = sorted.last();
            assert(sorted.to_multiset().count(x) > 0) by {
                assert(sorted.contains(x)) by {
                    assert(sorted[sorted.len() - 1] == x);
                }
            }
            assert(t.contains(x));
            let i = choose|i: int| 0 <= i < t.len() && t[i] == x;
            assert(t[i] == arrived[i]);
            assert(arrived[i].buffer.num_channels == arrived[0].buffer.num_channels);
            assert(arrived[arrived.len() - 1].buffer.num_channels == arrived[0].buffer.num_channels);
        }
    }
}

/// Pushed one by one, in whatever order they arrive, the packets that a
/// buffer was split into end up in the order they were split in.
pub proof fn lemma_pushed_in_any_order(
    packets: Seq<AudioPacket>,
    start: u64,
    buffer: AudioBuffer,
    arrived: Seq<AudioPacket>,
)
    requires
        splits(packets, start, buffer),
        arrived.to_multiset() == packets.to_multiset(),
    ensures
        push_all(Seq::empty(), arrived) == packets,
{
    broadcast use vstd::seq_lib::to_multiset_contains;

    assert forall|i: int| 0 <= i < arrived.len() implies (#[trigger] arrived[i]).valid()
        && arrived[i].buffer.num_channels == buffer.num_channels by {
        assert(arrived.contains(arrived[i]));
        assert(arrived.to_multiset().count(arrived[i]) > 0);
        assert(packets.contains(arrived[i]));
        let k = choose|k: int| 0 <= k < packets.len() && packets[k] == arrived[i];
        assert(packets[k].valid());
    }
    assert(same_channels(arrived)) by {
        assert forall|i: int| 0 <= i < arrived.len() implies (#[trigger] arrived[i]).buffer.num_channels
            == arrived[0].buffer.num_channels by {
            assert(arrived[0].buffer.num_channels == buffer.num_channels);
        }
    }
    assert(distinct_indices(arrived)) by {
        assert(strictly_ordered(packets));
        assert(packets.no_duplicates()) by {
            assert forall|i: int, j: int| 0 <= i < packets.len() && 0 <= j < packets.len() && i != j implies packets[i]
                != packets[j] by {
                if i < j {
                    assert(packets[i].header.index < packets[j].header.index);
                } else {
                    assert(packets[j].header.index < packets[i].header.index);
                }
            }
        }
        packets.lemma_multiset_has_no_duplicates();
        arrived.lemma_multiset_has_no_duplicates_conv();
        assert forall|i: int, j: int| 0 <= i < arrived.len() && 0 <= j < arrived.len() && i != j implies arrived[i].header.index
            != arrived[j].header.index by {
            assert(arrived.contains(arrived[i]));
            assert(arrived.contains(arrived[j]));
            assert(arrived.to_multiset().count(arrived[i]) > 0);
            assert(arrived.to_multiset().count(arrived[j]) > 0);
            assert(packets.contains(arrived[i]));
            assert(packets.contains(arrived[j]));
            let a = choose|a: int| 0 <= a < packets.len() && packets[a] == arrived[i];
            let b = choose|b: int| 0 <= b < packets.len() && packets[b] == arrived[j];
            if arrived[i].header.index == arrived[j].header.index {
                if a < b {
                    assert(packets[a].header.index < packets[b].header.index);
                } else if b < a {
                    assert(packets[b].header.index < packets[a].header.index);
                }
                assert(arrived[i] == arrived[j]);
            }
        }
    }
    lemma_push_all_sorts(arrived);
    lemma_arrival_order_does_not_matter(packets, start, buffer, arrived);
}

} // verus!
