use vstd::prelude::*;

use core::ops::Range;

use crate::error::AudError;

verus! {

/// An interleaved audio buffer.
///
/// The samples of each channel alternate: for two channels the data reads
/// `[left0, right0, left1, right1, ...]`, and `[left0, right0]` is a frame.
///
/// Each sample is held as the bit pattern of its `f32` value
/// (`f32::to_bits`), so that the buffer can be copied, split, checksummed and
/// reassembled exactly without any floating point arithmetic.
#[derive(Clone, Debug, PartialEq)]
pub struct AudioBuffer {
    pub data: Vec<u32>,
    pub num_channels: u32,
}

/// The samples of all `buffers`, one buffer after the other.
pub open spec fn concat_data(buffers: Seq<AudioBuffer>) -> Seq<u32>
    decreases buffers.len(),
{
    if buffers.len() == 0 {
        Seq::empty()
    } else {
        concat_data(buffers.drop_last()) + buffers.last().data@
    }
}

/// The number of complete frames in `len` interleaved samples of `num_channels` channels.
pub open spec fn frames_in(len: int, num_channels: int) -> int {
    if num_channels > 0 { len / num_channels } else { 0 }
}

impl AudioBuffer {
    /// An empty buffer with no channel.
    pub fn new() -> (r: Self)
        ensures
            r.data@ == Seq::<u32>::empty(),
            r.num_channels == 0,
    {
        AudioBuffer { data: Vec::new(), num_channels: 0 }
    }

    /// A copy of this buffer.
    pub fn duplicate(&self) -> (r: Self)
        ensures
            r.data@ == self.data@,
            r.num_channels == self.num_channels,
    {
        let mut data: Vec<u32> = Vec::with_capacity(self.data.len());
        let mut i: usize = 0;
        while i < self.data.len()
            invariant
                i <= self.data.len(),
                data@ == self.data@.subrange(0, i as int),
            decreases self.data.len() - i,
        {
            data.push(self.data[i]);
            i += 1;
        }
        assert(data@ =~= self.data@);
        AudioBuffer { data, num_channels: self.num_channels }
    }

    /// A silent buffer of `num_frames` frames of `num_channels` channels,
    /// that is `num_frames * num_channels` samples.
    pub fn with_frames(num_frames: u32, num_channels: u32) -> (r: Self)
        requires
            num_frames * num_channels <= usize::MAX,
        ensures
            r.data@ == Seq::new((num_frames * num_channels) as nat, |i: int| 0u32),
            r.num_channels == num_channels,
    {
        let len: usize = (num_frames as usize) * (num_channels as usize);
        Self::with_length_usize(len, num_channels)
    }

    /// A silent buffer of `length` samples in total, for `num_channels` channels.
    pub fn with_length(length: u32, num_channels: u32) -> (r: Self)
        ensures
            r.data@ == Seq::new(length as nat, |i: int| 0u32),
            r.num_channels == num_channels,
    {
        Self::with_length_usize(length as usize, num_channels)
    }

    fn with_length_usize(length: usize, num_channels: u32) -> (r: Self)
        ensures
            r.data@ == Seq::new(length as nat, |i: int| 0u32),
            r.num_channels == num_channels,
    {
        let mut data: Vec<u32> = Vec::with_capacity(length);
        let mut i: usize = 0;
        while i < length
            invariant
                i <= length,
                data@ == Seq::new(i as nat, |j: int| 0u32),
            decreases length - i,
        {
            data.push(0u32);
            i += 1;
        }
        AudioBuffer { data, num_channels }
    }

    /// Accumulates several buffers into a single larger one.
    ///
    /// The result has the channel count of the first buffer (0 when there is
    /// none) and all the samples of the buffers in order; it is up to the
    /// caller that the buffers share their channel count.
    pub fn from_buffers(buffers: &[AudioBuffer]) -> (r: Self)
        requires
            concat_data(buffers@).len() <= u32::MAX,
        ensures
            r.data@ == concat_data(buffers@),
            r.num_channels == (if buffers@.len() == 0 { 0 } else { buffers@[0].num_channels }),
    {
        let num_channels: u32 = if buffers.len() == 0 { 0 } else { buffers[0].num_channels };
        let mut data: Vec<u32> = Vec::new();
        let mut b: usize = 0;
        while b < buffers.len()
            invariant
                b <= buffers@.len(),
                data@ == concat_data(buffers@.subrange(0, b as int)),
            decreases buffers.len() - b,
        {
            let src = &buffers[b].data;
            let ghost before = data@;
            let mut i: usize = 0;
            while i < src.len()
                invariant
                    i <= src@.len(),
                    src@ == buffers@[b as int].data@,
                    data@ == before + src@.subrange(0, i as int),
                decreases src.len() - i,
            {
                data.push(src[i]);
                proof {
                    assert(src@.subrange(0, i + 1) =~= src@.subrange(0, i as int).push(src@[i as int]));
                }
                i += 1;
            }
            proof {
                assert(src@.subrange(0, src@.len() as int) =~= src@);
                assert(buffers@.subrange(0, b + 1).drop_last() =~= buffers@.subrange(0, b as int));
            }
            b += 1;
        }
        assert(buffers@.subrange(0, buffers@.len() as int) =~= buffers@);
        AudioBuffer { data, num_channels }
    }

    /// Number of frames in this interleaved buffer, that is the number of
    /// samples per channel.
    pub fn num_frames(&self) -> (r: usize)
        requires
            self.num_channels > 0,
        ensures
            r == frames_in(self.data@.len() as int, self.num_channels as int),
    {
        self.data.len() / (self.num_channels as usize)
    }

    /// Appends `other` to this buffer when both have the same channel count;
    /// otherwise this buffer becomes `other`.
    pub fn accumulate(&mut self, other: AudioBuffer)
        ensures
            old(self).num_channels == other.num_channels ==> {
                &&& final(self).data@ == old(self).data@ + other.data@
                &&& final(self).num_channels == old(self).num_channels
            },
            old(self).num_channels != other.num_channels ==> *final(self) == other,
    {
        if self.num_channels != other.num_channels {
            *self = other;
        } else {
            let mut other = other;
            self.data.append(&mut other.data);
        }
    }

    /// The deinterleaved channels of this buffer: channel `c` holds the
    /// sample of channel `c` of every complete frame.
    pub fn deinterleave(&self) -> (r: Vec<Vec<u32>>)
        requires
            self.num_channels > 0,
        ensures
            r@.len() == self.num_channels,
            forall|c: int| 0 <= c < self.num_channels ==> {
                &&& #[trigger] r@[c]@.len() == frames_in(self.data@.len() as int, self.num_channels as int)
                &&& forall|f: int| 0 <= f < r@[c]@.len() ==>
                    r@[c]@[f] == self.data@[f * self.num_channels + c]
            },
            vec_views(r@) == deinterleaved(self.data@, self.num_channels as int),
    {
        let n: usize = self.num_channels as usize;
        let len: usize = self.data.len();
        let frames: usize = len / n;
        let mut out: Vec<Vec<u32>> = Vec::new();
        let mut c: usize = 0;
        while c < n
            invariant
                n == self.num_channels,
                n > 0,
                len == self.data@.len(),
                frames == frames_in(self.data@.len() as int, n as int),
                c <= n,
                out@.len() == c,
                forall|k: int| 0 <= k < c ==> {
                    &&& #[trigger] out@[k]@.len() == frames
                    &&& forall|f: int| 0 <= f < frames ==> out@[k]@[f] == self.data@[f * n + k]
                },
            decreases n - c,
        {
            let mut channel: Vec<u32> = Vec::new();
            let mut f: usize = 0;
            while f < frames
                invariant
                    n == self.num_channels,
                    n > 0,
                    c < n,
                    len == self.data@.len(),
                    frames == frames_in(self.data@.len() as int, n as int),
                    f <= frames,
                    channel@.len() == f,
                    forall|g: int| 0 <= g < f ==> channel@[g] == self.data@[g * n + c],
                decreases frames - f,
            {
                proof {
                    lemma_frame_index_in_bounds(f as int, c as int, n as int, self.data@.len() as int);
                }
                channel.push(self.data[f * n + c]);
                f += 1;
            }
            out.push(channel);
            c += 1;
        }
        proof {
            let d = deinterleaved(self.data@, n as int);
            assert forall|k: int| 0 <= k < n implies vec_views(out@)[k] =~= d[k] by {
                assert(out@[k]@.len() == frames);
            }
            assert(vec_views(out@) =~= d);
        }
        out
    }

    /// An interleaved buffer from deinterleaved channels of equal length:
    /// sample `f * n + c` is sample `f` of channel `c`.
    pub fn from_deinterleaved(channels: &[Vec<u32>]) -> (r: Self)
        requires
            channels@.len() <= u32::MAX,
            channels@.len() > 0 ==> forall|c: int| 0 <= c < channels@.len() ==>
                (#[trigger] channels@[c])@.len() == channels@[0]@.len(),
            channels@.len() > 0 ==> channels@.len() * channels@[0]@.len() <= usize::MAX,
        ensures
            r.num_channels == channels@.len(),
            channels@.len() == 0 ==> r.data@.len() == 0,
            channels@.len() > 0 ==> {
                &&& r.data@.len() == channels@.len() * channels@[0]@.len()
                &&& forall|f: int, c: int|
                    0 <= f < channels@[0]@.len() && 0 <= c < channels@.len() ==>
                    r.data@[f * channels@.len() + c] == #[trigger] channels@[c]@[f]
            },
            r.data@ == interleaved(vec_views(channels@)),
    {
        let n: usize = channels.len();
        let mut data: Vec<u32> = Vec::new();
        if n == 0 {
            return AudioBuffer { data, num_channels: 0 };
        }
        let frames: usize = channels[0].len();
        let mut f: usize = 0;
        while f < frames
            invariant
                n == channels@.len(),
                n > 0,
                frames == channels@[0]@.len(),
                n * frames <= usize::MAX,
                forall|c: int| 0 <= c < n ==> (#[trigger] channels@[c])@.len() == frames,
                f <= frames,
                data@.len() == f * n,
                forall|g: int, c: int| 0 <= g < f && 0 <= c < n ==>
                    data@[g * n + c] == #[trigger] channels@[c]@[g],
            decreases frames - f,
        {
            let ghost before = data@;
            let mut c: usize = 0;
            while c < n
                invariant
                    n == channels@.len(),
                    n > 0,
                    f < frames,
                    frames == channels@[0]@.len(),
                    forall|k: int| 0 <= k < n ==> (#[trigger] channels@[k])@.len() == frames,
                    c <= n,
                    before.len() == f * n,
                    data@.len() == f * n + c,
                    forall|i: int| 0 <= i < f * n ==> data@[i] == before[i],
                    forall|k: int| 0 <= k < c ==> data@[f * n + k] == #[trigger] channels@[k]@[f as int],
                decreases n - c,
            {
                data.push(channels[c][f]);
                c += 1;
            }
            proof {
                assert forall|g: int, c: int| 0 <= g < f + 1 && 0 <= c < n implies
                    data@[g * n + c] == #[trigger] channels@[c]@[g] by {
                    if g < f {
                        lemma_index_below(g, c, n as int, f as int);
                        assert(data@[g * n + c] == before[g * n + c]);
                    }
                }
                assert((f + 1) * n == f * n + n) by (nonlinear_arith);
            }
            f += 1;
        }
        assert(n * frames == frames * n) by (nonlinear_arith);
        proof {
            let views = vec_views(channels@);
            let want = interleaved(views);
            assert(want.len() == data@.len());
            assert forall|i: int| 0 <= i < data@.len() implies data@[i] == want[i] by {
                let ni = n as int;
                vstd::arithmetic::div_mod::lemma_fundamental_div_mod(i, ni);
                vstd::arithmetic::div_mod::lemma_mod_bound(i, ni);
                let q = i / ni;
                let r = i % ni;
                assert(0 <= q < frames) by (nonlinear_arith)
                    requires i == ni * q + r, 0 <= r < ni, 0 <= i < frames * ni, ni > 0;
                assert(q * ni + r == i) by (nonlinear_arith)
                    requires i == ni * q + r;
                assert(data@[q * ni + r] == channels@[r]@[q]);
            }
            assert(data@ =~= want);
        }
        AudioBuffer { data, num_channels: n as u32 }
    }
}

/// The samples of each vector.
pub open spec fn vec_views(v: Seq<Vec<u32>>) -> Seq<Seq<u32>> {
    v.map_values(|x: Vec<u32>| x@)
}

/// Channel `c` of interleaved samples of `n` channels: its sample of every
/// complete frame.
pub open spec fn channel_of(data: Seq<u32>, n: int, c: int) -> Seq<u32> {
    Seq::new(frames_in(data.len() as int, n) as nat, |f: int| data[f * n + c])
}

/// Interleaved samples of `n` channels, split into their channels.
pub open spec fn deinterleaved(data: Seq<u32>, n: int) -> Seq<Seq<u32>> {
    Seq::new(n as nat, |c: int| channel_of(data, n, c))
}

/// Channels of equal length, interleaved: sample `i` is sample `i / n` of
/// channel `i % n`.
pub open spec fn interleaved(channels: Seq<Seq<u32>>) -> Seq<u32> {
    let n = channels.len() as int;
    if n == 0 {
        Seq::empty()
    } else {
        Seq::new((n * channels[0].len()) as nat, |i: int| channels[i % n][i / n])
    }
}

/// All the channels have the length of the first.
pub open spec fn rectangular(channels: Seq<Seq<u32>>) -> bool {
    forall|c: int| 0 <= c < channels.len() ==> (#[trigger] channels[c]).len() == channels[0].len()
}

/// Splitting interleaved samples into their channels and interleaving the
/// channels again gives back the samples, when they hold complete frames.
pub proof fn lemma_deinterleave_then_interleave(data: Seq<u32>, n: int)
    requires
        n > 0,
        (data.len() as int) % n == 0,
    ensures
        interleaved(deinterleaved(data, n)) == data,
{
    let chans = deinterleaved(data, n);
    let k = (data.len() as int) / n;
    vstd::arithmetic::div_mod::lemma_fundamental_div_mod(data.len() as int, n);
    assert(chans.len() == n);
    assert(chans[0].len() == k);
    assert(n * k == data.len());
    let out = interleaved(chans);
    assert(out.len() == data.len());
    assert forall|i: int| 0 <= i < data.len() implies out[i] == data[i] by {
        vstd::arithmetic::div_mod::lemma_fundamental_div_mod(i, n);
        let q = i / n;
        let r = i % n;
        assert(0 <= r < n) by {
            vstd::arithmetic::div_mod::lemma_mod_bound(i, n);
        }
        assert(0 <= q < k) by (nonlinear_arith)
            requires i == n * q + r, 0 <= r < n, 0 <= i < n * k, n > 0;
        assert(q * n + r == i) by (nonlinear_arith)
            requires i == n * q + r;
        assert(chans[r][q] == data[q * n + r]);
    }
    assert(out =~= data);
}

/// Interleaving channels of equal length and splitting the samples into
/// their channels again gives back the channels.
pub proof fn lemma_interleave_then_deinterleave(channels: Seq<Seq<u32>>)
    requires
        channels.len() > 0,
        rectangular(channels),
    ensures
        deinterleaved(interleaved(channels), channels.len() as int) == channels,
{
    let n = channels.len() as int;
    let m = channels[0].len() as int;
    let data = interleaved(channels);
    assert(data.len() == n * m);
    assert(frames_in(data.len() as int, n) == m) by {
        vstd::arithmetic::div_mod::lemma_fundamental_div_mod_converse_div(n * m, n, m, 0);
        assert(m * n + 0 == n * m) by (nonlinear_arith);
    }
    let out = deinterleaved(data, n);
    assert forall|c: int| 0 <= c < n implies out[c] =~= channels[c] by {
        assert(out[c].len() == m);
        assert(channels[c].len() == m);
        assert forall|f: int| 0 <= f < m implies out[c][f] == channels[c][f] by {
            let i = f * n + c;
            assert(0 <= i < n * m) by (nonlinear_arith)
                requires 0 <= f < m, 0 <= c < n, i == f * n + c;
            vstd::arithmetic::div_mod::lemma_fundamental_div_mod_converse_mod(i, n, f, c);
            vstd::arithmetic::div_mod::lemma_fundamental_div_mod_converse_div(i, n, f, c);
            assert(data[i] == channels[i % n][i / n]);
        }
    }
    assert(out =~= channels);
}

/// Sample `c` of frame `f` comes before every sample of frame `frames`
/// when `f < frames`.
pub proof fn lemma_index_below(f: int, c: int, n: int, frames: int)
    requires
        0 <= f < frames,
        0 <= c < n,
    ensures
        0 <= f * n + c < frames * n,
{
    assert(0 <= f * n + c < frames * n) by (nonlinear_arith)
        requires 0 <= f < frames, 0 <= c < n;
}

/// Sample `c` of frame `f` lies inside a buffer of `len` samples
/// when `f` is one of its complete frames.
pub proof fn lemma_frame_index_in_bounds(f: int, c: int, n: int, len: int)
    requires
        0 <= f,
        0 <= c < n,
        f < len / n,
    ensures
        0 <= f * n + c < len,
        f * n + c < (f + 1) * n,
{
    assert(f * n + c < (f + 1) * n) by (nonlinear_arith)
        requires 0 <= c < n;
    assert((f + 1) * n <= (len / n) * n) by (nonlinear_arith)
        requires f + 1 <= len / n, n > 0;
    assert((len / n) * n <= len) by (nonlinear_arith)
        requires n > 0;
    assert(0 <= f * n) by (nonlinear_arith)
        requires 0 <= f, n > 0;
}

/// An audio device of the host, by name, with its number of channels.
#[derive(Clone, Debug, PartialEq, Eq)]
pub struct AudioDevice {
    pub name: String,
    pub num_channels: usize,
}

/// The channels of a device that a stream reads or writes.
#[derive(Debug, PartialEq, Eq)]
pub enum AudioChannelSelection {
    Mono(usize),
    Range(Range<usize>),
    Multi(Vec<usize>),
}

/// `s` without repeats: each value where it first occurs.
pub open spec fn dedup(s: Seq<usize>) -> Seq<usize>
    decreases s.len(),
{
    if s.len() == 0 {
        s
    } else if dedup(s.drop_last()).contains(s.last()) {
        dedup(s.drop_last())
    } else {
        dedup(s.drop_last()).push(s.last())
    }
}

/// The integers from `start` up to, not including, `end`.
pub open spec fn range_seq(start: usize, end: usize) -> Seq<usize> {
    Seq::new(if start < end { (end - start) as nat } else { 0 }, |i: int| (start + i) as usize)
}

/// The channels that a selection names, each once.
pub open spec fn selected_channels(selection: AudioChannelSelection) -> Seq<usize> {
    match selection {
        AudioChannelSelection::Mono(chan) => seq![chan],
        AudioChannelSelection::Range(r) => range_seq(r.start, r.end),
        AudioChannelSelection::Multi(list) => dedup(list@),
    }
}

/// A device of `num_channels` channels can stream the selection: every
/// channel it names exists on the device, and a range names at least one.
pub open spec fn selection_fits(selection: AudioChannelSelection, num_channels: usize) -> bool {
    match selection {
        AudioChannelSelection::Mono(chan) => chan < num_channels,
        AudioChannelSelection::Range(r) => r.start < r.end && r.end <= num_channels,
        AudioChannelSelection::Multi(list) => forall|i: int|
            0 <= i < list@.len() ==> #[trigger] list@[i] < num_channels,
    }
}

/// Whether `selection` names channel `x`.
pub open spec fn names_channel(selection: AudioChannelSelection, x: usize) -> bool {
    match selection {
        AudioChannelSelection::Mono(chan) => x == chan,
        AudioChannelSelection::Range(r) => r.start <= x < r.end,
        AudioChannelSelection::Multi(list) => list@.contains(x),
    }
}

/// The channels listed for a selection (by `to_vec`, and counted by
/// `count`) are exactly the channels it names, each once.
pub proof fn lemma_selection_lists_each_channel_once(selection: AudioChannelSelection)
    ensures
        selected_channels(selection).no_duplicates(),
        forall|x: usize| selected_channels(selection).contains(x) <==> names_channel(selection, x),
{
    match selection {
        AudioChannelSelection::Mono(chan) => {
            assert forall|x: usize| selected_channels(selection).contains(x) <==> x == chan by {
                if x == chan {
                    assert(selected_channels(selection)[0] == chan);
                }
            }
        },
        AudioChannelSelection::Range(r) => {
            let s = range_seq(r.start, r.end);
            assert forall|x: usize| s.contains(x) <==> r.start <= x < r.end by {
                if r.start <= x < r.end {
                    assert(s[x - r.start] == x);
                }
            }
        },
        AudioChannelSelection::Multi(list) => {
            lemma_dedup(list@);
        },
    }
}

/// `dedup` holds each value of `s` once, and nothing else.
pub proof fn lemma_dedup(s: Seq<usize>)
    ensures
        dedup(s).no_duplicates(),
        forall|x: usize| dedup(s).contains(x) <==> s.contains(x),
        dedup(s).len() <= s.len(),
    decreases s.len(),
{
    if s.len() > 0 {
        let t = s.drop_last();
        lemma_dedup(t);
        assert forall|x: usize| s.contains(x) <==> t.contains(x) || x == s.last() by {
            if s.contains(x) {
                let i = choose|i: int| 0 <= i < s.len() && s[i] == x;
                if i < t.len() {
                    assert(t[i] == x);
                }
            }
            if t.contains(x) {
                let i = choose|i: int| 0 <= i < t.len() && t[i] == x;
                assert(s[i] == x);
            }
            if x == s.last() {
                assert(s[s.len() - 1] == x);
            }
        }
        if !dedup(t).contains(s.last()) {
            let d = dedup(t).push(s.last());
            assert forall|x: usize| d.contains(x) <==> dedup(t).contains(x) || x == s.last() by {
                if d.contains(x) {
                    let i = choose|i: int| 0 <= i < d.len() && d[i] == x;
                    if i < dedup(t).len() {
                        assert(dedup(t)[i] == x);
                    }
                }
                if dedup(t).contains(x) {
                    let i = choose|i: int| 0 <= i < dedup(t).len() && dedup(t)[i] == x;
                    assert(d[i] == x);
                }
                if x == s.last() {
                    assert(d[d.len() - 1] == x);
                }
            }
        }
    }
}

/// Devices are the same when they have the same name and channel count.
pub open spec fn same_device(a: AudioDevice, b: AudioDevice) -> bool {
    a.name@ == b.name@ && a.num_channels == b.num_channels
}

impl AudioDevice {
    /// A copy of this device.
    pub fn duplicate(&self) -> (r: Self)
        ensures
            same_device(r, *self),
    {
        AudioDevice { name: self.name.clone(), num_channels: self.num_channels }
    }

    /// Whether `other` is the same device.
    pub fn is_same(&self, other: &AudioDevice) -> (r: bool)
        ensures
            r == same_device(*self, *other),
    {
        self.num_channels == other.num_channels && self.name == other.name
    }

    /// Whether this device can stream the selected channels.
    pub fn supports_channels(&self, selection: &AudioChannelSelection) -> (r: bool)
        ensures
            r == selection_fits(*selection, self.num_channels),
    {
        let n = self.num_channels;
        match selection {
            AudioChannelSelection::Mono(chan) => *chan < n,
            AudioChannelSelection::Range(r) => r.start < r.end && r.end <= n,
            AudioChannelSelection::Multi(list) => {
                let mut i: usize = 0;
                while i < list.len()
                    invariant
                        *selection == AudioChannelSelection::Multi(*list),
                        n == self.num_channels,
                        i <= list@.len(),
                        forall|k: int| 0 <= k < i ==> #[trigger] list@[k] < n,
                    decreases list.len() - i,
                {
                    if list[i] >= n {
                        assert(list@[i as int] >= n);
                        assert(!selection_fits(*selection, n)) by {
                            match *selection {
                                AudioChannelSelection::Multi(l) => {
                                    assert(l@ == list@);
                                    assert(l@[i as int] >= n);
                                },
                                _ => {},
                            }
                        }
                        return false;
                    }
                    i += 1;
                }
                true
            },
        }
    }
}

/// Two selections name the same channels in the same way.
pub open spec fn same_selection(a: AudioChannelSelection, b: AudioChannelSelection) -> bool {
    match (a, b) {
        (AudioChannelSelection::Mono(x), AudioChannelSelection::Mono(y)) => x == y,
        (AudioChannelSelection::Range(x), AudioChannelSelection::Range(y)) => x.start == y.start
            && x.end == y.end,
        (AudioChannelSelection::Multi(x), AudioChannelSelection::Multi(y)) => x@ == y@,
        _ => false,
    }
}

impl AudioChannelSelection {
    /// A copy of this selection.
    pub fn duplicate(&self) -> (r: Self)
        ensures
            same_selection(r, *self),
            selected_channels(r) == selected_channels(*self),
            forall|n: usize| selection_fits(r, n) == selection_fits(*self, n),
    {
        match self {
            AudioChannelSelection::Mono(c) => AudioChannelSelection::Mono(*c),
            AudioChannelSelection::Range(r) => AudioChannelSelection::Range(r.start..r.end),
            AudioChannelSelection::Multi(list) => {
                let mut v: Vec<usize> = Vec::new();
                let mut i: usize = 0;
                while i < list.len()
                    invariant
                        i <= list@.len(),
                        v@ == list@.subrange(0, i as int),
                    decreases list.len() - i,
                {
                    v.push(list[i]);
                    i += 1;
                }
                assert(v@ =~= list@);
                AudioChannelSelection::Multi(v)
            },
        }
    }

    /// All the channels selected, each once: a list keeps the first
    /// occurrence of each channel.
    pub fn to_vec(self) -> (r: Vec<usize>)
        ensures
            r@ == selected_channels(self),
            r@.no_duplicates(),
    {
        match self {
            AudioChannelSelection::Mono(chan) => {
                let mut v: Vec<usize> = Vec::new();
                v.push(chan);
                assert(v@ =~= seq![chan]);
                v
            },
            AudioChannelSelection::Range(r) => {
                let mut v: Vec<usize> = Vec::new();
                let mut c = r.start;
                while c < r.end
                    invariant
                        r.start <= c,
                        c <= r.end || c == r.start,
                        v@ == range_seq(r.start, c),
                    decreases r.end - c,
                {
                    v.push(c);
                    c += 1;
                    assert(v@ =~= range_seq(r.start, c));
                }
                assert(v@ =~= range_seq(r.start, r.end));
                v
            },
            AudioChannelSelection::Multi(list) => {
                let r = dedup_channels(&list);
                proof {
                    lemma_dedup(list@);
                }
                r
            },
        }
    }

    /// Number of distinct channels selected: none for a range that ends
    /// before it starts.
    pub fn count(&self) -> (r: usize)
        ensures
            r == selected_channels(*self).len(),
    {
        match self {
            AudioChannelSelection::Mono(_) => 1,
            AudioChannelSelection::Range(r) => if r.start <= r.end {
                r.end - r.start
            } else {
                0
            },
            AudioChannelSelection::Multi(list) => dedup_channels(list).len(),
        }
    }
}

/// `list` without repeats, each channel where it first occurs.
pub fn dedup_channels(list: &Vec<usize>) -> (r: Vec<usize>)
    ensures
        r@ == dedup(list@),
{
    let mut out: Vec<usize> = Vec::new();
    let mut i: usize = 0;
    while i < list.len()
        invariant
            i <= list@.len(),
            out@ == dedup(list@.subrange(0, i as int)),
        decreases list.len() - i,
    {
        let x = list[i];
        let mut found = false;
        let mut j: usize = 0;
        while j < out.len()
            invariant
                j <= out@.len(),
                found <==> exists|k: int| 0 <= k < j && out@[k] == x,
            decreases out.len() - j,
        {
            if out[j] == x {
                found = true;
            }
            j += 1;
        }
        proof {
            assert(list@.subrange(0, i + 1).drop_last() =~= list@.subrange(0, i as int));
            assert(found <==> out@.contains(x));
        }
        if !found {
            out.push(x);
        }
        i += 1;
    }
    assert(list@.subrange(0, list@.len() as int) =~= list@);
    out
}

/// A device that a stream is connected to, with the channels it streams and
/// its sample rate.
#[derive(Debug)]
pub struct AudioDeviceConnection {
    pub device: AudioDevice,
    pub channels: AudioChannelSelection,
    pub sample_rate: u32,
}

/// Something that can be connected to an audio device.
pub trait AudioInterface {
    /// Whether the audio source is accessible or connected.
    spec fn accessible(&self) -> bool;

    /// The audio devices that this source can connect to.
    spec fn audio_devices(&self) -> Vec<AudioDevice>;

    /// The device and channels that a connection was last asked for, if any.
    spec fn requested_connection(&self) -> Option<(AudioDevice, AudioChannelSelection)>;

    /// Whether the audio source is currently accessible or connected.
    fn is_accessible(&self) -> (r: bool)
        ensures
            r == self.accessible(),
    ;

    /// The audio devices that this source can connect to.
    fn list_audio_devices(&self) -> (r: &[AudioDevice])
        ensures
            r@ == self.audio_devices()@,
    ;

    /// Connects to `audio_device`, streaming the selected channels: they are
    /// the connection asked for from then on, whether it succeeds or not.
    fn connect_to_audio_device(
        &mut self,
        audio_device: &AudioDevice,
        channel_selection: AudioChannelSelection,
    ) -> (r: Result<(), AudError>)
        ensures
            final(self).requested_connection() matches Some((device, channels)) && same_device(device, *audio_device)
                && same_selection(channels, channel_selection),
    ;

    /// The device connected to, if any.
    fn connected_audio_device(&self) -> Option<&AudioDeviceConnection>;

    /// Processes pending messages, such as fetching audio from, or pushing
    /// audio to, the device.
    fn process_audio_events(&mut self) -> Result<(), AudError>;
}

/// Something that provides audio.
pub trait AudioProviding {
    /// The audio that the next retrieval hands out; `None` stands for an
    /// empty buffer without channels.
    spec fn available_audio(&self) -> Option<AudioBuffer>;

    /// The latest audio available; this does not block.
    fn retrieve_audio_buffer(&mut self) -> (r: AudioBuffer)
        ensures
            old(self).available_audio() matches Some(b) ==> r.data@ == b.data@ && r.num_channels == b.num_channels,
            old(self).available_audio() is None ==> r.data@.len() == 0 && r.num_channels == 0,
    ;
}

/// The samples that a provider's next retrieval hands out (see
/// `AudioProviding::available_audio`).
pub open spec fn available_samples(audio: Option<AudioBuffer>) -> Seq<u32> {
    match audio {
        Some(b) => b.data@,
        None => Seq::empty(),
    }
}

/// The channel count of the audio that a provider's next retrieval hands
/// out.
pub open spec fn available_channels(audio: Option<AudioBuffer>) -> u32 {
    match audio {
        Some(b) => b.num_channels,
        None => 0,
    }
}

/// Something that consumes audio.
pub trait AudioConsuming {
    /// Pushes `buffer` into the connected device.
    fn consume_audio_buffer(&mut self, buffer: AudioBuffer) -> Result<(), AudError>;
}

/// Whether the samples of all `buffers` together can be counted by a `u32`.
pub fn concat_fits(buffers: &[AudioBuffer]) -> (r: bool)
    ensures
        r == (concat_data(buffers@).len() <= u32::MAX),
{
    let mut total: u64 = 0;
    let mut i: usize = 0;
    while i < buffers.len()
        invariant
            i <= buffers@.len(),
            total == concat_data(buffers@.take(i as int)).len(),
            total <= u32::MAX,
        decreases buffers.len() - i,
    {
        assert(buffers@.take(i + 1).drop_last() =~= buffers@.take(i as int));
        let len = buffers[i].data.len() as u64;
        if len > 0xffff_ffff - total {
            proof {
                lemma_concat_prefix_grows(buffers@, i as int + 1);
            }
            return false;
        }
        total = total + len;
        i += 1;
    }
    assert(buffers@.take(i as int) =~= buffers@);
    true
}

/// The samples of the first `i` buffers are no more than those of all of them.
pub proof fn lemma_concat_prefix_grows(buffers: Seq<AudioBuffer>, i: int)
    requires
        0 <= i <= buffers.len(),
    ensures
        concat_data(buffers.take(i)).len() <= concat_data(buffers).len(),
    decreases buffers.len() - i,
{
    if i < buffers.len() {
        lemma_concat_prefix_grows(buffers, i + 1);
        assert(buffers.take(i + 1).drop_last() =~= buffers.take(i));
    } else {
        assert(buffers.take(i) =~= buffers);
    }
}

} // verus!
