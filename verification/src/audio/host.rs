use vstd::prelude::*;

use crossbeam::channel::Receiver;

use crate::audio::interface::{concat_data, concat_fits, frames_in, lemma_index_below, AudioBuffer};
use crate::channel::{poll, Polled};

verus! {

/// Sample `chan` of frame `frame` in interleaved samples of `num_channels` channels.
pub open spec fn sample_at(data: Seq<u32>, num_channels: int, frame: int, chan: int) -> u32 {
    data[frame * num_channels + chan]
}

/// Sample `f * n + c` exists for frame `f` and channel `c`.
pub proof fn lemma_frame_position(f: int, c: int, n: int)
    requires
        0 <= f,
        0 <= c < n,
    ensures
        0 <= f * n,
        f * n + c < (f + 1) * n,
        (f + 1) * n == f * n + n,
{
    assert(0 <= f * n) by (nonlinear_arith)
        requires 0 <= f, 0 < n;
    assert((f + 1) * n == f * n + n) by (nonlinear_arith);
}

/// Every selected channel can be read in every complete frame of `len`
/// interleaved samples of `num_input_channels` channels.
pub open spec fn channels_readable(len: int, num_input_channels: int, selected: Seq<usize>) -> bool {
    frames_in(len, num_input_channels) > 0 ==> forall|j: int| 0 <= j < selected.len() ==>
        (frames_in(len, num_input_channels) - 1) * num_input_channels + #[trigger] selected[j] < len
}

/// The buffer of the selected channels of an interleaved host buffer: for
/// every complete frame of the input, the samples of the selected channels in
/// the order of the selection. This is what the input stream pushes for each
/// block the host hands it (once its samples are converted to `f32`).
pub fn enqueue_audio_buffer(input: &[u32], num_input_channels: usize, selected_channels: &[usize]) -> (r: AudioBuffer)
    requires
        num_input_channels > 0,
        selected_channels@.len() <= u32::MAX,
        frames_in(input@.len() as int, num_input_channels as int) * selected_channels@.len() <= u32::MAX,
        channels_readable(input@.len() as int, num_input_channels as int, selected_channels@),
    ensures
        r.num_channels == selected_channels@.len(),
        r.data@.len() == frames_in(input@.len() as int, num_input_channels as int) * selected_channels@.len(),
        forall|f: int, j: int|
            0 <= f < frames_in(input@.len() as int, num_input_channels as int) && 0 <= j
                < selected_channels@.len() ==> #[trigger] sample_at(r.data@, selected_channels@.len() as int, f, j)
                == sample_at(input@, num_input_channels as int, f, selected_channels@[j] as int),
{
    let n = num_input_channels;
    let k = selected_channels.len();
    let len = input.len();
    let num_frames = len / n;
    let mut data: Vec<u32> = Vec::new();
    let mut f: usize = 0;
    while f < num_frames
        invariant
            n == num_input_channels,
            n > 0,
            k == selected_channels@.len(),
            num_frames == frames_in(input@.len() as int, n as int),
            num_frames * k <= u32::MAX,
            channels_readable(input@.len() as int, n as int, selected_channels@),
            len == input@.len(),
            f <= num_frames,
            data@.len() == f * k,
            forall|g: int, j: int| 0 <= g < f && 0 <= j < k ==> #[trigger] sample_at(data@, k as int, g, j)
                == sample_at(input@, n as int, g, selected_channels@[j] as int),
        decreases num_frames - f,
    {
        let ghost before = data@;
        let mut j: usize = 0;
        while j < k
            invariant
                n == num_input_channels,
                n > 0,
                k == selected_channels@.len(),
                num_frames == frames_in(input@.len() as int, n as int),
                num_frames * k <= u32::MAX,
                channels_readable(input@.len() as int, n as int, selected_channels@),
                f < num_frames,
                len == input@.len(),
                before.len() == f * k,
                forall|g: int, m: int| 0 <= g < f && 0 <= m < k ==> #[trigger] sample_at(before, k as int, g, m)
                    == sample_at(input@, n as int, g, selected_channels@[m] as int),
                j <= k,
                data@.len() == f * k + j,
                forall|i: int| 0 <= i < f * k ==> data@[i] == before[i],
                forall|m: int| 0 <= m < j ==> #[trigger] sample_at(data@, k as int, f as int, m)
                    == sample_at(input@, n as int, f as int, selected_channels@[m] as int),
            decreases k - j,
        {
            let c = selected_channels[j];
            proof {
                let ff = f as int;
                let nf = num_frames as int;
                assert(ff * (n as int) <= (nf - 1) * (n as int)) by (nonlinear_arith)
                    requires ff <= nf - 1, n > 0;
                assert((nf - 1) * (n as int) + c < input@.len());
                assert(ff * (n as int) + c < len);
            }
            let ghost prev = data@;
            data.push(input[f * n + c]);
            proof {
                assert forall|m: int| 0 <= m < j + 1 implies #[trigger] sample_at(data@, k as int, f as int, m)
                    == sample_at(input@, n as int, f as int, selected_channels@[m] as int) by {
                    if m < j {
                        assert(data@[f * k + m] == prev[f * k + m]);
                        assert(sample_at(prev, k as int, f as int, m) == sample_at(
                            input@,
                            n as int,
                            f as int,
                            selected_channels@[m] as int,
                        ));
                    }
                }
                assert forall|i: int| 0 <= i < f * k implies data@[i] == before[i] by {
                    assert(data@[i] == prev[i]);
                }
            }
            j += 1;
        }
        proof {
            assert forall|g: int, m: int| 0 <= g < f + 1 && 0 <= m < k implies #[trigger] sample_at(
                data@,
                k as int,
                g,
                m,
            ) == sample_at(input@, n as int, g, selected_channels@[m] as int) by {
                if g < f {
                    lemma_index_below(g, m, k as int, f as int);
                    assert(data@[g * k + m] == before[g * k + m]);
                    assert(sample_at(before, k as int, g, m) == sample_at(
                        input@,
                        n as int,
                        g,
                        selected_channels@[m] as int,
                    ));
                }
            }
            assert((f + 1) * k == f * k + k) by (nonlinear_arith);
            assert((f as int + 1) * (k as int) <= (num_frames as int) * (k as int)) by (nonlinear_arith)
                requires f + 1 <= num_frames;
        }
        f += 1;
    }
    AudioBuffer { data, num_channels: k as u32 }
}

/// The channel of a buffer of `buffer_channels` channels that feeds output
/// channel `write_chan`: channel 0 of a mono buffer, otherwise the same
/// channel, or the last one when the buffer has fewer channels.
pub open spec fn read_channel(buffer_channels: int, write_chan: int) -> int {
    if buffer_channels == 1 {
        0
    } else if write_chan < buffer_channels - 1 {
        write_chan
    } else {
        buffer_channels - 1
    }
}

/// The sample written to output channel `c` of frame `f`: from the buffer
/// while it has frames, silence (0.0) after.
pub open spec fn dequeued_sample(buffer: AudioBuffer, f: int, c: int) -> u32 {
    let n = buffer.num_channels as int;
    if f < frames_in(buffer.data@.len() as int, n) {
        buffer.data@[f * n + read_channel(n, c)]
    } else {
        0u32
    }
}

/// A buffer of as many channels as the output plays each output channel
/// from its own channel, in every frame that it covers.
pub proof fn lemma_dequeue_full_width(buffer: AudioBuffer, f: int, c: int)
    requires
        buffer.num_channels > 0,
        0 <= c < buffer.num_channels,
        0 <= f < frames_in(buffer.data@.len() as int, buffer.num_channels as int),
    ensures
        dequeued_sample(buffer, f, c) == sample_at(buffer.data@, buffer.num_channels as int, f, c),
{
}

/// Writes `buffer` into an interleaved host output buffer of
/// `total_num_channels` channels: every selected output channel of every
/// frame (a last, partial frame included) gets its sample from the buffer,
/// or silence once the buffer has run out of frames; other channels are left
/// as they were. An empty buffer without channels leaves the output as it is.
pub fn dequeue_audio_buffer(
    output: &mut Vec<u32>,
    total_num_channels: usize,
    channels: &[usize],
    buffer: &AudioBuffer,
)
    requires
        total_num_channels > 0,
    ensures
        final(output)@.len() == old(output)@.len(),
        buffer.num_channels == 0 ==> final(output)@ == old(output)@,
        buffer.num_channels > 0 ==> forall|f: int, c: int|
            0 <= f && 0 <= c < total_num_channels && f * total_num_channels + c < old(output)@.len()
                ==> #[trigger] sample_at(final(output)@, total_num_channels as int, f, c) == if channels@.contains(
                c as usize,
            ) {
                dequeued_sample(*buffer, f, c)
            } else {
                sample_at(old(output)@, total_num_channels as int, f, c)
            },
{
    let bn = buffer.num_channels as usize;
    if bn == 0 {
        return;
    }
    let total = total_num_channels;
    let len = output.len();
    let blen = buffer.data.len();
    let buffer_frames = blen / bn;
    let ghost orig = output@;
    let mut f: usize = 0;
    let mut start: usize = 0;
    while start < len
        invariant
            total == total_num_channels,
            total > 0,
            bn == buffer.num_channels,
            bn > 0,
            buffer_frames == frames_in(buffer.data@.len() as int, bn as int),
            blen == buffer.data@.len(),
            len == orig.len(),
            output@.len() == len,
            start <= len,
            start < len ==> start == f * total,
            start == len ==> len <= f * total,
            forall|p: int| start <= p < len ==> output@[p] == orig[p],
            forall|g: int, c: int|
                0 <= g < f && 0 <= c < total && g * total + c < len ==> #[trigger] sample_at(output@, total as int, g, c)
                    == if channels@.contains(c as usize) {
                    dequeued_sample(*buffer, g, c)
                } else {
                    sample_at(orig, total as int, g, c)
                },
        decreases len - start,
    {
        let mut c: usize = 0;
        while c < total && c < len - start
            invariant
                total == total_num_channels,
                total > 0,
                bn == buffer.num_channels,
                bn > 0,
                buffer_frames == frames_in(buffer.data@.len() as int, bn as int),
                blen == buffer.data@.len(),
                len == orig.len(),
                output@.len() == len,
                start == f * total,
                start < len,
                c <= total,
                forall|p: int| start + c <= p < len ==> output@[p] == orig[p],
                forall|g: int, d: int|
                    0 <= g < f && 0 <= d < total && g * total + d < len ==> #[trigger] sample_at(output@, total as int, g, d)
                        == if channels@.contains(d as usize) {
                        dequeued_sample(*buffer, g, d)
                    } else {
                        sample_at(orig, total as int, g, d)
                    },
                forall|d: int| 0 <= d < c && start + d < len ==> #[trigger] output@[start + d] == if channels@.contains(
                    d as usize,
                ) {
                    dequeued_sample(*buffer, f as int, d)
                } else {
                    orig[start + d]
                },
            decreases total - c,
        {
            if contains_channel(channels, c) {
                let read_chan: usize = if bn == 1 {
                    0
                } else if c < bn - 1 {
                    c
                } else {
                    bn - 1
                };
                let value: u32 = if f < buffer_frames {
                    proof {
                        crate::audio::interface::lemma_frame_index_in_bounds(
                            f as int,
                            read_chan as int,
                            bn as int,
                            buffer.data@.len() as int,
                        );
                    }
                    buffer.data[f * bn + read_chan]
                } else {
                    0
                };
                let ghost prev = output@;
                output.set(start + c, value);
                proof {
                    assert forall|g: int, d: int|
                        0 <= g < f && 0 <= d < total && g * total + d < len implies #[trigger] sample_at(
                        output@,
                        total as int,
                        g,
                        d,
                    ) == sample_at(prev, total as int, g, d) by {
                        lemma_index_below(g, d, total as int, f as int);
                    }
                    assert forall|d: int| 0 <= d < c && start + d < len implies #[trigger] output@[start + d]
                        == prev[start + d] by {}
                }
            }
            c += 1;
        }
        proof {
            assert forall|g: int, d: int|
                0 <= g < f + 1 && 0 <= d < total && g * total + d < len implies #[trigger] sample_at(output@, total as int, g, d)
                == if channels@.contains(d as usize) {
                dequeued_sample(*buffer, g, d)
            } else {
                sample_at(orig, total as int, g, d)
            } by {
                if g == f {
                    assert(g * total + d == start + d);
                }
            }
            lemma_frame_position(f as int, 0, total as int);
            assert(f <= f * total) by (nonlinear_arith)
                requires total >= 1, f >= 0;
        }
        if len - start <= total {
            proof {
                assert((f + 1) * total == f * total + total) by (nonlinear_arith);
            }
            start = len;
        } else {
            start = start + total;
        }
        f += 1;
    }
    proof {
        assert forall|g: int, c: int|
            0 <= g && 0 <= c < total_num_channels && g * total_num_channels + c < old(output)@.len()
                implies #[trigger] sample_at(output@, total_num_channels as int, g, c) == if channels@.contains(
            c as usize,
        ) {
            dequeued_sample(*buffer, g, c)
        } else {
            sample_at(old(output)@, total_num_channels as int, g, c)
        } by {
            if g >= f {
                assert(g * total >= f * total) by (nonlinear_arith)
                    requires g >= f, total > 0;
            }
        }
    }
}

/// Whether `c` is one of `channels`.
fn contains_channel(channels: &[usize], c: usize) -> (r: bool)
    ensures
        r == channels@.contains(c),
{
    let mut i: usize = 0;
    while i < channels.len()
        invariant
            i <= channels@.len(),
            forall|k: int| 0 <= k < i ==> channels@[k] != c,
        decreases channels.len() - i,
    {
        if channels[i] == c {
            assert(channels@[i as int] == c);
            return true;
        }
        i += 1;
    }
    false
}

/// The buffer size, in frames, that a stream asks of a device whose
/// supported sizes are `min` up to, not including, `max`: 512, else 1024,
/// else 256, whichever the range holds first.
pub open spec fn preferred_size_in(min: u32, max: u32) -> Option<u32> {
    if min <= 512 < max {
        Some(512u32)
    } else if min <= 1024 < max {
        Some(1024u32)
    } else if min <= 256 < max {
        Some(256u32)
    } else {
        None
    }
}

/// The buffer size that a stream asks of a device (see
/// `preferred_size_in`); none when the device does not say what it
/// supports, and the stream then keeps the device's default.
pub fn preferred_buffer_size(supported: Option<(u32, u32)>) -> (r: Option<u32>)
    ensures
        r == (match supported {
            Some((min, max)) => preferred_size_in(min, max),
            None => None,
        }),
{
    match supported {
        None => None,
        Some((min, max)) => {
            if min <= 512 && 512 < max {
                Some(512)
            } else if min <= 1024 && 1024 < max {
                Some(1024)
            } else if min <= 256 && 256 < max {
                Some(256)
            } else {
                None
            }
        },
    }
}

/// The frames of `buffer`: none when it has no channel.
pub open spec fn frames_of(buffer: AudioBuffer) -> int {
    frames_in(buffer.data@.len() as int, buffer.num_channels as int)
}

/// The frames of `buffers` together, counted up to `usize::MAX`.
pub open spec fn capped_frames(buffers: Seq<AudioBuffer>) -> int
    decreases buffers.len(),
{
    if buffers.len() == 0 {
        0
    } else {
        let sum = capped_frames(buffers.drop_last()) + frames_of(buffers.last());
        if sum <= usize::MAX {
            sum
        } else {
            usize::MAX as int
        }
    }
}

/// The buffers taken from the channel of received audio for one output
/// buffer, and how many frames they hold (counted up to `usize::MAX`).
pub struct Gathering {
    pub buffers: Vec<AudioBuffer>,
    pub num_frames: usize,
    /// Whether the last look at the channel found no buffer waiting (the
    /// channel empty or closed).
    pub ran_dry: Ghost<bool>,
}

impl Gathering {
    /// Nothing gathered yet.
    pub fn new() -> (r: Self)
        ensures
            r.buffers@.len() == 0,
            r.num_frames == 0,
            !r.ran_dry@,
    {
        Gathering { buffers: Vec::new(), num_frames: 0, ran_dry: Ghost(false) }
    }
    /// Takes in what a look at the channel found, for an output of
    /// `frames_needed` frames, and returns whether to look again: a buffer
    /// joins those gathered, and the looking goes on until they hold the
    /// frames needed; an empty or closed channel ends it.
    pub fn take(&mut self, polled: Polled<AudioBuffer>, frames_needed: usize) -> (more: bool)
        ensures
            polled matches Polled::Message(buffer) ==> {
                &&& final(self).buffers@ == old(self).buffers@.push(buffer)
                &&& final(self).num_frames == if old(self).num_frames + frames_of(buffer) <= usize::MAX {
                    old(self).num_frames + frames_of(buffer)
                } else {
                    usize::MAX as int
                }
                &&& more == (final(self).num_frames < frames_needed)
            },
            !(polled is Message) ==> *final(self) == *old(self) && !more,
    {
        match polled {
            Polled::Message(buffer) => {
                let frames: usize = if buffer.num_channels > 0 {
                    buffer.num_frames()
                } else {
                    0
                };
                self.num_frames = self.num_frames.saturating_add(frames);
                self.buffers.push(buffer);
                self.num_frames < frames_needed
            },
            _ => false,
        }
    }
}

/// Gathers the received buffers for an output of `frames_needed` frames:
/// looks at `receiver` until it is empty or closed, or the buffers hold the
/// frames needed, at most `max_looks` times.
pub fn gather_audio(receiver: &Receiver<AudioBuffer>, frames_needed: usize, max_looks: usize) -> (r: Gathering)
    ensures
        r.buffers@.len() <= max_looks,
        r.num_frames == capped_frames(r.buffers@),
        forall|i: int| 0 <= i < r.buffers@.len() - 1 ==> capped_frames(#[trigger] r.buffers@.take(i + 1))
            < frames_needed,
        r.buffers@.len() < max_looks && r.num_frames < frames_needed ==> r.ran_dry@,
        r.ran_dry@ ==> r.buffers@.len() < max_looks,
{
    let mut gathering = Gathering::new();
    let mut looks: usize = 0;
    proof {
        assert(gathering.buffers@ =~= Seq::<AudioBuffer>::empty());
    }
    while looks < max_looks
        invariant_except_break
            looks <= max_looks,
            gathering.buffers@.len() <= looks,
            gathering.num_frames == capped_frames(gathering.buffers@),
            gathering.num_frames < frames_needed || gathering.buffers@.len() == 0,
            forall|i: int| 0 <= i < gathering.buffers@.len() - 1 ==> capped_frames(
                #[trigger] gathering.buffers@.take(i + 1),
            ) < frames_needed,
            gathering.buffers@.len() == looks,
            !gathering.ran_dry@,
        ensures
            gathering.buffers@.len() <= max_looks,
            gathering.num_frames == capped_frames(gathering.buffers@),
            forall|i: int| 0 <= i < gathering.buffers@.len() - 1 ==> capped_frames(
                #[trigger] gathering.buffers@.take(i + 1),
            ) < frames_needed,
            gathering.buffers@.len() < max_looks && gathering.num_frames < frames_needed ==> gathering.ran_dry@,
            gathering.ran_dry@ ==> gathering.buffers@.len() < max_looks,
        decreases max_looks - looks,
    {
        let ghost before = gathering.buffers@;
        let polled = poll(receiver);
        let ghost found = polled is Message;
        looks += 1;
        let more = gathering.take(polled, frames_needed);
        gathering.ran_dry = Ghost(!found);
        proof {
            let after = gathering.buffers@;
            if after.len() > before.len() {
                assert(after.drop_last() =~= before);
                assert forall|i: int| 0 <= i < after.len() - 1 implies capped_frames(#[trigger] after.take(i + 1))
                    < frames_needed by {
                    assert(after.take(i + 1) =~= before.take(i + 1));
                    if i == before.len() - 1 {
                        assert(before.take(i + 1) =~= before);
                    }
                }
            }
        }
        if !more {
            break;
        }
    }
    gathering
}

/// The selected channels of output `new` hold what `dequeue_audio_buffer`
/// writes of the buffers `gathered`, joined, into output `old`.
pub open spec fn dequeued_from(
    old: Seq<u32>,
    new: Seq<u32>,
    total_num_channels: int,
    channels: Seq<usize>,
    gathered: Seq<AudioBuffer>,
) -> bool {
    exists|joined: AudioBuffer|
        #![trigger joined.data@]
        {
            &&& joined.data@ == concat_data(gathered)
            &&& joined.num_channels == gathered[0].num_channels
            &&& joined.num_channels > 0
            &&& forall|f: int, c: int|
                0 <= f && 0 <= c < total_num_channels && f * total_num_channels + c < old.len() && channels.contains(
                    c as usize,
                ) ==> #[trigger] sample_at(new, total_num_channels, f, c) == dequeued_sample(joined, f, c)
        }
}

/// Fills the host output buffer from the received audio: the buffers
/// gathered (see `gather_audio`) are joined and written out (see
/// `dequeue_audio_buffer`), and returned; buffers of more samples than a
/// `u32` counts, none, or buffers without channels leave the output as it is.
pub fn dequeue_received_audio(
    output: &mut Vec<u32>,
    total_num_channels: usize,
    channels: &[usize],
    receiver: &Receiver<AudioBuffer>,
    max_looks: usize,
) -> (gathered: Gathering)
    requires
        total_num_channels > 0,
    ensures
        gathered.buffers@.len() <= max_looks,
        gathered.num_frames == capped_frames(gathered.buffers@),
        gathered.buffers@.len() < max_looks && gathered.num_frames < (old(output)@.len() as int) / (total_num_channels as int)
            ==> gathered.ran_dry@,
        gathered.buffers@.len() > 0 && concat_data(gathered.buffers@).len() <= u32::MAX
            && gathered.buffers@[0].num_channels > 0 ==> dequeued_from(
            old(output)@,
            final(output)@,
            total_num_channels as int,
            channels@,
            gathered.buffers@,
        ),
        !(gathered.buffers@.len() > 0 && concat_data(gathered.buffers@).len() <= u32::MAX
            && gathered.buffers@[0].num_channels > 0) ==> final(output)@ == old(output)@,
        final(output)@.len() == old(output)@.len(),
        forall|f: int, c: int|
            0 <= f && 0 <= c < total_num_channels && f * total_num_channels + c < old(output)@.len()
                && !channels@.contains(c as usize) ==> #[trigger] sample_at(final(output)@, total_num_channels as int, f, c)
                == sample_at(old(output)@, total_num_channels as int, f, c),
{
    let frames_needed = output.len() / total_num_channels;
    let gathering = gather_audio(receiver, frames_needed, max_looks);
    if !concat_fits(gathering.buffers.as_slice()) {
        return gathering;
    }
    let buffer = AudioBuffer::from_buffers(gathering.buffers.as_slice());
    dequeue_audio_buffer(output, total_num_channels, channels, &buffer);
    proof {
        if buffer.num_channels > 0 {
            assert(gathering.buffers@.len() > 0);
            assert(dequeued_from(old(output)@, output@, total_num_channels as int, channels@, gathering.buffers@));
        }
    }
    gathering
}

} // verus!
