//! The drain: one tick's worth of interleaved stereo output, mixed from
//! the queue of raw samples and from every playing channel.

use vstd::prelude::*;
use crate::mixing::{
    clamp_i16,
    left_gain,
    pan_left,
    pan_right,
    right_gain,
    sat_add_i16,
    scale_sample,
    scaled_sample,
};
use crate::state::{AudioChannel, AudioState, AudioView, ChannelView};

verus! {

/// The fewest frames a drain may produce: a sixtieth of a second.
pub open spec fn minimum_frames(sample_rate: u32) -> int {
    sample_rate as int / 60
}

/// The number of frames a drain produces: what was asked for, but no
/// fewer than the minimum.
pub open spec fn drain_target(sample_rate: u32, max_frames: u32) -> int {
    if max_frames as int > minimum_frames(sample_rate) {
        max_frames as int
    } else {
        minimum_frames(sample_rate)
    }
}

/// The number of whole frames that a drain takes from the queue.
pub open spec fn frames_taken(queue: Seq<i16>, target: int) -> int {
    if (queue.len() as int) / 2 < target {
        (queue.len() as int) / 2
    } else {
        target
    }
}

/// The output before any channel is mixed in: the frames taken from the
/// queue, oldest first, then silence up to `target` frames.
pub open spec fn queue_part(queue: Seq<i16>, target: int) -> Seq<i16> {
    Seq::new(
        (2 * target) as nat,
        |k: int|
            if k < 2 * frames_taken(queue, target) {
                queue[k]
            } else {
                0i16
            },
    )
}

impl ChannelView {
    /// The channel contributes to a drain: it is active, and it has not
    /// run out or it loops.
    pub open spec fn plays(self) -> bool {
        self.active && (self.position < self.frames() || self.loop_enabled)
    }

    /// The frame a drain starts reading at: the position, or the start
    /// when the position has reached the end.
    pub open spec fn start(self) -> int {
        if self.position >= self.frames() {
            0
        } else {
            self.position
        }
    }

    /// The number of frames a drain of `target` frames mixes from the
    /// channel.
    pub open spec fn mixes(self, target: int) -> int {
        if !self.plays() {
            0
        } else if self.frames() - self.start() < target {
            self.frames() - self.start()
        } else {
            target
        }
    }

    /// The channel after a drain of `target` frames: switched off when it
    /// had run out and does not loop, advanced by what was mixed
    /// otherwise.
    pub open spec fn after_drain(self, target: int) -> ChannelView {
        if !self.active {
            self
        } else if !self.plays() {
            ChannelView { active: false, ..self }
        } else {
            ChannelView { position: self.start() + self.mixes(target), ..self }
        }
    }

    /// The sample that the channel adds to entry `k` of the output.
    pub open spec fn contribution(self, k: int) -> int {
        scaled_sample(
            self.pcm[2 * self.start() + k] as int,
            self.volume,
            if k % 2 == 0 {
                left_gain(self.pan)
            } else {
                right_gain(self.pan)
            },
        )
    }
}

/// The output after one channel was mixed into it.
pub open spec fn mixed_with(mixed: Seq<i16>, c: ChannelView, target: int) -> Seq<i16> {
    Seq::new(
        mixed.len(),
        |k: int|
            if k < 2 * c.mixes(target) {
                clamp_i16(mixed[k] as int + c.contribution(k)) as i16
            } else {
                mixed[k]
            },
    )
}

/// The output after the first `n` channels were mixed into it, in order.
pub open spec fn mixed_through(
    mixed: Seq<i16>,
    channels: Seq<ChannelView>,
    target: int,
    n: nat,
) -> Seq<i16>
    decreases n,
{
    if n == 0 {
        mixed
    } else {
        mixed_with(mixed_through(mixed, channels, target, (n - 1) as nat), channels[n - 1], target)
    }
}

/// The output of a drain.
pub open spec fn drained(audio: AudioView, target: int) -> Seq<i16> {
    mixed_through(queue_part(audio.queue, target), audio.channels, target, audio.channels.len())
}

/// The audio state after a drain.
pub open spec fn after_drain(audio: AudioView, target: int) -> AudioView {
    AudioView {
        sample_rate: audio.sample_rate,
        queue: audio.queue.skip(2 * frames_taken(audio.queue, target)),
        channels: Seq::new(audio.channels.len(), |i: int| audio.channels[i].after_drain(target)),
    }
}

/// A drain with nothing queued and no channel playing is silence.
pub proof fn lemma_idle_drain_is_silent(audio: AudioView, target: int, k: int)
    requires
        audio.queue.len() < 2,
        forall|i: int| 0 <= i < audio.channels.len() ==> !(#[trigger] audio.channels[i]).plays(),
        0 <= k < 2 * target,
    ensures
        drained(audio, target).len() == 2 * target,
        drained(audio, target)[k] == 0,
{
    let silence = queue_part(audio.queue, target);
    lemma_quiet_channels(silence, audio.channels, target, audio.channels.len());
}

/// Channels that do not play leave the output as it was.
pub proof fn lemma_quiet_channels(mixed: Seq<i16>, channels: Seq<ChannelView>, target: int, n: nat)
    requires
        n <= channels.len(),
        forall|i: int| 0 <= i < n ==> !(#[trigger] channels[i]).plays(),
    ensures
        mixed_through(mixed, channels, target, n) == mixed,
    decreases n,
{
    if n > 0 {
        lemma_quiet_channels(mixed, channels, target, (n - 1) as nat);
    }
}

/// Mixes one channel into the output and advances it.
pub fn mix_channel(channel: &mut AudioChannel, mixed: &mut Vec<i16>, target: usize)
    requires
        old(mixed)@.len() == 2 * target,
    ensures
        final(channel)@ == old(channel)@.after_drain(target as int),
        final(mixed)@ == mixed_with(old(mixed)@, old(channel)@, target as int),
{
    if !channel.active {
        return ;
    }
    let total: usize = channel.pcm_stereo.len();
    let channel_frames: usize = total / 2;
    if channel.position_frames >= channel_frames {
        if channel.loop_enabled {
            channel.position_frames = 0;
        } else {
            channel.active = false;
            return ;
        }
    }
    let start: usize = channel.position_frames;
    let count: usize = if channel_frames - start < target {
        channel_frames - start
    } else {
        target
    };
    let volume: u32 = channel.volume_q8_8;
    let left: i64 = pan_left(channel.pan_i16);
    let right: i64 = pan_right(channel.pan_i16);
    let ghost before = old(channel)@;
    let ghost goal = mixed_with(old(mixed)@, before, target as int);
    let mut i: usize = 0;
    while i < count
        invariant
            i <= count,
            count <= target,
            start + count <= channel_frames,
            total == channel.pcm_stereo@.len(),
            channel_frames == total / 2,
            -0x1_0000_0000 <= left <= 0x1_0000_0000,
            -0x1_0000_0000 <= right <= 0x1_0000_0000,
            channel.pcm_stereo@ == before.pcm,
            volume == before.volume,
            left == left_gain(before.pan),
            right == right_gain(before.pan),
            start == before.start(),
            count == before.mixes(target as int),
            mixed@.len() == 2 * target,
            old(mixed)@.len() == 2 * target,
            goal == mixed_with(old(mixed)@, before, target as int),
            forall|k: int| 0 <= k < 2 * i ==> mixed@[k] == goal[k],
            forall|k: int| 2 * i <= k < 2 * target ==> mixed@[k] == old(mixed)@[k],
        decreases count - i,
    {
        let src: usize = (start + i) * 2;
        let dst: usize = i * 2;
        let l = scale_sample(channel.pcm_stereo[src], volume, left);
        let r = scale_sample(channel.pcm_stereo[src + 1], volume, right);
        let a = sat_add_i16(mixed[dst], l);
        let b = sat_add_i16(mixed[dst + 1], r);
        mixed.set(dst, a);
        mixed.set(dst + 1, b);
        i += 1;
    }
    channel.position_frames = start + count;
}

/// Produces one tick of output: at least a sixtieth of a second of
/// interleaved stereo, mixed from the queue and from every playing
/// channel with saturating addition, and silent where neither supplied
/// anything. Answers with the number of frames and the samples.
///
/// Without a sink to hand the output to, nothing is produced and nothing
/// changes.
pub fn audio_drain_host(
    audio: &mut AudioState,
    max_frames: u32,
    has_sink: bool,
) -> (out: (u32, Vec<i16>))
    requires
        2 * drain_target(old(audio).sample_rate, max_frames) <= usize::MAX,
    ensures
        !has_sink ==> out.0 == 0 && out.1@.len() == 0 && *final(audio) == *old(audio),
        has_sink ==> {
            let target = drain_target(old(audio).sample_rate, max_frames);
            &&& out.0 == target
            &&& out.0 >= minimum_frames(old(audio).sample_rate)
            &&& out.1@.len() == 2 * target
            &&& out.1@ == drained(old(audio)@, target)
            &&& final(audio)@ == after_drain(old(audio)@, target)
        },
        final(audio).next_channel_id == old(audio).next_channel_id,
        final(audio).channel_id_to_index == old(audio).channel_id_to_index,
{
    if !has_sink {
        return (0, Vec::new());
    }
    let minimum: u32 = audio.sample_rate / 60;
    let frames: u32 = if max_frames > minimum {
        max_frames
    } else {
        minimum
    };
    let target: usize = frames as usize;
    let mut mixed: Vec<i16> = vec![0i16; target * 2];
    let queued: usize = audio.host_queue.len();
    let available: usize = queued / 2;
    let taken: usize = if available < target {
        available
    } else {
        target
    };
    let rest = audio.host_queue.split_off(taken * 2);
    let mut k: usize = 0;
    while k < taken * 2
        invariant
            k <= taken * 2,
            taken <= target,
            taken * 2 <= queued,
            queued == old(audio)@.queue.len(),
            mixed@.len() == 2 * target,
            audio.host_queue@ == old(audio)@.queue.subrange(0, 2 * taken),
            forall|j: int| 0 <= j < k ==> mixed@[j] == old(audio)@.queue[j],
            forall|j: int| k <= j < 2 * target ==> mixed@[j] == 0,
        decreases taken * 2 - k,
    {
        let s = sat_add_i16(mixed[k], audio.host_queue[k]);
        mixed.set(k, s);
        k += 1;
    }
    audio.host_queue = rest;
    let n: usize = audio.channels.len();
    let mut i: usize = 0;
    while i < n
        invariant
            i <= n,
            n == audio.channels@.len(),
            n == old(audio).channels@.len(),
            audio.sample_rate == old(audio).sample_rate,
            audio.next_channel_id == old(audio).next_channel_id,
            audio.channel_id_to_index == old(audio).channel_id_to_index,
            audio.host_queue@ == old(audio)@.queue.skip(2 * taken),
            mixed@.len() == 2 * target,
            mixed@ == mixed_through(
                queue_part(old(audio)@.queue, target as int),
                old(audio)@.channels,
                target as int,
                i as nat,
            ),
            forall|j: int|
                0 <= j < i ==> (#[trigger] audio.channels@[j])@ == old(audio)@.channels[j].after_drain(
                    target as int,
                ),
            forall|j: int| i <= j < n ==> audio.channels@[j] == old(audio).channels@[j],
        decreases n - i,
    {
        mix_channel(&mut audio.channels[i], &mut mixed, target);
        i += 1;
    }
    assert(audio@.channels =~= after_drain(old(audio)@, target as int).channels);
    (frames, mixed)
}

} // verus!
