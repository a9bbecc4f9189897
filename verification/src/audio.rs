//! The audio mixer: a queue of raw samples pushed by the guest, playback
//! channels started from decoded assets, and the drain that mixes both
//! into one interleaved stereo buffer per tick.
//!
//! A drain always produces at least a sixtieth of a second of audio. What
//! the guest did not supply is silence, so the sink downstream never runs
//! dry.

use vstd::prelude::*;
use crate::error::AvError;
use crate::memory::{guest_read, memory_view, read_guest_bytes};
use crate::state::{AudioChannel, AudioState, AudioView, ChannelView, UNITY_VOLUME};

verus! {

/// The buffer-size hint that [`audio_init`] answers with.
pub const BUFFER_HINT: u32 = 1024;

/// Sets the output sample rate and answers with a buffer-size hint.
pub fn audio_init(audio: &mut AudioState, sample_rate: u32) -> (hint: u32)
    ensures
        hint == BUFFER_HINT,
        *final(audio) == (AudioState { sample_rate, ..*old(audio) }),
{
    audio.sample_rate = sample_rate;
    BUFFER_HINT
}

/// The 16-bit sample that two little-endian bytes stand for.
pub open spec fn sample_of(low: u8, high: u8) -> i16 {
    if high >= 128 {
        (low + 256 * high - 65536) as i16
    } else {
        (low + 256 * high) as i16
    }
}

/// The samples that a run of little-endian byte pairs stands for; a
/// trailing odd byte is left out.
pub open spec fn samples_of(bytes: Seq<u8>) -> Seq<i16> {
    Seq::new(bytes.len() / 2, |i: int| sample_of(bytes[2 * i], bytes[2 * i + 1]))
}

/// Reads the bytes as little-endian 16-bit samples.
pub fn decode_samples(bytes: &[u8]) -> (r: Vec<i16>)
    ensures
        r@ == samples_of(bytes@),
{
    let total: usize = bytes.len();
    let n: usize = total / 2;
    let mut out: Vec<i16> = Vec::new();
    let mut i: usize = 0;
    while i < n
        invariant
            i <= n,
            total == bytes@.len(),
            n == total / 2,
            out@.len() == i,
            forall|k: int| 0 <= k < i ==> out@[k] == sample_of(bytes@[2 * k], bytes@[2 * k + 1]),
        decreases n - i,
    {
        let low: i32 = bytes[2 * i] as i32;
        let high: i32 = bytes[2 * i + 1] as i32;
        let v: i32 = low + 256 * high;
        let s: i16 = if high >= 128 {
            (v - 65536) as i16
        } else {
            v as i16
        };
        out.push(s);
        i += 1;
    }
    out
}

/// What pushing `count` samples from guest memory at `ptr` gives: the
/// failure, or the samples to append to the queue.
pub open spec fn pushed_samples(
    memory: Option<Seq<u8>>,
    ptr: u32,
    count: u32,
) -> Result<Seq<i16>, AvError> {
    if memory is None {
        Err(AvError::MissingMemory)
    } else if 2 * count > u32::MAX {
        Err(AvError::MemoryReadFailed)
    } else {
        match guest_read(memory, ptr, (2 * count) as u32) {
            Ok(bytes) => Ok(samples_of(bytes)),
            Err(e) => Err(e),
        }
    }
}

/// Appends `count` raw samples, read from guest memory at `ptr`, to the
/// queue. On failure the queue is left as it was.
pub fn audio_push_samples(
    audio: &mut AudioState,
    memory: Option<&[u8]>,
    ptr: u32,
    count: u32,
) -> (r: Result<(), AvError>)
    ensures
        match pushed_samples(memory_view(memory), ptr, count) {
            Ok(samples) => r is Ok && final(audio)@ == (AudioView {
                queue: old(audio)@.queue + samples,
                ..old(audio)@
            }),
            Err(e) => r == Err::<(), AvError>(e) && *final(audio) == *old(audio),
        },
        final(audio).next_channel_id == old(audio).next_channel_id,
        final(audio).channel_id_to_index == old(audio).channel_id_to_index,
{
    if memory.is_none() {
        return Err(AvError::MissingMemory);
    }
    let byte_len: u32 = match count.checked_mul(2) {
        Some(n) => n,
        None => {
            return Err(AvError::MemoryReadFailed);
        },
    };
    match read_guest_bytes(memory, ptr, byte_len) {
        Err(e) => Err(e),
        Ok(bytes) => {
            let mut samples = decode_samples(bytes.as_slice());
            audio.host_queue.append(&mut samples);
            Ok(())
        },
    }
}

/// Samples as a decoder hands them over, with their layout.
#[derive(Debug)]
pub struct DecodedAudio {
    pub channels: u16,
    pub sample_rate: u32,
    /// Samples of all channels, interleaved.
    pub samples: Vec<i16>,
}

/// The mathematical value of [`DecodedAudio`].
pub ghost struct DecodedAudioView {
    pub channels: u16,
    pub sample_rate: u32,
    pub samples: Seq<i16>,
}

impl View for DecodedAudio {
    type V = DecodedAudioView;

    open spec fn view(&self) -> DecodedAudioView {
        DecodedAudioView {
            channels: self.channels,
            sample_rate: self.sample_rate,
            samples: self.samples@,
        }
    }
}

/// The view of a decoder's outcome.
pub open spec fn decoded_view(r: Option<DecodedAudio>) -> Option<DecodedAudioView> {
    match r {
        Some(d) => Some(d@),
        None => None,
    }
}

/// The interleaved stereo samples of decoded audio: a mono signal on both
/// sides, a stereo signal as it is, and nothing for any other layout.
pub open spec fn stereo_of(d: DecodedAudioView) -> Option<Seq<i16>> {
    if d.channels == 1 {
        Some(Seq::new(2 * d.samples.len(), |k: int| d.samples[k / 2]))
    } else if d.channels == 2 {
        Some(d.samples)
    } else {
        None
    }
}

/// The view of optional samples.
pub open spec fn samples_view(r: Option<Vec<i16>>) -> Option<Seq<i16>> {
    match r {
        Some(s) => Some(s@),
        None => None,
    }
}

/// Turns decoded audio into interleaved stereo.
pub fn to_stereo(d: DecodedAudio) -> (r: Option<Vec<i16>>)
    ensures
        samples_view(r) == stereo_of(d@),
{
    if d.channels == 1 {
        let n: usize = d.samples.len();
        let mut out: Vec<i16> = Vec::new();
        let mut i: usize = 0;
        while i < n
            invariant
                i <= n,
                n == d.samples@.len(),
                out@.len() == 2 * i,
                forall|k: int| 0 <= k < 2 * i ==> out@[k] == d.samples@[k / 2],
            decreases n - i,
        {
            out.push(d.samples[i]);
            out.push(d.samples[i]);
            i += 1;
        }
        Some(out)
    } else if d.channels == 2 {
        Some(d.samples)
    } else {
        None
    }
}

/// A channel as it starts: playing from the beginning at full volume,
/// centred and looping.
pub open spec fn fresh_channel(pcm: Seq<i16>, sample_rate: u32) -> ChannelView {
    ChannelView {
        active: true,
        volume: UNITY_VOLUME as int,
        pan: 0,
        loop_enabled: true,
        pcm,
        position: 0,
        sample_rate,
    }
}

/// Starts a channel that plays `pcm_stereo`.
pub fn start_channel(audio: &mut AudioState, pcm_stereo: Vec<i16>, sample_rate: u32)
    ensures
        final(audio)@ == (AudioView {
            channels: old(audio)@.channels.push(fresh_channel(pcm_stereo@, sample_rate)),
            ..old(audio)@
        }),
        final(audio).next_channel_id == old(audio).next_channel_id,
        final(audio).channel_id_to_index == old(audio).channel_id_to_index,
{
    let channel = AudioChannel {
        active: true,
        volume_q8_8: UNITY_VOLUME,
        pan_i16: 0,
        loop_enabled: true,
        pcm_stereo,
        position_frames: 0,
        sample_rate,
    };
    audio.channels.push(channel);
    assert(audio@.channels =~= old(audio)@.channels.push(fresh_channel(pcm_stereo@, sample_rate)));
}

/// The audio state after a decoder's outcome was played: with one more
/// channel where the outcome is audio of one or two channels, unchanged
/// otherwise.
pub open spec fn played(before: AudioView, decoded: Option<DecodedAudioView>) -> AudioView {
    match decoded {
        Some(d) => match stereo_of(d) {
            Some(pcm) => AudioView {
                channels: before.channels.push(fresh_channel(pcm, d.sample_rate)),
                ..before
            },
            None => before,
        },
        None => before,
    }
}

/// Starts a channel from decoded audio, if there is any and it has one or
/// two channels.
pub fn play_decoded(audio: &mut AudioState, decoded: Option<DecodedAudio>)
    ensures
        final(audio)@ == played(old(audio)@, decoded_view(decoded)),
        final(audio).next_channel_id == old(audio).next_channel_id,
        final(audio).channel_id_to_index == old(audio).channel_id_to_index,
{
    match decoded {
        Some(d) => {
            let rate = d.sample_rate;
            match to_stereo(d) {
                Some(pcm) => {
                    start_channel(audio, pcm, rate);
                },
                None => {},
            }
        },
        None => {},
    }
}

/// The samples that the `hound` crate reads from a WAV stream as 16-bit
/// integers, with the stream's channel count and sample rate; `None`
/// where it rejects the stream or one of its samples.
pub uninterp spec fn wav_decoded(data: Seq<u8>) -> Option<DecodedAudioView>;

/// Decodes a WAV stream with the `hound` crate: `WavReader::new` on the
/// bytes, `WavReader::spec` for the layout and `WavReader::into_samples`
/// for the samples as `i16`.
///
/// The contract claims only that the outcome is a function of the bytes,
/// named [`wav_decoded`].
#[verifier::external_body]
fn wav_decode(data: &[u8]) -> (r: Option<DecodedAudio>)
    ensures
        decoded_view(r) == wav_decoded(data@),
{
    let reader = hound::WavReader::new(std::io::Cursor::new(data)).ok()?;
    let spec = reader.spec();
    let samples = reader.into_samples::<i16>().collect::<Result<Vec<i16>, _>>().ok()?;
    Some(DecodedAudio { channels: spec.channels, sample_rate: spec.sample_rate, samples })
}

/// Plays a WAV asset that lies in guest memory: decodes it once and
/// starts a channel for it. Bytes that cannot be read or decoded, and
/// audio of more than two channels, start nothing.
pub fn audio_play_wav(audio: &mut AudioState, memory: Option<&[u8]>, ptr: u32, len: u32)
    ensures
        final(audio)@ == (match guest_read(memory_view(memory), ptr, len) {
            Ok(bytes) => played(old(audio)@, wav_decoded(bytes)),
            Err(_) => old(audio)@,
        }),
        final(audio).next_channel_id == old(audio).next_channel_id,
        final(audio).channel_id_to_index == old(audio).channel_id_to_index,
{
    match read_guest_bytes(memory, ptr, len) {
        Ok(bytes) => {
            let decoded = wav_decode(bytes.as_slice());
            play_decoded(audio, decoded);
        },
        Err(_) => {},
    }
}

/// One item of a QOA stream: a sample, or the header of a frame that
/// starts.
#[derive(Debug, Clone, Copy, PartialEq, Eq, Structural)]
pub enum QoaEvent {
    Sample(i16),
    Frame { channels: u8, sample_rate: u32 },
}

/// The items that the `qoaudio` crate's decoder yields for a QOA stream,
/// in order; `None` where it rejects the stream.
pub uninterp spec fn qoa_decoded(data: Seq<u8>) -> Option<Seq<QoaEvent>>;

/// The view of a decoder's items.
pub open spec fn events_view(r: Option<Vec<QoaEvent>>) -> Option<Seq<QoaEvent>> {
    match r {
        Some(v) => Some(v@),
        None => None,
    }
}

/// Decodes a QOA stream with the `qoaudio` crate: `QoaDecoder::new` on
/// the bytes, then the decoder's iterator to its end.
///
/// The contract claims only that the outcome is a function of the bytes,
/// named [`qoa_decoded`].
#[verifier::external_body]
fn qoa_decode(data: &[u8]) -> (r: Option<Vec<QoaEvent>>)
    ensures
        events_view(r) == qoa_decoded(data@),
{
    let decoder = qoaudio::QoaDecoder::new(std::io::Cursor::new(data)).ok()?;
    let mut events = Vec::new();
    for item in decoder {
        events.push(match item.ok()? {
            qoaudio::QoaItem::Sample(s) => QoaEvent::Sample(s),
            qoaudio::QoaItem::FrameHeader(h) => QoaEvent::Frame { channels: h.num_channels, sample_rate: h.sample_rate },
        });
    }
    Some(events)
}

/// The layout that the first `n` items of a stream agree on: that of the
/// first frame header among them, if no later header differs from it.
/// `Some(None)` stands for "no header yet", `None` for "headers differ".
pub open spec fn agreed_layout(events: Seq<QoaEvent>, n: nat) -> Option<Option<(u8, u32)>>
    decreases n,
{
    if n == 0 {
        Some(None)
    } else {
        match agreed_layout(events, (n - 1) as nat) {
            None => None,
            Some(layout) => match events[n - 1] {
                QoaEvent::Sample(_) => Some(layout),
                QoaEvent::Frame { channels, sample_rate } => match layout {
                    None => Some(Some((channels, sample_rate))),
                    Some(first) => if first == (channels, sample_rate) {
                        Some(layout)
                    } else {
                        None
                    },
                },
            },
        }
    }
}

/// The samples among the first `n` items of a stream, in order.
pub open spec fn samples_among(events: Seq<QoaEvent>, n: nat) -> Seq<i16>
    decreases n,
{
    if n == 0 {
        Seq::empty()
    } else {
        match events[n - 1] {
            QoaEvent::Sample(s) => samples_among(events, (n - 1) as nat).push(s),
            QoaEvent::Frame { .. } => samples_among(events, (n - 1) as nat),
        }
    }
}

/// The audio that a stream's items assemble to: the samples in order,
/// with the layout that all frame headers agree on. A stream without a
/// header, or with headers that differ, assembles to nothing.
pub open spec fn assembled(events: Seq<QoaEvent>) -> Option<DecodedAudioView> {
    match agreed_layout(events, events.len()) {
        Some(Some(layout)) => Some(
            DecodedAudioView {
                channels: layout.0 as u16,
                sample_rate: layout.1,
                samples: samples_among(events, events.len()),
            },
        ),
        _ => None,
    }
}

/// Assembles the items of a QOA stream into audio.
pub fn assemble_qoa(events: &Vec<QoaEvent>) -> (r: Option<DecodedAudio>)
    ensures
        decoded_view(r) == assembled(events@),
{
    let n: usize = events.len();
    let mut layout: Option<(u8, u32)> = None;
    let mut samples: Vec<i16> = Vec::new();
    let mut i: usize = 0;
    while i < n
        invariant
            i <= n,
            n == events@.len(),
            agreed_layout(events@, i as nat) == Some(layout),
            samples@ == samples_among(events@, i as nat),
        decreases n - i,
    {
        match events[i] {
            QoaEvent::Sample(s) => {
                samples.push(s);
            },
            QoaEvent::Frame { channels, sample_rate } => {
                match layout {
                    None => {
                        layout = Some((channels, sample_rate));
                    },
                    Some(first) => {
                        if first.0 != channels || first.1 != sample_rate {
                            proof {
                                lemma_disagreement_stays(events@, (i + 1) as nat, n as nat);
                            }
                            return None;
                        }
                    },
                }
            },
        }
        i += 1;
    }
    match layout {
        Some(l) => Some(DecodedAudio { channels: l.0 as u16, sample_rate: l.1, samples }),
        None => None,
    }
}

/// Once the headers among the first `i` items differ, they differ among
/// any longer run of items.
proof fn lemma_disagreement_stays(events: Seq<QoaEvent>, i: nat, n: nat)
    requires
        i <= n,
        agreed_layout(events, i) is None,
    ensures
        agreed_layout(events, n) is None,
    decreases n,
{
    if i < n {
        lemma_disagreement_stays(events, i, (n - 1) as nat);
    }
}

/// The audio that a QOA stream decodes to, if it does.
pub open spec fn qoa_audio(data: Seq<u8>) -> Option<DecodedAudioView> {
    match qoa_decoded(data) {
        Some(events) => assembled(events),
        None => None,
    }
}

/// Plays a QOA asset that lies in guest memory: decodes it once and
/// starts a channel for it. Bytes that cannot be read or decoded, and
/// audio of more than two channels, start nothing.
pub fn audio_play_qoa(audio: &mut AudioState, memory: Option<&[u8]>, ptr: u32, len: u32)
    ensures
        final(audio)@ == (match guest_read(memory_view(memory), ptr, len) {
            Ok(bytes) => played(old(audio)@, qoa_audio(bytes)),
            Err(_) => old(audio)@,
        }),
        final(audio).next_channel_id == old(audio).next_channel_id,
        final(audio).channel_id_to_index == old(audio).channel_id_to_index,
{
    match read_guest_bytes(memory, ptr, len) {
        Ok(bytes) => {
            let decoded = match qoa_decode(bytes.as_slice()) {
                Some(events) => assemble_qoa(&events),
                None => None,
            };
            play_decoded(audio, decoded);
        },
        Err(_) => {},
    }
}

/// The interleaved stereo samples that the `xmrsplayer` crate renders a
/// tracker module to at a sample rate, playing the first song once;
/// `None` where the `xmrs` crate rejects the module.
pub uninterp spec fn xm_rendered(data: Seq<u8>, sample_rate: u32) -> Option<Seq<i16>>;

/// Renders a tracker module with the `xmrs` and `xmrsplayer` crates:
/// `XmModule::load` on the bytes, `XmModule::to_module`, then a player
/// from `XmrsPlayer::new` with `set_max_loop_count(1)`, and
/// `XmrsPlayer::sample` until the song ends.
///
/// The contract claims only that the outcome is a function of the bytes
/// and the sample rate, named [`xm_rendered`].
#[verifier::external_body]
fn xm_render(data: &[u8], sample_rate: u32) -> (r: Option<Vec<i16>>)
    ensures
        samples_view(r) == xm_rendered(data@, sample_rate),
{
    let module = xmrs::tracker::import::xm::xmmodule::XmModule::load(data).ok()?.to_module();
    let mut player = xmrsplayer::xmrsplayer::XmrsPlayer::new(&module, sample_rate, 0);
    player.set_max_loop_count(1);
    let mut pcm = Vec::new();
    while let Some((left, right)) = player.sample(true) {
        pcm.push(left);
        pcm.push(right);
    }
    Some(pcm)
}

/// The audio state after rendered samples were played at the output
/// rate: with one more channel where there are samples, unchanged
/// otherwise.
pub open spec fn played_rendered(before: AudioView, pcm: Option<Seq<i16>>) -> AudioView {
    match pcm {
        Some(pcm) => AudioView {
            channels: before.channels.push(fresh_channel(pcm, before.sample_rate)),
            ..before
        },
        None => before,
    }
}

/// Starts a channel from rendered samples at the output rate, if there
/// are any.
pub fn play_rendered(audio: &mut AudioState, pcm: Option<Vec<i16>>)
    ensures
        final(audio)@ == played_rendered(old(audio)@, samples_view(pcm)),
        final(audio).next_channel_id == old(audio).next_channel_id,
        final(audio).channel_id_to_index == old(audio).channel_id_to_index,
{
    match pcm {
        Some(pcm) => {
            let rate = audio.sample_rate;
            start_channel(audio, pcm, rate);
        },
        None => {},
    }
}

/// Plays a tracker module that lies in guest memory: renders the whole
/// song once at the output sample rate and starts a channel for it.
/// Bytes that cannot be read or are no module start nothing.
pub fn audio_play_xm(audio: &mut AudioState, memory: Option<&[u8]>, ptr: u32, len: u32)
    ensures
        final(audio)@ == (match guest_read(memory_view(memory), ptr, len) {
            Ok(bytes) => played_rendered(
                old(audio)@,
                xm_rendered(bytes, old(audio)@.sample_rate),
            ),
            Err(_) => old(audio)@,
        }),
        final(audio).next_channel_id == old(audio).next_channel_id,
        final(audio).channel_id_to_index == old(audio).channel_id_to_index,
{
    match read_guest_bytes(memory, ptr, len) {
        Ok(bytes) => {
            let pcm = xm_render(bytes.as_slice(), audio.sample_rate);
            play_rendered(audio, pcm);
        },
        Err(_) => {},
    }
}

} // verus!
