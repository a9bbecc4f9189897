//! Host-owned state: the framebuffer with its draw colour, the audio queue
//! with its channels, and the per-frame input snapshot.

use vstd::prelude::*;

verus! {

/// Width of the framebuffer before the guest sets a size.
pub const DEFAULT_WIDTH: u32 = 320;

/// Height of the framebuffer before the guest sets a size.
pub const DEFAULT_HEIGHT: u32 = 240;

/// Draw colour before the guest sets one: white.
pub const DEFAULT_DRAW_COLOR: u32 = 0x00FF_FFFF;

/// Output sample rate before the guest initialises audio.
pub const DEFAULT_SAMPLE_RATE: u32 = 44100;

/// Channel volume that leaves samples unchanged (Q8.8 fixed point).
pub const UNITY_VOLUME: u32 = 256;

/// The mathematical picture behind a [`VideoState`]: a `width` by `height`
/// grid of packed-RGB pixels in row-major order, and the colour that the
/// next primitive will draw with.
pub ghost struct Frame {
    pub width: int,
    pub height: int,
    pub pixels: Seq<u32>,
    pub color: u32,
}

impl Frame {
    /// The grid holds exactly `width * height` pixels.
    pub open spec fn wf(self) -> bool {
        &&& 0 <= self.width
        &&& 0 <= self.height
        &&& self.pixels.len() == self.width * self.height
    }

    /// `(x, y)` names a pixel of the grid.
    pub open spec fn contains(self, x: int, y: int) -> bool {
        0 <= x < self.width && 0 <= y < self.height
    }

    /// The pixel in column `x` of row `y`.
    pub open spec fn pixel(self, x: int, y: int) -> u32 {
        self.pixels[y * self.width + x]
    }

    /// Every pixel of the grid is `color`.
    pub open spec fn all_pixels(self, color: u32) -> bool {
        forall|i: int| 0 <= i < self.pixels.len() ==> self.pixels[i] == color
    }
}

/// Host-owned framebuffer for immediate-mode drawing.
///
/// Pixels are packed as `0x00RRGGBB`, one `u32` each, row after row.
#[derive(Debug)]
pub struct VideoState {
    pub width: u32,
    pub height: u32,
    pub framebuffer: Vec<u32>,
    pub draw_color: u32,
}

impl View for VideoState {
    type V = Frame;

    open spec fn view(&self) -> Frame {
        Frame {
            width: self.width as int,
            height: self.height as int,
            pixels: self.framebuffer@,
            color: self.draw_color,
        }
    }
}

impl VideoState {
    /// The framebuffer holds exactly `width * height` pixels.
    pub open spec fn wf(&self) -> bool {
        self@.wf()
    }

    /// Whether the framebuffer holds exactly `width * height` pixels.
    pub fn is_wf(&self) -> (r: bool)
        ensures
            r == self.wf(),
    {
        assert(self.width * self.height <= 0xFFFF_FFFF * 0xFFFF_FFFF) by (nonlinear_arith)
            requires
                0 <= self.width <= 0xFFFF_FFFF,
                0 <= self.height <= 0xFFFF_FFFF,
        ;
        let total: u64 = (self.width as u64) * (self.height as u64);
        self.framebuffer.len() as u64 == total
    }
}

impl Default for VideoState {
    fn default() -> (v: Self)
        ensures
            v.wf(),
            v@.width == DEFAULT_WIDTH,
            v@.height == DEFAULT_HEIGHT,
            v@.color == DEFAULT_DRAW_COLOR,
            v@.all_pixels(0),
    {
        let n: usize = 76800;
        VideoState {
            width: DEFAULT_WIDTH,
            height: DEFAULT_HEIGHT,
            framebuffer: vec![0u32; n],
            draw_color: DEFAULT_DRAW_COLOR,
        }
    }
}

/// One independently mixed playback voice.
///
/// `pcm_stereo` holds interleaved stereo samples, so one frame is two
/// entries; `position_frames` counts frames, not samples.
#[derive(Debug, Clone)]
pub struct AudioChannel {
    /// Whether the channel is playing.
    pub active: bool,
    /// Volume in Q8.8 fixed point: 256 is 1.0.
    pub volume_q8_8: u32,
    /// Pan: -32768 is full left, 0 is centre, 32767 is full right.
    pub pan_i16: i32,
    /// Whether playback wraps to the start when it reaches the end.
    pub loop_enabled: bool,
    /// Interleaved stereo samples.
    pub pcm_stereo: Vec<i16>,
    /// Playback position, in frames.
    pub position_frames: usize,
    /// Sample rate of `pcm_stereo`.
    pub sample_rate: u32,
}

/// The mathematical value of an [`AudioChannel`].
pub ghost struct ChannelView {
    pub active: bool,
    pub volume: int,
    pub pan: int,
    pub loop_enabled: bool,
    pub pcm: Seq<i16>,
    pub position: int,
    pub sample_rate: u32,
}

impl ChannelView {
    /// Number of whole stereo frames the channel holds.
    pub open spec fn frames(self) -> int {
        self.pcm.len() as int / 2
    }
}

impl View for AudioChannel {
    type V = ChannelView;

    open spec fn view(&self) -> ChannelView {
        ChannelView {
            active: self.active,
            volume: self.volume_q8_8 as int,
            pan: self.pan_i16 as int,
            loop_enabled: self.loop_enabled,
            pcm: self.pcm_stereo@,
            position: self.position_frames as int,
            sample_rate: self.sample_rate,
        }
    }
}

impl Default for AudioChannel {
    fn default() -> (c: Self)
        ensures
            c@ == (ChannelView {
                active: false,
                volume: UNITY_VOLUME as int,
                pan: 0,
                loop_enabled: false,
                pcm: Seq::empty(),
                position: 0,
                sample_rate: DEFAULT_SAMPLE_RATE,
            }),
    {
        AudioChannel {
            active: false,
            volume_q8_8: UNITY_VOLUME,
            pan_i16: 0,
            loop_enabled: false,
            pcm_stereo: Vec::new(),
            position_frames: 0,
            sample_rate: DEFAULT_SAMPLE_RATE,
        }
    }
}

/// Host-owned audio state: the output format, the queue of raw samples
/// pushed by the guest and the playback channels, oldest first.
#[derive(Debug)]
pub struct AudioState {
    /// Output sample rate.
    pub sample_rate: u32,
    /// Raw interleaved stereo samples pushed by the guest, oldest first.
    pub host_queue: Vec<i16>,
    /// Playback channels in creation order.
    pub channels: Vec<AudioChannel>,
    /// Next id to hand out for a channel.
    pub next_channel_id: u32,
    /// Public channel id paired with its index in `channels`.
    pub channel_id_to_index: Vec<(u32, usize)>,
}

/// The mathematical value of an [`AudioState`], as far as mixing reads it.
pub ghost struct AudioView {
    pub sample_rate: u32,
    pub queue: Seq<i16>,
    pub channels: Seq<ChannelView>,
}

impl View for AudioState {
    type V = AudioView;

    open spec fn view(&self) -> AudioView {
        AudioView {
            sample_rate: self.sample_rate,
            queue: self.host_queue@,
            channels: Seq::new(self.channels@.len(), |i: int| self.channels@[i]@),
        }
    }
}

impl Default for AudioState {
    fn default() -> (a: Self)
        ensures
            a@.sample_rate == DEFAULT_SAMPLE_RATE,
            a@.queue.len() == 0,
            a@.channels.len() == 0,
            a.next_channel_id == 1,
            a.channel_id_to_index@.len() == 0,
    {
        AudioState {
            sample_rate: DEFAULT_SAMPLE_RATE,
            host_queue: Vec::new(),
            channels: Vec::new(),
            next_channel_id: 1,
            channel_id_to_index: Vec::new(),
        }
    }
}

/// Input as cached at the start of a frame.
///
/// `joypad` holds one bit mask per port; bit `b` of a mask is set while
/// the button with id `b` is held.
#[derive(Debug)]
pub struct InputState {
    pub mouse_x: i32,
    pub mouse_y: i32,
    pub mouse_buttons: u32,
    pub lightgun_x: i32,
    pub lightgun_y: i32,
    pub lightgun_buttons: u32,
    pub joypad: Vec<u32>,
}

impl InputState {
    /// Nothing is held and every pointer rests at the origin.
    pub open spec fn is_idle(&self) -> bool {
        &&& self.mouse_x == 0
        &&& self.mouse_y == 0
        &&& self.mouse_buttons == 0
        &&& self.lightgun_x == 0
        &&& self.lightgun_y == 0
        &&& self.lightgun_buttons == 0
        &&& self.joypad@.len() == 0
    }
}

impl Default for InputState {
    fn default() -> (s: Self)
        ensures
            s.is_idle(),
    {
        InputState {
            mouse_x: 0,
            mouse_y: 0,
            mouse_buttons: 0,
            lightgun_x: 0,
            lightgun_y: 0,
            lightgun_buttons: 0,
            joypad: Vec::new(),
        }
    }
}

} // verus!
