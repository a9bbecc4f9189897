//! All host-side state in one place, to be handed to every host
//! function.

use vstd::prelude::*;
use crate::resources::Resources;
use crate::state::{
    AudioState,
    InputState,
    VideoState,
    DEFAULT_DRAW_COLOR,
    DEFAULT_HEIGHT,
    DEFAULT_SAMPLE_RATE,
    DEFAULT_WIDTH,
};
use crate::storage::Storage;

verus! {

/// The state that all host functions share while a guest is loaded. It
/// is handed to each of them; there is one per runtime.
pub struct GlobalState {
    pub video: VideoState,
    pub audio: AudioState,
    pub input: InputState,
    pub resources: Resources,
    pub storage: Storage,
}

impl GlobalState {
    /// Every part is well formed.
    pub open spec fn wf(&self) -> bool {
        self.video.wf() && self.storage.wf()
    }

    /// Whether every part is well formed.
    pub fn is_wf(&self) -> (r: bool)
        ensures
            r == self.wf(),
    {
        self.video.is_wf() && self.storage.is_wf()
    }

    /// The framebuffer, the audio, the input and the registry are as
    /// they are before any guest runs.
    pub open spec fn is_fresh(&self) -> bool {
        &&& self.video.wf()
        &&& self.video@.width == DEFAULT_WIDTH
        &&& self.video@.height == DEFAULT_HEIGHT
        &&& self.video@.color == DEFAULT_DRAW_COLOR
        &&& self.video@.all_pixels(0)
        &&& self.audio@.sample_rate == DEFAULT_SAMPLE_RATE
        &&& self.audio@.queue.len() == 0
        &&& self.audio@.channels.len() == 0
        &&& self.input.is_idle()
        &&& self.resources@.is_empty()
        &&& self.resources@.next_id == 1
    }
}

impl Default for GlobalState {
    fn default() -> (s: Self)
        ensures
            s.wf(),
            s.is_fresh(),
            s.storage@ == Map::<Seq<char>, Seq<u8>>::empty(),
    {
        GlobalState {
            video: VideoState::default(),
            audio: AudioState::default(),
            input: InputState::default(),
            resources: Resources::default(),
            storage: Storage::default(),
        }
    }
}

/// Puts the host state back to what it is before any guest runs: the
/// framebuffer, the audio, the input and the registry. What the guest
/// saved stays.
pub fn clear_on_unload(host: &mut GlobalState)
    ensures
        final(host).is_fresh(),
        final(host).storage == old(host).storage,
{
    host.video = VideoState::default();
    host.audio = AudioState::default();
    host.input = InputState::default();
    host.resources = Resources::default();
}

} // verus!
