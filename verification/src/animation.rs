//! Animations in the registry: creating them from GIF streams, picking
//! the frame that a moment in time shows, and drawing it.
//!
//! Playback keeps no cursor. The frame to show is a function of the time
//! alone: the time modulo the animation's total delay, walked through the
//! frames' delays.

use vstd::prelude::*;
use crate::clock::system_millis;
use crate::gif::{decode_gif, gif_resource_of, GifResource, GifResourceView};
use crate::memory::{guest_read, memory_view, read_guest_bytes};
use crate::png::{draw_scaled, drawn_scaled};
use crate::resources::{lemma_map_values_insert, lemma_map_values_remove, Resources, ResourcesView};
use crate::state::{Frame, VideoState};

verus! {

broadcast use vstd::std_specs::hash::group_hash_axioms;

/// The time in milliseconds that a frame with delay `d` is given when
/// frames are walked: its delay, or 100 ms for a delay of zero.
pub open spec fn effective_delay(d: u16) -> int {
    if d == 0 {
        100
    } else {
        10 * d
    }
}

/// The sum in milliseconds of the first `n` delays.
pub open spec fn total_delay(delays: Seq<u16>, n: nat) -> int
    decreases n,
{
    if n == 0 {
        0
    } else {
        total_delay(delays, (n - 1) as nat) + 10 * delays[n - 1]
    }
}

/// The first frame from `i` on whose effective delay `rem` falls into,
/// taking off the effective delay of each frame that is passed; frame 0
/// where `rem` outlasts them all.
pub open spec fn frame_from(delays: Seq<u16>, i: int, rem: int) -> int
    decreases delays.len() - i,
{
    if i < 0 || i >= delays.len() {
        0
    } else if rem < effective_delay(delays[i]) {
        i
    } else {
        frame_from(delays, i + 1, rem - effective_delay(delays[i]))
    }
}

/// The frame that an animation shows at a time: the time modulo the
/// total delay, walked through the frames; frame 0 for an animation
/// whose delays are all zero.
pub open spec fn frame_at(delays: Seq<u16>, millis: u64) -> int {
    let total = total_delay(delays, delays.len());
    if total > 0 {
        frame_from(delays, 0, millis as int % total)
    } else {
        0
    }
}

/// Computes [`frame_at`].
pub fn select_frame(delays: &Vec<u16>, millis: u64) -> (idx: usize)
    ensures
        idx == frame_at(delays@, millis),
        idx == 0 || idx < delays@.len(),
{
    let n: usize = delays.len();
    let mut total: u128 = 0;
    let mut k: usize = 0;
    while k < n
        invariant
            k <= n,
            n == delays@.len(),
            total == total_delay(delays@, k as nat),
            total <= 655350 * k,
        decreases n - k,
    {
        total = total + 10 * (delays[k] as u128);
        k += 1;
    }
    if total == 0 {
        return 0;
    }
    let mut rem: u128 = (millis as u128) % total;
    let mut i: usize = 0;
    while i < n
        invariant
            i <= n,
            n == delays@.len(),
            total > 0,
            total == total_delay(delays@, n as nat),
            frame_from(delays@, 0, millis as int % total as int) == frame_from(
                delays@,
                i as int,
                rem as int,
            ),
        decreases n - i,
    {
        let d: u128 = delays[i] as u128;
        let eff: u128 = if d == 0 {
            100
        } else {
            10 * d
        };
        if rem < eff {
            return i;
        }
        rem = rem - eff;
        i += 1;
    }
    0
}

/// Frame `after` is frame `before` with the frame that the animation
/// shows at `millis` drawn at `(x, y)` in `w` by `h` pixels, or at its
/// own size where `w` or `h` is zero. An animation without that frame
/// draws nothing.
pub open spec fn animation_drawn(
    before: Frame,
    after: Frame,
    g: GifResourceView,
    x: int,
    y: int,
    w: u32,
    h: u32,
    millis: u64,
) -> bool {
    let idx = frame_at(g.delays, millis);
    if idx < g.frames.len() {
        drawn_scaled(before, after, x, y, w, h, g.frames[idx], g.width as u32, g.height as u32)
    } else {
        after == before
    }
}

/// Frame `after` is frame `before` with the animation under `id` drawn as
/// it shows at `millis`; an unknown id draws nothing.
pub open spec fn gif_drawn(
    before: Frame,
    after: Frame,
    res: ResourcesView,
    id: u32,
    x: int,
    y: int,
    w: u32,
    h: u32,
    millis: u64,
) -> bool {
    match res.gifs.get(id) {
        Some(g) => animation_drawn(before, after, g, x, y, w, h, millis),
        None => after == before,
    }
}

/// Draws the animation under `id` as it shows at `millis`.
pub fn gif_draw_at(
    video: &mut VideoState,
    res: &Resources,
    id: u32,
    x: i32,
    y: i32,
    w: u32,
    h: u32,
    millis: u64,
)
    requires
        old(video).wf(),
    ensures
        final(video).wf(),
        gif_drawn(old(video)@, final(video)@, res@, id, x as int, y as int, w, h, millis),
{
    match res.gifs.get(&id) {
        Some(g) => {
            let idx = select_frame(&g.delays, millis);
            if idx < g.frames.len() {
                draw_scaled(
                    video,
                    x,
                    y,
                    w,
                    h,
                    g.frames[idx].as_slice(),
                    g.width as u32,
                    g.height as u32,
                );
            }
        },
        None => {},
    }
}

/// Draws the animation under `id` as it shows now, scaled to `w` by `h`
/// pixels, or at its own size where `w` or `h` is zero. The frame is
/// that of some moment: the one the clock gave.
pub fn graphics_gif_draw_scaled(
    video: &mut VideoState,
    res: &Resources,
    id: u32,
    x: i32,
    y: i32,
    w: u32,
    h: u32,
)
    requires
        old(video).wf(),
    ensures
        final(video).wf(),
        exists|millis: u64|
            gif_drawn(old(video)@, final(video)@, res@, id, x as int, y as int, w, h, millis),
{
    let millis = system_millis();
    gif_draw_at(video, res, id, x, y, w, h, millis);
}

/// Draws the animation under `id` as it shows now, at its own size.
pub fn graphics_gif_draw(video: &mut VideoState, res: &Resources, id: u32, x: i32, y: i32)
    requires
        old(video).wf(),
    ensures
        final(video).wf(),
        exists|millis: u64|
            gif_drawn(old(video)@, final(video)@, res@, id, x as int, y as int, 0, 0, millis),
{
    graphics_gif_draw_scaled(video, res, id, x, y, 0, 0);
}

/// Frame `after` is frame `before` with the animation that `key` leads to
/// drawn as it shows at `millis`; an unknown key draws nothing.
pub open spec fn gif_key_drawn(
    before: Frame,
    after: Frame,
    res: ResourcesView,
    key: u64,
    x: int,
    y: int,
    w: u32,
    h: u32,
    millis: u64,
) -> bool {
    match res.keyed_gifs.get(key) {
        Some(id) => gif_drawn(before, after, res, id, x, y, w, h, millis),
        None => after == before,
    }
}

/// Draws the animation under `key` as it shows now, scaled to `w` by `h`
/// pixels, or at its own size where `w` or `h` is zero.
pub fn graphics_gif_draw_key_scaled(
    video: &mut VideoState,
    res: &Resources,
    key: u64,
    x: i32,
    y: i32,
    w: u32,
    h: u32,
)
    requires
        old(video).wf(),
    ensures
        final(video).wf(),
        exists|millis: u64|
            gif_key_drawn(old(video)@, final(video)@, res@, key, x as int, y as int, w, h, millis),
{
    match res.keyed_gifs.get(&key) {
        Some(id) => {
            let id = *id;
            let millis = system_millis();
            gif_draw_at(video, res, id, x, y, w, h, millis);
            assert(gif_key_drawn(
                old(video)@,
                video@,
                res@,
                key,
                x as int,
                y as int,
                w,
                h,
                millis,
            ));
        },
        None => {
            assert(gif_key_drawn(old(video)@, video@, res@, key, x as int, y as int, w, h, 0));
        },
    }
}

/// Draws the animation under `key` as it shows now, at its own size.
pub fn graphics_gif_draw_key(video: &mut VideoState, res: &Resources, key: u64, x: i32, y: i32)
    requires
        old(video).wf(),
    ensures
        final(video).wf(),
        exists|millis: u64|
            gif_key_drawn(old(video)@, final(video)@, res@, key, x as int, y as int, 0, 0, millis),
{
    graphics_gif_draw_key_scaled(video, res, key, x, y, 0, 0);
}

/// The registry after an animation was stored under the next id.
pub open spec fn with_gif(before: ResourcesView, g: GifResourceView) -> ResourcesView {
    ResourcesView {
        gifs: before.gifs.insert(before.next_id as u32, g),
        next_id: before.next_id + 1,
        ..before
    }
}

/// Stores an animation under the next id and answers with the id, or
/// with 0 where there is no animation or no id is left; the registry is
/// then left as it was.
pub fn store_gif(res: &mut Resources, g: Option<GifResource>) -> (id: u32)
    ensures
        match g {
            Some(g) => if 0 < old(res)@.next_id < u32::MAX {
                id == old(res)@.next_id && final(res)@ == with_gif(old(res)@, g@)
            } else {
                id == 0 && *final(res) == *old(res)
            },
            None => id == 0 && *final(res) == *old(res),
        },
{
    match g {
        Some(g) => match res.fresh_id() {
            Some(id) => {
                proof {
                    lemma_map_values_insert(old(res).gifs@, |g: GifResource| g@, id, g);
                }
                res.gifs.insert(id, g);
                id
            },
            None => 0,
        },
        None => 0,
    }
}

/// What creating an animation from guest memory gives: the animation
/// that the bytes at `ptr` decode and compose to, if they can be read and
/// do.
pub open spec fn gif_from_guest(
    memory: Option<Seq<u8>>,
    ptr: u32,
    len: u32,
) -> Option<GifResourceView> {
    match guest_read(memory, ptr, len) {
        Ok(bytes) => gif_resource_of(bytes),
        Err(_) => None,
    }
}

/// Creates an animation from a GIF stream that lies in guest memory and
/// answers with its id. Answers 0 when the bytes cannot be read or
/// decoded or no id is left; the registry is then left as it was.
pub fn graphics_gif_create(
    res: &mut Resources,
    memory: Option<&[u8]>,
    ptr: u32,
    len: u32,
) -> (id: u32)
    ensures
        match gif_from_guest(memory_view(memory), ptr, len) {
            Some(g) => if 0 < old(res)@.next_id < u32::MAX {
                id == old(res)@.next_id && final(res)@ == with_gif(old(res)@, g)
            } else {
                id == 0 && *final(res) == *old(res)
            },
            None => id == 0 && *final(res) == *old(res),
        },
{
    let g = match read_guest_bytes(memory, ptr, len) {
        Ok(bytes) => decode_gif(bytes.as_slice()),
        Err(_) => None,
    };
    store_gif(res, g)
}

/// Removes the animation under `id`; an unknown id changes nothing.
pub fn graphics_gif_destroy(res: &mut Resources, id: u32)
    ensures
        final(res)@ == (ResourcesView { gifs: old(res)@.gifs.remove(id), ..old(res)@ }),
{
    proof {
        lemma_map_values_remove(old(res).gifs@, |g: GifResource| g@, id);
    }
    res.gifs.remove(&id);
}

/// Registers a GIF stream that lies in guest memory under `key`. Answers
/// 1 when the animation was created and the key leads to it, and 0 when
/// it could not be created; the registry is then left as it was.
pub fn graphics_gif_register(
    res: &mut Resources,
    memory: Option<&[u8]>,
    key: u64,
    data_ptr: u32,
    data_len: u32,
) -> (r: u32)
    ensures
        match gif_from_guest(memory_view(memory), data_ptr, data_len) {
            Some(g) => if 0 < old(res)@.next_id < u32::MAX {
                r == 1 && final(res)@ == (ResourcesView {
                    keyed_gifs: old(res)@.keyed_gifs.insert(key, old(res)@.next_id as u32),
                    ..with_gif(old(res)@, g)
                })
            } else {
                r == 0 && *final(res) == *old(res)
            },
            None => r == 0 && *final(res) == *old(res),
        },
{
    let id = graphics_gif_create(res, memory, data_ptr, data_len);
    if id == 0 {
        return 0;
    }
    res.keyed_gifs.insert(key, id);
    1
}

/// Unregisters `key` and removes the animation that it led to; a key
/// that is not registered changes nothing.
pub fn graphics_gif_unregister(res: &mut Resources, key: u64)
    ensures
        final(res)@ == (match old(res)@.keyed_gifs.get(key) {
            Some(id) => ResourcesView {
                keyed_gifs: old(res)@.keyed_gifs.remove(key),
                gifs: old(res)@.gifs.remove(id),
                ..old(res)@
            },
            None => old(res)@,
        }),
{
    match res.keyed_gifs.remove(&key) {
        Some(id) => {
            graphics_gif_destroy(res, id);
        },
        None => {
            assert(res.keyed_gifs@ =~= old(res).keyed_gifs@);
        },
    }
}

} // verus!
