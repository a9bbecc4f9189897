//! Copying RGBA pictures into the framebuffer.
//!
//! A source pixel replaces the pixel under it only if its alpha is not
//! zero; the alpha is a yes-or-no test, not a blend.

use vstd::prelude::*;
use crate::error::AvError;
use crate::memory::{guest_read, memory_view, read_guest_bytes};
use crate::raster::{lemma_index_in_range, put};
use crate::shapes::in_rect;
use crate::state::{Frame, VideoState};

verus! {

/// The packed colour of an RGB triple.
pub open spec fn rgb_of(r: u8, g: u8, b: u8) -> u32 {
    (r as int * 65536 + g as int * 256 + b as int) as u32
}

/// The colour that pixel `(sx, sy)` of an RGBA picture `w` pixels wide
/// puts on the framebuffer, if its alpha is not zero.
pub open spec fn source_color(data: Seq<u8>, w: int, sx: int, sy: int) -> Option<u32> {
    let i = 4 * (sy * w + sx);
    if data[i + 3] > 0 {
        Some(rgb_of(data[i], data[i + 1], data[i + 2]))
    } else {
        None
    }
}

/// The pixel at `(px, py)` after a `w` by `h` picture was copied to
/// `(x, y)` of frame `before`.
pub open spec fn blitted_pixel(
    before: Frame,
    x: int,
    y: int,
    w: int,
    h: int,
    data: Seq<u8>,
    px: int,
    py: int,
) -> u32 {
    if in_rect(x, y, w, h, px, py) {
        match source_color(data, w, px - x, py - y) {
            Some(c) => c,
            None => before.pixel(px, py),
        }
    } else {
        before.pixel(px, py)
    }
}

/// Frame `after` is frame `before` with a `w` by `h` picture copied to
/// `(x, y)`. A picture whose buffer is shorter than `4 * w * h` bytes is
/// not copied at all.
pub open spec fn blitted(
    before: Frame,
    after: Frame,
    x: int,
    y: int,
    w: int,
    h: int,
    data: Seq<u8>,
) -> bool {
    &&& after.wf()
    &&& after.same_layout(before)
    &&& if 4 * (w * h) <= data.len() {
        forall|px: int, py: int|
            before.contains(px, py) ==> #[trigger] after.pixel(px, py) == blitted_pixel(
                before,
                x,
                y,
                w,
                h,
                data,
                px,
                py,
            )
    } else {
        after == before
    }
}

/// Packs an RGB triple into `0x00RRGGBB`.
fn pack_bytes(r: u8, g: u8, b: u8) -> (c: u32)
    ensures
        c == rgb_of(r, g, b),
{
    let c = ((r as u32) << 16) | ((g as u32) << 8) | (b as u32);
    assert(((r as u32) << 16) | ((g as u32) << 8) | (b as u32) == (r as u32) * 65536 + (g as u32)
        * 256 + (b as u32)) by (bit_vector);
    c
}

/// Copies a `w` by `h` RGBA picture to `(x, y)`, clipped to the
/// framebuffer.
pub fn graphics_image_from_host(video: &mut VideoState, x: i32, y: i32, w: u32, h: u32, data: &[u8])
    requires
        old(video).wf(),
    ensures
        blitted(old(video)@, final(video)@, x as int, y as int, w as int, h as int, data@),
{
    assert(w * h <= 0xFFFF_FFFF * 0xFFFF_FFFF) by (nonlinear_arith)
        requires
            0 <= w <= 0xFFFF_FFFF,
            0 <= h <= 0xFFFF_FFFF,
    ;
    let need: u64 = (w as u64) * (h as u64);
    let total: usize = data.len();
    if need > (total / 4) as u64 {
        return ;
    }
    let screen_w = video.width as i64;
    let screen_h = video.height as i64;
    let x64 = x as i64;
    let y64 = y as i64;
    let left = if x64 > 0 {
        x64
    } else {
        0
    };
    let top = if y64 > 0 {
        y64
    } else {
        0
    };
    let right = if x64 + (w as i64) < screen_w {
        x64 + (w as i64)
    } else {
        screen_w
    };
    let bottom = if y64 + (h as i64) < screen_h {
        y64 + (h as i64)
    } else {
        screen_h
    };
    let mut cy: i64 = top;
    while cy < bottom
        invariant
            video.wf(),
            video@.same_layout(old(video)@),
            4 * (w * h) <= data@.len(),
            data@.len() == total,
            x64 == x,
            y64 == y,
            0 <= top <= cy,
            0 <= left,
            top == (if y > 0 {
                y as int
            } else {
                0
            }),
            left == (if x > 0 {
                x as int
            } else {
                0
            }),
            right <= video.width,
            right <= x + w,
            bottom <= video.height,
            bottom <= y + h,
            right == x + w || right == video.width,
            bottom == y + h || bottom == video.height,
            forall|px: int, py: int|
                old(video)@.contains(px, py) ==> #[trigger] video@.pixel(px, py) == (if py < cy {
                    blitted_pixel(old(video)@, x as int, y as int, w as int, h as int, data@, px, py)
                } else {
                    old(video)@.pixel(px, py)
                }),
        decreases bottom - cy,
    {
        let mut cx: i64 = left;
        while cx < right
            invariant
                video.wf(),
                video@.same_layout(old(video)@),
                4 * (w * h) <= data@.len(),
                data@.len() == total,
            data@.len() == total,
                x64 == x,
                y64 == y,
                0 <= top <= cy < bottom,
                0 <= left <= cx,
                top == (if y > 0 {
                    y as int
                } else {
                    0
                }),
                left == (if x > 0 {
                    x as int
                } else {
                    0
                }),
                right <= video.width,
                right <= x + w,
                bottom <= video.height,
                bottom <= y + h,
                right == x + w || right == video.width,
                bottom == y + h || bottom == video.height,
                forall|px: int, py: int|
                    old(video)@.contains(px, py) ==> #[trigger] video@.pixel(px, py) == (if py < cy
                        || (py == cy && px < cx) {
                        blitted_pixel(
                            old(video)@,
                            x as int,
                            y as int,
                            w as int,
                            h as int,
                            data@,
                            px,
                            py,
                        )
                    } else {
                        old(video)@.pixel(px, py)
                    }),
            decreases right - cx,
        {
            let sx: i64 = cx - x64;
            let sy: i64 = cy - y64;
            proof {
                lemma_index_in_range(w as int, h as int, sx as int, sy as int);
            }
            let i: usize = 4 * ((sy as usize) * (w as usize) + (sx as usize));
            let ghost before = video@;
            if data[i + 3] > 0 {
                let color = pack_bytes(data[i], data[i + 1], data[i + 2]);
                put(video, cx, cy, color);
            }
            proof {
                assert forall|px: int, py: int| old(video)@.contains(px, py) implies video@.pixel(
                    px,
                    py,
                ) == (if py < cy || (py == cy && px < cx + 1) {
                    blitted_pixel(old(video)@, x as int, y as int, w as int, h as int, data@, px, py)
                } else {
                    old(video)@.pixel(px, py)
                }) by {
                    let _ = before.pixel(px, py);
                }
            }
            cx += 1;
        }
        cy += 1;
    }
}

/// What drawing a picture out of guest memory does: nothing where the
/// stated length cannot hold `img_w * img_h` pixels, a failure where the
/// bytes cannot be read, and the copy otherwise.
pub open spec fn image_drawn(
    before: Frame,
    after: Frame,
    memory: Option<Seq<u8>>,
    x: int,
    y: int,
    img_w: u32,
    img_h: u32,
    ptr: u32,
    len: u32,
    r: Result<(), AvError>,
) -> bool {
    if 4 * (img_w * img_h) > len {
        r is Ok && after == before
    } else {
        match guest_read(memory, ptr, len) {
            Err(e) => r == Err::<(), AvError>(e) && after == before,
            Ok(bytes) => r is Ok && blitted(before, after, x, y, img_w as int, img_h as int, bytes),
        }
    }
}

/// Draws an RGBA picture that lies in guest memory at `ptr`.
pub fn graphics_image(
    video: &mut VideoState,
    memory: Option<&[u8]>,
    x: i32,
    y: i32,
    img_w: u32,
    img_h: u32,
    ptr: u32,
    len: u32,
) -> (r: Result<(), AvError>)
    requires
        old(video).wf(),
    ensures
        final(video).wf(),
        image_drawn(
            old(video)@,
            final(video)@,
            memory_view(memory),
            x as int,
            y as int,
            img_w,
            img_h,
            ptr,
            len,
            r,
        ),
{
    assert(img_w * img_h <= 0xFFFF_FFFF * 0xFFFF_FFFF) by (nonlinear_arith)
        requires
            0 <= img_w <= 0xFFFF_FFFF,
            0 <= img_h <= 0xFFFF_FFFF,
    ;
    let need: u64 = (img_w as u64) * (img_h as u64);
    if need > (len / 4) as u64 {
        return Ok(());
    }
    match read_guest_bytes(memory, ptr, len) {
        Err(e) => Err(e),
        Ok(bytes) => {
            graphics_image_from_host(video, x, y, img_w, img_h, bytes.as_slice());
            Ok(())
        },
    }
}

} // verus!
