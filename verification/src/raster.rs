//! The framebuffer itself: its size, its draw colour, single pixels and
//! the arithmetic of pixel positions that every primitive rests on.
//!
//! Drawing never reaches outside the framebuffer. A primitive is stated
//! as a set of positions; the pixels of the framebuffer that lie in the
//! set take the draw colour and all others stay as they were.

use vstd::prelude::*;
use crate::state::{Frame, VideoState};

verus! {

/// The packed colour `0x00RRGGBB` of three channels, each taken modulo
/// 256.
pub open spec fn packed_rgb(r: u32, g: u32, b: u32) -> u32 {
    ((r % 256) * 65536 + (g % 256) * 256 + (b % 256)) as u32
}

/// Packs three channels into `0x00RRGGBB`, keeping the low eight bits of
/// each.
pub fn pack_rgb(r: u32, g: u32, b: u32) -> (c: u32)
    ensures
        c == packed_rgb(r, g, b),
        c <= 0x00FF_FFFF,
{
    let c = ((r & 0xFF) << 16) | ((g & 0xFF) << 8) | (b & 0xFF);
    assert(((r & 0xFF) << 16) | ((g & 0xFF) << 8) | (b & 0xFF) == ((r % 256) * 65536 + (g % 256)
        * 256 + (b % 256)) as u32) by (bit_vector);
    assert((((r % 256) * 65536 + (g % 256) * 256 + (b % 256)) as u32) <= 0x00FF_FFFF)
        by (bit_vector);
    c
}

/// A position inside a grid of width `w` and height `h` has an index
/// inside the grid's `w * h` cells.
pub proof fn lemma_index_in_range(w: int, h: int, x: int, y: int)
    requires
        0 <= x < w,
        0 <= y < h,
    ensures
        0 <= y * w + x < w * h,
{
    assert(0 <= y * w && y * w + w <= h * w) by (nonlinear_arith)
        requires
            0 <= y < h,
            0 < w,
    ;
    assert(h * w == w * h) by (nonlinear_arith);
}

/// Two different positions of a grid have different indices.
pub proof fn lemma_index_distinct(w: int, x1: int, y1: int, x2: int, y2: int)
    requires
        0 <= x1 < w,
        0 <= x2 < w,
        x1 != x2 || y1 != y2,
    ensures
        y1 * w + x1 != y2 * w + x2,
{
    if y1 < y2 {
        assert(y1 * w + w <= y2 * w) by (nonlinear_arith)
            requires
                y1 < y2,
                0 < w,
        ;
    } else if y2 < y1 {
        assert(y2 * w + w <= y1 * w) by (nonlinear_arith)
            requires
                y2 < y1,
                0 < w,
        ;
    }
}

impl Frame {
    /// Same size and draw colour as `other`.
    pub open spec fn same_layout(self, other: Frame) -> bool {
        &&& self.width == other.width
        &&& self.height == other.height
        &&& self.color == other.color
        &&& self.pixels.len() == other.pixels.len()
    }
}

/// Two frames of one layout whose pixels agree at every position are the
/// same frame: a drawing contract that fixes every position fixes the
/// frame.
pub proof fn lemma_frames_equal(a: Frame, b: Frame)
    requires
        a.wf(),
        a.same_layout(b),
        forall|x: int, y: int| a.contains(x, y) ==> #[trigger] a.pixel(x, y) == b.pixel(x, y),
    ensures
        a == b,
{
    assert forall|i: int| 0 <= i < a.pixels.len() implies a.pixels[i] == b.pixels[i] by {
        let w = a.width;
        if w > 0 {
            let x = i % w;
            let y = i / w;
            vstd::arithmetic::div_mod::lemma_fundamental_div_mod(i, w);
            assert(w * y == y * w) by (nonlinear_arith);
            if y >= a.height {
                assert(w * y >= w * a.height) by (nonlinear_arith)
                    requires
                        y >= a.height,
                        w > 0,
                ;
            }
            assert(a.pixel(x, y) == b.pixel(x, y));
        } else {
            assert(a.width * a.height == 0) by (nonlinear_arith)
                requires
                    a.width == 0,
            ;
        }
    }
    assert(a.pixels =~= b.pixels);
}

/// Sets the framebuffer's size and clears it to black.
///
/// A size with a zero side, or one whose pixel count does not fit the
/// address space, is rejected and changes nothing.
pub fn graphics_set_size(video: &mut VideoState, width: u32, height: u32)
    requires
        old(video).wf(),
    ensures
        final(video).wf(),
        final(video)@.color == old(video)@.color,
        width == 0 || height == 0 || width * height > usize::MAX ==> *final(video) == *old(video),
        width != 0 && height != 0 && width * height <= usize::MAX ==> {
            &&& final(video)@.width == width
            &&& final(video)@.height == height
            &&& final(video)@.all_pixels(0)
        },
{
    if width == 0 || height == 0 {
        return ;
    }
    let total: u64 = match (width as u64).checked_mul(height as u64) {
        Some(t) => t,
        None => {
            return ;
        },
    };
    if total > usize::MAX as u64 {
        return ;
    }
    video.framebuffer = vec![0u32; total as usize];
    video.width = width;
    video.height = height;
}

/// Sets the colour that later primitives draw with. The alpha channel is
/// accepted and not used.
pub fn graphics_set_color(video: &mut VideoState, r: u32, g: u32, b: u32, _a: u32)
    ensures
        *final(video) == (VideoState { draw_color: packed_rgb(r, g, b), ..*old(video) }),
{
    video.draw_color = pack_rgb(r, g, b);
}

/// Clears the whole framebuffer to one colour.
pub fn graphics_background(video: &mut VideoState, r: u32, g: u32, b: u32)
    requires
        old(video).wf(),
    ensures
        final(video).wf(),
        final(video)@.same_layout(old(video)@),
        final(video)@.all_pixels(packed_rgb(r, g, b)),
{
    let color = pack_rgb(r, g, b);
    let n = video.framebuffer.len();
    let mut i: usize = 0;
    while i < n
        invariant
            i <= n,
            n == video.framebuffer@.len(),
            video@.same_layout(old(video)@),
            forall|k: int| 0 <= k < i ==> video.framebuffer@[k] == color,
        decreases n - i,
    {
        video.framebuffer.set(i, color);
        i += 1;
    }
}

/// Byte `k` of a pixel as it is presented: blue, green, red, then the
/// unused high byte.
pub open spec fn pixel_byte(pixel: u32, k: int) -> u8 {
    if k == 0 {
        (pixel as int % 256) as u8
    } else if k == 1 {
        ((pixel as int / 0x100) % 256) as u8
    } else if k == 2 {
        ((pixel as int / 0x1_0000) % 256) as u8
    } else {
        ((pixel as int / 0x100_0000) % 256) as u8
    }
}

/// The framebuffer as the bytes that are presented: four bytes per pixel,
/// the lowest first.
pub open spec fn presented(pixels: Seq<u32>) -> Seq<u8> {
    Seq::new(4 * pixels.len(), |i: int| pixel_byte(pixels[i / 4], i % 4))
}

/// The framebuffer as bytes to present, in the XRGB8888 layout.
pub fn video_present_host(video: &VideoState) -> (bytes: Vec<u8>)
    ensures
        bytes@ == presented(video@.pixels),
{
    let n = video.framebuffer.len();
    let mut bytes: Vec<u8> = Vec::new();
    let mut i: usize = 0;
    while i < n
        invariant
            i <= n,
            n == video.framebuffer@.len(),
            bytes@.len() == 4 * i,
            forall|k: int|
                0 <= k < 4 * i ==> bytes@[k] == pixel_byte(video.framebuffer@[k / 4], k % 4),
        decreases n - i,
    {
        let p = video.framebuffer[i];
        bytes.push((p % 256) as u8);
        bytes.push(((p / 0x100) % 256) as u8);
        bytes.push(((p / 0x1_0000) % 256) as u8);
        bytes.push(((p / 0x100_0000) % 256) as u8);
        i += 1;
    }
    bytes
}

/// Sets the pixel at `(x, y)` to `color` if the position lies in the
/// framebuffer, and does nothing otherwise.
pub(crate) fn put(video: &mut VideoState, x: i64, y: i64, color: u32)
    requires
        old(video).wf(),
    ensures
        final(video).wf(),
        final(video)@.same_layout(old(video)@),
        forall|px: int, py: int|
            old(video)@.contains(px, py) ==> #[trigger] final(video)@.pixel(px, py) == (if px == x
                && py == y {
                color
            } else {
                old(video)@.pixel(px, py)
            }),
{
    let w = video.width as i64;
    let h = video.height as i64;
    if x >= 0 && x < w && y >= 0 && y < h {
        proof {
            lemma_index_in_range(w as int, h as int, x as int, y as int);
        }
        let n = video.framebuffer.len();
        let idx: usize = (y as usize) * (w as usize) + (x as usize);
        video.framebuffer.set(idx, color);
        proof {
            assert forall|px: int, py: int| old(video)@.contains(px, py) implies video@.pixel(
                px,
                py,
            ) == (if px == x && py == y {
                color
            } else {
                old(video)@.pixel(px, py)
            }) by {
                lemma_index_in_range(w as int, h as int, px, py);
                if px != x || py != y {
                    lemma_index_distinct(w as int, px, py, x as int, y as int);
                }
            }
        }
    }
}

/// Reads the pixel at `(x, y)`, which must lie in the framebuffer.
pub(crate) fn get(video: &VideoState, x: i64, y: i64) -> (c: u32)
    requires
        video.wf(),
        video@.contains(x as int, y as int),
    ensures
        c == video@.pixel(x as int, y as int),
{
    proof {
        lemma_index_in_range(video.width as int, video.height as int, x as int, y as int);
    }
    let n = video.framebuffer.len();
    video.framebuffer[(y as usize) * (video.width as usize) + (x as usize)]
}

/// Sets the pixel at `(x, y)` to the draw colour if the position lies in
/// the framebuffer, and does nothing otherwise.
pub(crate) fn plot(video: &mut VideoState, x: i64, y: i64)
    requires
        old(video).wf(),
    ensures
        final(video).wf(),
        final(video)@.same_layout(old(video)@),
        forall|px: int, py: int|
            old(video)@.contains(px, py) ==> #[trigger] final(video)@.pixel(px, py) == (if px == x
                && py == y {
                old(video)@.color
            } else {
                old(video)@.pixel(px, py)
            }),
{
    let color = video.draw_color;
    put(video, x, y, color);
}

/// Draws a single pixel in the draw colour.
pub fn graphics_point(video: &mut VideoState, x: i32, y: i32)
    requires
        old(video).wf(),
    ensures
        final(video).wf(),
        final(video)@.same_layout(old(video)@),
        forall|px: int, py: int|
            old(video)@.contains(px, py) ==> #[trigger] final(video)@.pixel(px, py) == (if px == x
                && py == y {
                old(video)@.color
            } else {
                old(video)@.pixel(px, py)
            }),
{
    plot(video, x as i64, y as i64);
}

} // verus!
