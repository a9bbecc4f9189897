//! Still images: decoding PNG streams to RGBA, keeping them under keys
//! and drawing them at their own size or scaled.

use vstd::prelude::*;
use vstd::arithmetic::div_mod::lemma_fundamental_div_mod_converse;
use crate::blit::{blitted, graphics_image_from_host};
use crate::error::AvError;
use crate::memory::{guest_read, memory_view, read_guest_bytes};
use crate::resources::{
    lemma_map_values_insert, lemma_map_values_remove, lemma_register_twice_keeps_second,
    lemma_unregister_absent, PngResource, PngView, Resources, ResourcesView,
};
use crate::state::{Frame, VideoState};

verus! {

broadcast use vstd::std_specs::hash::group_hash_axioms;

/// How the samples of a decoded PNG are laid out.
#[derive(Debug, Clone, Copy, PartialEq, Eq, Structural)]
pub enum ColorKind {
    Grayscale,
    Rgb,
    Indexed,
    GrayscaleAlpha,
    Rgba,
}

/// The first frame of a PNG stream as the decoder hands it over.
#[derive(Debug)]
pub struct PngFrame {
    pub width: u32,
    pub height: u32,
    pub color: ColorKind,
    pub bytes: Vec<u8>,
}

/// The mathematical value of a [`PngFrame`].
pub ghost struct PngFrameView {
    pub width: u32,
    pub height: u32,
    pub color: ColorKind,
    pub bytes: Seq<u8>,
}

impl View for PngFrame {
    type V = PngFrameView;

    open spec fn view(&self) -> PngFrameView {
        PngFrameView { width: self.width, height: self.height, color: self.color, bytes: self.bytes@ }
    }
}

/// The view of a decoder's outcome.
pub open spec fn frame_view(r: Option<PngFrame>) -> Option<PngFrameView> {
    match r {
        Some(f) => Some(f@),
        None => None,
    }
}

/// The first frame that the `png` crate's decoder reads from a byte
/// stream, with its size and colour type; `None` where it rejects the
/// stream.
pub uninterp spec fn png_decoded(data: Seq<u8>) -> Option<PngFrameView>;

/// Decodes a PNG stream with the `png` crate: `Decoder::read_info` on
/// the bytes, then `Reader::next_frame` into a buffer of
/// `Reader::output_buffer_size` bytes, cut to the frame's
/// `OutputInfo::buffer_size`.
///
/// The contract claims only that the outcome is a function of the bytes,
/// named [`png_decoded`].
#[verifier::external_body]
fn png_decode(data: &[u8]) -> (r: Option<PngFrame>)
    ensures
        frame_view(r) == png_decoded(data@),
{
    let mut reader = png::Decoder::new(std::io::Cursor::new(data)).read_info().ok()?;
    let mut bytes = vec![0u8; reader.output_buffer_size()];
    let info = reader.next_frame(&mut bytes).ok()?;
    bytes.truncate(info.buffer_size());
    let color = match info.color_type {
        png::ColorType::Grayscale => ColorKind::Grayscale,
        png::ColorType::Rgb => ColorKind::Rgb,
        png::ColorType::Indexed => ColorKind::Indexed,
        png::ColorType::GrayscaleAlpha => ColorKind::GrayscaleAlpha,
        png::ColorType::Rgba => ColorKind::Rgba,
    };
    Some(PngFrame { width: info.width, height: info.height, color, bytes })
}

/// The number of bytes one pixel takes in a layout, or 0 for a layout
/// that cannot be expanded.
pub open spec fn bytes_per_pixel(color: ColorKind) -> int {
    match color {
        ColorKind::Grayscale => 1,
        ColorKind::GrayscaleAlpha => 2,
        ColorKind::Rgb => 3,
        ColorKind::Rgba => 4,
        ColorKind::Indexed => 0,
    }
}

/// Byte `k` of the RGBA pixel that pixel `i` of a layout expands to:
/// grey stands for all three colours, and a missing alpha is opaque.
pub open spec fn expanded_byte(color: ColorKind, bytes: Seq<u8>, i: int, k: int) -> u8 {
    match color {
        ColorKind::Grayscale => if k < 3 {
            bytes[i]
        } else {
            255u8
        },
        ColorKind::GrayscaleAlpha => if k < 3 {
            bytes[2 * i]
        } else {
            bytes[2 * i + 1]
        },
        ColorKind::Rgb => if k < 3 {
            bytes[3 * i + k]
        } else {
            255u8
        },
        _ => bytes[4 * i + k],
    }
}

/// The RGBA bytes that decoded samples expand to: four bytes for every
/// whole pixel of the layout. Indexed samples expand to nothing.
pub open spec fn expanded(color: ColorKind, bytes: Seq<u8>) -> Option<Seq<u8>> {
    match color {
        ColorKind::Indexed => None,
        ColorKind::Rgba => Some(bytes),
        _ => Some(
            Seq::new(
                (4 * (bytes.len() as int / bytes_per_pixel(color))) as nat,
                |b: int| expanded_byte(color, bytes, b / 4, b % 4),
            ),
        ),
    }
}

/// The view of optional bytes.
pub open spec fn opt_bytes(r: Option<Vec<u8>>) -> Option<Seq<u8>> {
    match r {
        Some(v) => Some(v@),
        None => None,
    }
}

/// Expands decoded samples to RGBA.
pub fn expand_to_rgba(color: ColorKind, bytes: Vec<u8>) -> (r: Option<Vec<u8>>)
    ensures
        opt_bytes(r) == expanded(color, bytes@),
{
    let step: usize = match color {
        ColorKind::Indexed => {
            return None;
        },
        ColorKind::Rgba => {
            return Some(bytes);
        },
        ColorKind::Grayscale => 1,
        ColorKind::GrayscaleAlpha => 2,
        ColorKind::Rgb => 3,
    };
    let total: usize = bytes.len();
    let n: usize = total / step;
    let mut out: Vec<u8> = Vec::new();
    let mut i: usize = 0;
    while i < n
        invariant
            i <= n,
            total == bytes@.len(),
            n == total / step,
            step == bytes_per_pixel(color),
            1 <= step <= 3,
            out@.len() == 4 * i,
            forall|b: int| 0 <= b < 4 * i ==> out@[b] == expanded_byte(color, bytes@, b / 4, b % 4),
        decreases n - i,
    {
        let base: usize = step * i;
        assert(base + step <= total) by (nonlinear_arith)
            requires
                base == step * i,
                i < n,
                n == total / step,
                step >= 1,
        ;
        let first = bytes[base];
        let (r, g, b, a) = match color {
            ColorKind::Grayscale => (first, first, first, 255u8),
            ColorKind::GrayscaleAlpha => (first, first, first, bytes[base + 1]),
            _ => (first, bytes[base + 1], bytes[base + 2], 255u8),
        };
        out.push(r);
        out.push(g);
        out.push(b);
        out.push(a);
        proof {
            assert forall|q: int| 0 <= q < 4 * (i + 1) implies out@[q] == expanded_byte(
                color,
                bytes@,
                q / 4,
                q % 4,
            ) by {
                if q >= 4 * i {
                    lemma_fundamental_div_mod_converse(q, 4, i as int, q - 4 * i);
                }
            }
        }
        i += 1;
    }
    Some(out)
}

/// The image that a decoded frame gives: its size, with its samples as
/// RGBA. A frame with a zero side or with indexed samples gives none.
pub open spec fn image_of(frame: PngFrameView) -> Option<PngView> {
    if frame.width == 0 || frame.height == 0 {
        None
    } else {
        match expanded(frame.color, frame.bytes) {
            Some(rgba) => Some(
                PngView { rgba, width: frame.width as int, height: frame.height as int },
            ),
            None => None,
        }
    }
}

/// The image that a PNG stream decodes to, if it does.
pub open spec fn png_image(data: Seq<u8>) -> Option<PngView> {
    match png_decoded(data) {
        Some(frame) => image_of(frame),
        None => None,
    }
}

/// The view of an optional image.
pub open spec fn image_view(r: Option<PngResource>) -> Option<PngView> {
    match r {
        Some(p) => Some(p@),
        None => None,
    }
}

/// Turns a decoded frame into an image.
pub fn image_from_frame(frame: PngFrame) -> (r: Option<PngResource>)
    ensures
        image_view(r) == image_of(frame@),
{
    if frame.width == 0 || frame.height == 0 {
        return None;
    }
    let width = frame.width;
    let height = frame.height;
    match expand_to_rgba(frame.color, frame.bytes) {
        Some(rgba) => Some(PngResource { rgba, width, height }),
        None => None,
    }
}

/// Decodes a PNG stream to an RGBA image.
pub fn decode_png_to_rgba(png_bytes: &[u8]) -> (r: Option<PngResource>)
    ensures
        image_view(r) == png_image(png_bytes@),
{
    match png_decode(png_bytes) {
        Some(frame) => image_from_frame(frame),
        None => None,
    }
}

/// What drawing an encoded picture out of guest memory does: a failure
/// where the bytes cannot be read, nothing where they do not decode, and
/// the copy of the decoded picture otherwise.
pub open spec fn png_drawn(
    before: Frame,
    after: Frame,
    memory: Option<Seq<u8>>,
    x: int,
    y: int,
    ptr: u32,
    len: u32,
    r: Result<(), AvError>,
) -> bool {
    match guest_read(memory, ptr, len) {
        Err(e) => r == Err::<(), AvError>(e) && after == before,
        Ok(bytes) => r is Ok && match png_image(bytes) {
            Some(p) => blitted(before, after, x, y, p.width, p.height, p.rgba),
            None => after == before,
        },
    }
}

/// Decodes a PNG that lies in guest memory and draws it at `(x, y)` at
/// its own size.
pub fn graphics_image_png(
    video: &mut VideoState,
    memory: Option<&[u8]>,
    x: i32,
    y: i32,
    ptr: u32,
    len: u32,
) -> (r: Result<(), AvError>)
    requires
        old(video).wf(),
    ensures
        final(video).wf(),
        png_drawn(old(video)@, final(video)@, memory_view(memory), x as int, y as int, ptr, len, r),
{
    let bytes = match read_guest_bytes(memory, ptr, len) {
        Ok(b) => b,
        Err(e) => {
            return Err(e);
        },
    };
    match decode_png_to_rgba(bytes.as_slice()) {
        Some(p) => {
            graphics_image_from_host(video, x, y, p.width, p.height, p.rgba.as_slice());
        },
        None => {},
    }
    Ok(())
}

/// The registry after an image was registered under `key`.
pub open spec fn with_png(before: ResourcesView, key: u64, image: PngView) -> ResourcesView {
    ResourcesView { keyed_pngs: before.keyed_pngs.insert(key, image), ..before }
}

/// Stores an image under `key`, in place of any image that was there.
pub fn store_png(res: &mut Resources, key: u64, image: PngResource)
    ensures
        final(res)@ == with_png(old(res)@, key, image@),
{
    proof {
        lemma_map_values_insert(old(res).keyed_pngs@, |p: PngResource| p@, key, image);
    }
    res.keyed_pngs.insert(key, image);
}

/// Registering two images under one key, one after the other, leaves the
/// registry as if only the second had been registered: the key leads to
/// the second image, and the keys in use are those from before and `key`.
pub proof fn lemma_second_png_replaces_first(
    before: ResourcesView,
    key: u64,
    first: PngView,
    second: PngView,
)
    ensures
        with_png(with_png(before, key, first), key, second) == with_png(before, key, second),
        with_png(with_png(before, key, first), key, second).keyed_pngs[key] == second,
        with_png(with_png(before, key, first), key, second).keyed_pngs.dom()
            == before.keyed_pngs.dom().insert(key),
{
    lemma_register_twice_keeps_second(before.keyed_pngs, key, first, second);
}

/// The registry after the image under `key` was unregistered.
pub open spec fn without_png(before: ResourcesView, key: u64) -> ResourcesView {
    ResourcesView { keyed_pngs: before.keyed_pngs.remove(key), ..before }
}

/// Unregistering a key that no image is registered under changes nothing.
pub proof fn lemma_absent_png_unregisters_to_same(before: ResourcesView, key: u64)
    requires
        !before.keyed_pngs.contains_key(key),
    ensures
        without_png(before, key) == before,
{
    lemma_unregister_absent(before.keyed_pngs, key);
}

/// Registers a PNG that lies in guest memory under `key`. Answers 1 when
/// the image was registered and 0 when the bytes could not be read or
/// decoded; the registry is then left as it was.
pub fn graphics_png_register(
    res: &mut Resources,
    memory: Option<&[u8]>,
    key: u64,
    data_ptr: u32,
    data_len: u32,
) -> (r: u32)
    ensures
        match guest_read(memory_view(memory), data_ptr, data_len) {
            Ok(bytes) => match png_image(bytes) {
                Some(image) => r == 1 && final(res)@ == with_png(old(res)@, key, image),
                None => r == 0 && *final(res) == *old(res),
            },
            Err(_) => r == 0 && *final(res) == *old(res),
        },
{
    let bytes = match read_guest_bytes(memory, data_ptr, data_len) {
        Ok(b) => b,
        Err(_) => {
            return 0;
        },
    };
    match decode_png_to_rgba(bytes.as_slice()) {
        Some(image) => {
            store_png(res, key, image);
            1
        },
        None => 0,
    }
}

/// Unregisters the image under `key`; a key that is not registered
/// changes nothing.
pub fn graphics_png_unregister(res: &mut Resources, key: u64)
    ensures
        final(res)@ == without_png(old(res)@, key),
{
    proof {
        lemma_map_values_remove(old(res).keyed_pngs@, |p: PngResource| p@, key);
    }
    res.keyed_pngs.remove(&key);
}

/// Draws the image under `key` at `(x, y)` at its own size; an unknown
/// key draws nothing.
pub fn graphics_png_draw_key(video: &mut VideoState, res: &Resources, key: u64, x: i32, y: i32)
    requires
        old(video).wf(),
    ensures
        final(video).wf(),
        match res@.keyed_pngs.get(key) {
            Some(p) => blitted(old(video)@, final(video)@, x as int, y as int, p.width, p.height, p.rgba),
            None => final(video)@ == old(video)@,
        },
{
    match res.keyed_pngs.get(&key) {
        Some(p) => {
            graphics_image_from_host(video, x, y, p.width, p.height, p.rgba.as_slice());
        },
        None => {},
    }
}

/// The source coordinate that a destination coordinate samples when a
/// side of `from` pixels is scaled to `to` pixels.
pub open spec fn nearest(at: int, from: int, to: int) -> int {
    if at * from / to < from - 1 {
        at * from / to
    } else {
        from - 1
    }
}

/// The picture `sw` by `sh` scaled to `w` by `h` by nearest-neighbour
/// sampling; a destination pixel whose source pixel lies outside the
/// source buffer is transparent black.
pub open spec fn scaled(src: Seq<u8>, sw: int, sh: int, w: int, h: int) -> Seq<u8> {
    Seq::new(
        (4 * (w * h)) as nat,
        |b: int|
            {
                let at = 4 * (nearest((b / 4) / w, sh, h) * sw + nearest((b / 4) % w, sw, w));
                if at + 3 < src.len() {
                    src[at + b % 4]
                } else {
                    0u8
                }
            },
    )
}

/// Computes [`nearest`].
fn nearest_of(at: u32, from: u32, to: u32) -> (r: u32)
    requires
        at < to,
        from > 0,
    ensures
        r == nearest(at as int, from as int, to as int),
        r < from,
{
    assert(at * from <= 0xFFFF_FFFF * 0xFFFF_FFFF) by (nonlinear_arith)
        requires
            0 <= at <= 0xFFFF_FFFF,
            0 <= from <= 0xFFFF_FFFF,
    ;
    let q: u64 = (at as u64) * (from as u64) / (to as u64);
    if q < (from - 1) as u64 {
        q as u32
    } else {
        from - 1
    }
}

/// Scales an RGBA picture by nearest-neighbour sampling. Gives `None`
/// only where the scaled picture does not fit the address space.
pub fn scale_nearest(src: &[u8], sw: u32, sh: u32, w: u32, h: u32) -> (r: Option<Vec<u8>>)
    requires
        sw > 0,
        sh > 0,
        w > 0,
        h > 0,
    ensures
        match r {
            Some(dst) => dst@ == scaled(src@, sw as int, sh as int, w as int, h as int) && 4 * (w
                * h) <= usize::MAX,
            None => 4 * (w * h) > usize::MAX,
        },
{
    assert(w * h <= 0xFFFF_FFFF * 0xFFFF_FFFF) by (nonlinear_arith)
        requires
            0 <= w <= 0xFFFF_FFFF,
            0 <= h <= 0xFFFF_FFFF,
    ;
    let pixels: u64 = (w as u64) * (h as u64);
    if pixels > (usize::MAX / 4) as u64 {
        return None;
    }
    let size: usize = 4 * (pixels as usize);
    let limit: usize = src.len();
    let mut dst: Vec<u8> = vec![0u8; size];
    let ghost goal = scaled(src@, sw as int, sh as int, w as int, h as int);
    let mut dy: u32 = 0;
    let mut p: usize = 0;
    while dy < h
        invariant
            sw > 0,
            sh > 0,
            w > 0,
            dy <= h,
            p == dy * w,
            size == 4 * (w * h),
            limit == src@.len(),
            dst@.len() == size,
            goal == scaled(src@, sw as int, sh as int, w as int, h as int),
            forall|b: int| 0 <= b < 4 * p ==> dst@[b] == goal[b],
            forall|b: int| 4 * p <= b < size ==> dst@[b] == 0,
        decreases h - dy,
    {
        let sy = nearest_of(dy, sh, h);
        assert(dy * w + w <= w * h) by (nonlinear_arith)
            requires
                dy < h,
                0 <= w,
        ;
        let mut dx: u32 = 0;
        while dx < w
            invariant
                sw > 0,
                sh > 0,
                w > 0,
                dy < h,
                dx <= w,
                p == dy * w + dx,
                dy * w + w <= w * h,
                sy == nearest(dy as int, sh as int, h as int),
                sy < sh,
                size == 4 * (w * h),
                limit == src@.len(),
                dst@.len() == size,
                goal == scaled(src@, sw as int, sh as int, w as int, h as int),
                forall|b: int| 0 <= b < 4 * p ==> dst@[b] == goal[b],
                forall|b: int| 4 * p <= b < size ==> dst@[b] == 0,
            decreases w - dx,
        {
            let sx = nearest_of(dx, sw, w);
            assert(sy * sw + sx < 0xFFFF_FFFF * 0xFFFF_FFFF) by (nonlinear_arith)
                requires
                    0 <= sy < sh,
                    0 <= sx < sw,
                    sw <= 0xFFFF_FFFF,
                    sh <= 0xFFFF_FFFF,
            ;
            let at: u128 = 4 * ((sy as u128) * (sw as u128) + (sx as u128));
            if at + 3 < limit as u128 {
                let base: usize = at as usize;
                dst.set(4 * p, src[base]);
                dst.set(4 * p + 1, src[base + 1]);
                dst.set(4 * p + 2, src[base + 2]);
                dst.set(4 * p + 3, src[base + 3]);
            }
            proof {
                lemma_fundamental_div_mod_converse(p as int, w as int, dy as int, dx as int);
                assert forall|b: int| 0 <= b < 4 * (p + 1) implies dst@[b] == goal[b] by {
                    if b >= 4 * p {
                        lemma_fundamental_div_mod_converse(b, 4, p as int, b - 4 * p);
                    }
                }
            }
            dx += 1;
            p += 1;
        }
        dy += 1;
        assert(p == dy * w) by (nonlinear_arith)
            requires
                p == (dy - 1) * w + w,
        ;
    }
    assert(p == w * h) by (nonlinear_arith)
        requires
            p == dy * w,
            dy == h,
    ;
    Some(dst)
}

/// Frame `after` is frame `before` with an RGBA picture of `sw` by `sh`
/// pixels drawn at `(x, y)` in `w` by `h` pixels: at its own size where
/// `w` or `h` is zero, not at all where the picture itself has a zero
/// side or the scaled picture does not fit the address space, and
/// scaled by nearest-neighbour sampling otherwise.
pub open spec fn drawn_scaled(
    before: Frame,
    after: Frame,
    x: int,
    y: int,
    w: u32,
    h: u32,
    src: Seq<u8>,
    sw: u32,
    sh: u32,
) -> bool {
    if w == 0 || h == 0 {
        blitted(before, after, x, y, sw as int, sh as int, src)
    } else if sw == 0 || sh == 0 || 4 * (w * h) > usize::MAX {
        after == before
    } else {
        blitted(
            before,
            after,
            x,
            y,
            w as int,
            h as int,
            scaled(src, sw as int, sh as int, w as int, h as int),
        )
    }
}

/// Draws an RGBA picture of `sw` by `sh` pixels at `(x, y)` in `w` by `h`
/// pixels.
pub fn draw_scaled(
    video: &mut VideoState,
    x: i32,
    y: i32,
    w: u32,
    h: u32,
    src: &[u8],
    sw: u32,
    sh: u32,
)
    requires
        old(video).wf(),
    ensures
        final(video).wf(),
        drawn_scaled(old(video)@, final(video)@, x as int, y as int, w, h, src@, sw, sh),
{
    if w == 0 || h == 0 {
        graphics_image_from_host(video, x, y, sw, sh, src);
        return ;
    }
    if sw == 0 || sh == 0 {
        return ;
    }
    match scale_nearest(src, sw, sh, w, h) {
        Some(dst) => {
            graphics_image_from_host(video, x, y, w, h, dst.as_slice());
        },
        None => {},
    }
}

/// Draws the image under `key` at `(x, y)`, scaled to `w` by `h` pixels
/// by nearest-neighbour sampling, or at its own size where `w` or `h` is
/// zero; an unknown key draws nothing.
pub fn graphics_png_draw_key_scaled(
    video: &mut VideoState,
    res: &Resources,
    key: u64,
    x: i32,
    y: i32,
    w: u32,
    h: u32,
)
    requires
        old(video).wf(),
    ensures
        final(video).wf(),
        match res@.keyed_pngs.get(key) {
            Some(p) => drawn_scaled(
                old(video)@,
                final(video)@,
                x as int,
                y as int,
                w,
                h,
                p.rgba,
                p.width as u32,
                p.height as u32,
            ),
            None => final(video)@ == old(video)@,
        },
{
    match res.keyed_pngs.get(&key) {
        Some(p) => {
            draw_scaled(video, x, y, w, h, p.rgba.as_slice(), p.width, p.height);
        },
        None => {},
    }
}

} // verus!
