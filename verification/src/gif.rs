//! Animated images: decoding a GIF stream into frames and composing the
//! frames onto a canvas, one full RGBA picture per frame.
//!
//! The decoder hands over each frame as palette indices with its
//! rectangle and its disposal method. The canvas state machine here keeps
//! the current canvas and one saved canvas, applies the previous frame's
//! disposal, and lays the new frame's opaque pixels on top.

use vstd::prelude::*;
use vstd::arithmetic::div_mod::lemma_fundamental_div_mod_converse;

verus! {

/// What happens to a frame's rectangle before the next frame is drawn.
#[derive(Debug, Clone, Copy, PartialEq, Eq, Structural)]
pub enum Disposal {
    /// No action is asked for.
    Any,
    /// The frame stays.
    Keep,
    /// The frame's rectangle becomes transparent.
    Background,
    /// The canvas returns to what it was before the frame.
    Previous,
}

impl Disposal {
    /// The disposal that a code of the stream stands for: 1 for keep, 2
    /// for background, 3 for previous, and no action for any other.
    pub open spec fn of_code(code: u8) -> Disposal {
        if code == 1 {
            Disposal::Keep
        } else if code == 2 {
            Disposal::Background
        } else if code == 3 {
            Disposal::Previous
        } else {
            Disposal::Any
        }
    }

    /// Computes [`Disposal::of_code`].
    pub fn from_code(code: u8) -> (d: Disposal)
        ensures
            d == Disposal::of_code(code),
    {
        match code {
            1 => Disposal::Keep,
            2 => Disposal::Background,
            3 => Disposal::Previous,
            _ => Disposal::Any,
        }
    }

    /// The code of the disposal in a stream.
    pub fn code(self) -> (code: u8)
        ensures
            Disposal::of_code(code) == self,
            code <= 3,
    {
        match self {
            Disposal::Any => 0,
            Disposal::Keep => 1,
            Disposal::Background => 2,
            Disposal::Previous => 3,
        }
    }
}

/// One decoded frame: palette indices for a rectangle of the canvas.
#[derive(Debug)]
pub struct GifFrame {
    /// Display time in units of 10 ms.
    pub delay: u16,
    /// The code of the frame's disposal, as in the stream.
    pub dispose: u8,
    /// The palette index that stands for "no pixel", if there is one.
    pub transparent: Option<u8>,
    pub left: u16,
    pub top: u16,
    pub width: u16,
    pub height: u16,
    /// Whether `buffer` holds its rows in four-pass interlaced order.
    pub interlaced: bool,
    /// The frame's own palette as RGB triples, if it has one.
    pub palette: Option<Vec<u8>>,
    /// One palette index per pixel.
    pub buffer: Vec<u8>,
}

/// A decoded GIF stream, before composition.
#[derive(Debug)]
pub struct GifSource {
    pub width: u16,
    pub height: u16,
    /// The stream's palette as RGB triples, if it has one.
    pub global_palette: Option<Vec<u8>>,
    pub frames: Vec<GifFrame>,
}

/// A composed animation: one full RGBA canvas per frame.
#[derive(Debug)]
pub struct GifResource {
    pub frames: Vec<Vec<u8>>,
    /// Display time of each frame in units of 10 ms.
    pub delays: Vec<u16>,
    pub width: u16,
    pub height: u16,
}

/// The mathematical value of a [`GifFrame`].
pub ghost struct GifFrameView {
    pub delay: u16,
    pub dispose: Disposal,
    pub transparent: Option<u8>,
    pub left: int,
    pub top: int,
    pub width: int,
    pub height: int,
    pub interlaced: bool,
    pub palette: Option<Seq<u8>>,
    pub buffer: Seq<u8>,
}

/// The mathematical value of a [`GifSource`].
pub ghost struct GifSourceView {
    pub width: int,
    pub height: int,
    pub global_palette: Option<Seq<u8>>,
    pub frames: Seq<GifFrameView>,
}

/// The mathematical value of a [`GifResource`].
pub ghost struct GifResourceView {
    pub frames: Seq<Seq<u8>>,
    pub delays: Seq<u16>,
    pub width: int,
    pub height: int,
}

/// The view of an optional byte vector.
pub open spec fn bytes_view(v: Option<Vec<u8>>) -> Option<Seq<u8>> {
    match v {
        Some(b) => Some(b@),
        None => None,
    }
}

impl View for GifFrame {
    type V = GifFrameView;

    open spec fn view(&self) -> GifFrameView {
        GifFrameView {
            delay: self.delay,
            dispose: Disposal::of_code(self.dispose),
            transparent: self.transparent,
            left: self.left as int,
            top: self.top as int,
            width: self.width as int,
            height: self.height as int,
            interlaced: self.interlaced,
            palette: bytes_view(self.palette),
            buffer: self.buffer@,
        }
    }
}

impl View for GifSource {
    type V = GifSourceView;

    open spec fn view(&self) -> GifSourceView {
        GifSourceView {
            width: self.width as int,
            height: self.height as int,
            global_palette: bytes_view(self.global_palette),
            frames: Seq::new(self.frames@.len(), |i: int| self.frames@[i]@),
        }
    }
}

impl View for GifResource {
    type V = GifResourceView;

    open spec fn view(&self) -> GifResourceView {
        GifResourceView {
            frames: Seq::new(self.frames@.len(), |i: int| self.frames@[i]@),
            delays: self.delays@,
            width: self.width as int,
            height: self.height as int,
        }
    }
}

impl GifResourceView {
    /// Every frame is a full canvas and has a delay.
    pub open spec fn wf(self) -> bool {
        &&& self.frames.len() == self.delays.len()
        &&& forall|i: int|
            0 <= i < self.frames.len() ==> (#[trigger] self.frames[i]).len() == 4 * (self.width
                * self.height)
    }
}

/// The place of row `y` among the rows of a four-pass interlaced image of
/// `h` rows: first every eighth row from row 0, then every eighth from
/// row 4, then every fourth from row 2, then every second from row 1.
pub open spec fn interlaced_rank(y: int, h: int) -> int {
    let n1 = (h + 7) / 8;
    let n2 = (h + 3) / 8;
    let n3 = (h + 1) / 4;
    if y % 8 == 0 {
        y / 8
    } else if y % 8 == 4 {
        n1 + y / 8
    } else if y % 4 == 2 {
        n1 + n2 + y / 4
    } else {
        n1 + n2 + n3 + y / 2
    }
}

/// The index in the frame's buffer of the pixel that lands on canvas
/// position `(cx, cy)`, if the frame has one there.
pub open spec fn source_index(f: GifFrameView, cx: int, cy: int) -> Option<int> {
    let x = cx - f.left;
    let y = cy - f.top;
    if 0 <= x < f.width && 0 <= y {
        if f.interlaced {
            if y < f.height {
                Some(interlaced_rank(y, f.height) * f.width + x)
            } else {
                None
            }
        } else {
            Some(y * f.width + x)
        }
    } else {
        None
    }
}

/// The palette index that the frame puts on canvas position `(cx, cy)`,
/// if it puts an opaque colour there: the position has a source pixel,
/// the pixel is not the transparent index, and the palette holds its
/// entry.
pub open spec fn frame_index_at(
    f: GifFrameView,
    palette: Seq<u8>,
    cx: int,
    cy: int,
) -> Option<u8> {
    match source_index(f, cx, cy) {
        Some(i) => if i < f.buffer.len() && f.transparent != Some(f.buffer[i]) && 3
            * f.buffer[i] + 2 < palette.len() {
            Some(f.buffer[i])
        } else {
            None
        },
        None => None,
    }
}

/// Byte `k` of the RGBA pixel that palette entry `c` gives.
pub open spec fn palette_byte(palette: Seq<u8>, c: u8, k: int) -> u8 {
    if k == 3 {
        255u8
    } else {
        palette[3 * c + k]
    }
}

/// The canvas after the frame's opaque pixels were laid over it.
pub open spec fn draw_frame(
    canvas: Seq<u8>,
    w: int,
    f: GifFrameView,
    palette: Seq<u8>,
) -> Seq<u8> {
    Seq::new(
        canvas.len(),
        |b: int|
            match frame_index_at(f, palette, (b / 4) % w, (b / 4) / w) {
                Some(c) => palette_byte(palette, c, b % 4),
                None => canvas[b],
            },
    )
}

/// The canvas after the rectangle was made transparent.
pub open spec fn clear_rect(
    canvas: Seq<u8>,
    w: int,
    left: int,
    top: int,
    rw: int,
    rh: int,
) -> Seq<u8> {
    Seq::new(
        canvas.len(),
        |b: int|
            if left <= (b / 4) % w < left + rw && top <= (b / 4) / w < top + rh {
                0u8
            } else {
                canvas[b]
            },
    )
}

/// The canvas state machine: the current canvas, the canvas saved for a
/// frame that asked to be rolled back, and what the last frame asked for.
pub ghost struct CanvasState {
    pub canvas: Seq<u8>,
    pub saved: Seq<u8>,
    pub disposal: Disposal,
    pub left: int,
    pub top: int,
    pub width: int,
    pub height: int,
}

/// A transparent canvas of `w` by `h` pixels with nothing to dispose of.
pub open spec fn initial_state(w: int, h: int) -> CanvasState {
    CanvasState {
        canvas: Seq::new((4 * (w * h)) as nat, |b: int| 0u8),
        saved: Seq::new((4 * (w * h)) as nat, |b: int| 0u8),
        disposal: Disposal::Any,
        left: 0,
        top: 0,
        width: 0,
        height: 0,
    }
}

/// The canvas after the last frame's disposal was carried out.
pub open spec fn disposed(s: CanvasState, w: int) -> Seq<u8> {
    match s.disposal {
        Disposal::Any | Disposal::Keep => s.canvas,
        Disposal::Background => clear_rect(s.canvas, w, s.left, s.top, s.width, s.height),
        Disposal::Previous => s.saved,
    }
}

/// The palette a frame is drawn with: its own, else the stream's.
pub open spec fn frame_palette(f: GifFrameView, global: Option<Seq<u8>>) -> Option<Seq<u8>> {
    match f.palette {
        Some(p) => Some(p),
        None => global,
    }
}

/// One step of the state machine: dispose of the last frame, save the
/// canvas if this frame asks to be rolled back, then draw this frame.
pub open spec fn step(
    s: CanvasState,
    w: int,
    f: GifFrameView,
    global: Option<Seq<u8>>,
) -> CanvasState {
    let base = disposed(s, w);
    CanvasState {
        canvas: match frame_palette(f, global) {
            Some(p) => draw_frame(base, w, f, p),
            None => base,
        },
        saved: if f.dispose == Disposal::Previous {
            base
        } else {
            s.saved
        },
        disposal: f.dispose,
        left: f.left,
        top: f.top,
        width: f.width,
        height: f.height,
    }
}

/// The state after the first `k` frames of the stream.
pub open spec fn state_after(src: GifSourceView, k: nat) -> CanvasState
    decreases k,
{
    if k == 0 {
        initial_state(src.width, src.height)
    } else {
        step(
            state_after(src, (k - 1) as nat),
            src.width,
            src.frames[k - 1],
            src.global_palette,
        )
    }
}

/// The animation that a decoded stream composes to: after each frame,
/// the canvas as it then stands.
pub open spec fn composed(src: GifSourceView) -> GifResourceView {
    GifResourceView {
        frames: Seq::new(src.frames.len(), |k: int| state_after(src, (k + 1) as nat).canvas),
        delays: Seq::new(src.frames.len(), |k: int| src.frames[k].delay),
        width: src.width,
        height: src.height,
    }
}

/// Every frame of a composed animation is a full canvas of the stream's
/// size, and has its delay.
pub proof fn lemma_composed_is_whole(src: GifSourceView)
    requires
        0 <= src.width,
        0 <= src.height,
    ensures
        composed(src).wf(),
{
    assert forall|i: int| 0 <= i < composed(src).frames.len() implies (
    #[trigger] composed(src).frames[i]).len() == 4 * (src.width * src.height) by {
        lemma_state_sizes(src, (i + 1) as nat);
    }
}

/// Every state of the machine holds canvases of the stream's size.
pub proof fn lemma_state_sizes(src: GifSourceView, k: nat)
    requires
        0 <= src.width,
        0 <= src.height,
    ensures
        state_after(src, k).canvas.len() == 4 * (src.width * src.height),
        state_after(src, k).saved.len() == 4 * (src.width * src.height),
    decreases k,
{
    if k > 0 {
        lemma_state_sizes(src, (k - 1) as nat);
    }
    assert(0 <= src.width * src.height) by (nonlinear_arith)
        requires
            0 <= src.width,
            0 <= src.height,
    ;
}

/// Computes [`interlaced_rank`].
fn rank_of_row(y: usize, h: usize) -> (r: usize)
    requires
        y < h,
        h <= 0xffff,
    ensures
        r == interlaced_rank(y as int, h as int),
        r < h,
{
    let n1: usize = (h + 7) / 8;
    let n2: usize = (h + 3) / 8;
    let n3: usize = (h + 1) / 4;
    proof {
        // The first three passes hold every even row.
        let k = h as int / 8;
        let m = h as int % 8;
        assert(h == 8 * k + m);
        assert(n1 == if m == 0 { k } else { k + 1 });
        assert(n2 == if m <= 4 { k } else { k + 1 });
        assert(n3 == if m <= 2 { 2 * k } else if m <= 6 { 2 * k + 1 } else { 2 * k + 2 });
        assert(n1 + n2 + n3 == (h + 1) / 2);
    }
    if y % 8 == 0 {
        y / 8
    } else if y % 8 == 4 {
        n1 + y / 8
    } else if y % 4 == 2 {
        n1 + n2 + y / 4
    } else {
        n1 + n2 + n3 + y / 2
    }
}

/// Computes [`frame_index_at`] for one canvas position.
fn index_at(f: &GifFrame, palette: &Vec<u8>, cx: usize, cy: usize) -> (r: Option<u8>)
    requires
        cx <= 0xffff,
        cy <= 0xffff,
    ensures
        r == frame_index_at(f@, palette@, cx as int, cy as int),
{
    let left: usize = f.left as usize;
    let top: usize = f.top as usize;
    let fw: usize = f.width as usize;
    let fh: usize = f.height as usize;
    if cx < left || cx - left >= fw || cy < top {
        return None;
    }
    let x: usize = cx - left;
    let y: usize = cy - top;
    let row: usize = if f.interlaced {
        if y >= fh {
            return None;
        }
        rank_of_row(y, fh)
    } else {
        y
    };
    assert(row * fw <= 0xffff * 0xffff) by (nonlinear_arith)
        requires
            row <= 0xffff,
            fw <= 0xffff,
    ;
    let i: usize = row * fw + x;
    if i >= f.buffer.len() {
        return None;
    }
    let c: u8 = f.buffer[i];
    let is_transparent = match f.transparent {
        Some(t) => t == c,
        None => false,
    };
    if is_transparent || 3 * (c as usize) + 2 >= palette.len() {
        return None;
    }
    Some(c)
}

/// Lays the frame's opaque pixels over the canvas.
fn draw_onto(canvas: &mut Vec<u8>, w: usize, h: usize, f: &GifFrame, palette: &Vec<u8>)
    requires
        w <= 0xffff,
        h <= 0xffff,
        old(canvas)@.len() == 4 * (w * h),
    ensures
        final(canvas)@ == draw_frame(old(canvas)@, w as int, f@, palette@),
{
    let total: usize = canvas.len();
    let mut cy: usize = 0;
    let mut p: usize = 0;
    assert(w * h <= 0xffff * 0xffff) by (nonlinear_arith)
        requires
            w <= 0xffff,
            h <= 0xffff,
    ;
    while cy < h
        invariant
            w <= 0xffff,
            h <= 0xffff,
            cy <= h,
            p == cy * w,
            w * h <= 0xffff * 0xffff,
            canvas@.len() == old(canvas)@.len(),
            canvas@.len() == 4 * (w * h),
            canvas@.len() == total,
            forall|b: int|
                0 <= b < 4 * p ==> canvas@[b] == #[trigger] draw_frame(
                    old(canvas)@,
                    w as int,
                    f@,
                    palette@,
                )[b],
            forall|b: int| 4 * p <= b < canvas@.len() ==> canvas@[b] == old(canvas)@[b],
        decreases h - cy,
    {
        let mut cx: usize = 0;
        assert(cy * w + w <= w * h) by (nonlinear_arith)
            requires
                cy < h,
                0 <= w,
        ;
        while cx < w
            invariant
                w <= 0xffff,
                h <= 0xffff,
                cy < h,
                cx <= w,
                p == cy * w + cx,
                cy * w + w <= w * h,
                w * h <= 0xffff * 0xffff,
                canvas@.len() == old(canvas)@.len(),
                canvas@.len() == 4 * (w * h),
                canvas@.len() == total,
            canvas@.len() == total,
                forall|b: int|
                    0 <= b < 4 * p ==> canvas@[b] == #[trigger] draw_frame(
                        old(canvas)@,
                        w as int,
                        f@,
                        palette@,
                    )[b],
                forall|b: int| 4 * p <= b < canvas@.len() ==> canvas@[b] == old(canvas)@[b],
            decreases w - cx,
        {
            let hit = index_at(f, palette, cx, cy);
            proof {
                lemma_fundamental_div_mod_converse(p as int, w as int, cy as int, cx as int);
            }
            match hit {
                Some(c) => {
                    let base: usize = 3 * (c as usize);
                    canvas.set(4 * p, palette[base]);
                    canvas.set(4 * p + 1, palette[base + 1]);
                    canvas.set(4 * p + 2, palette[base + 2]);
                    canvas.set(4 * p + 3, 255);
                },
                None => {},
            }
            proof {
                let target = draw_frame(old(canvas)@, w as int, f@, palette@);
                assert forall|b: int| 0 <= b < 4 * (p + 1) implies canvas@[b] == target[b] by {
                    if b >= 4 * p {
                        lemma_fundamental_div_mod_converse(b, 4, p as int, b - 4 * p);
                    }
                }
            }
            cx += 1;
            p += 1;
        }
        cy += 1;
        assert(p == cy * w) by (nonlinear_arith)
            requires
                p == (cy - 1) * w + w,
        ;
    }
    assert(p == w * h) by (nonlinear_arith)
        requires
            p == cy * w,
            cy == h,
    ;
}

/// Makes the rectangle transparent.
fn clear_onto(canvas: &mut Vec<u8>, w: usize, h: usize, left: u16, top: u16, rw: u16, rh: u16)
    requires
        w <= 0xffff,
        h <= 0xffff,
        old(canvas)@.len() == 4 * (w * h),
    ensures
        final(canvas)@ == clear_rect(
            old(canvas)@,
            w as int,
            left as int,
            top as int,
            rw as int,
            rh as int,
        ),
{
    let total: usize = canvas.len();
    let mut cy: usize = 0;
    let mut p: usize = 0;
    let ghost target = clear_rect(
        old(canvas)@,
        w as int,
        left as int,
        top as int,
        rw as int,
        rh as int,
    );
    assert(w * h <= 0xffff * 0xffff) by (nonlinear_arith)
        requires
            w <= 0xffff,
            h <= 0xffff,
    ;
    while cy < h
        invariant
            w <= 0xffff,
            h <= 0xffff,
            cy <= h,
            p == cy * w,
            w * h <= 0xffff * 0xffff,
            canvas@.len() == old(canvas)@.len(),
            canvas@.len() == 4 * (w * h),
            canvas@.len() == total,
            target == clear_rect(
                old(canvas)@,
                w as int,
                left as int,
                top as int,
                rw as int,
                rh as int,
            ),
            forall|b: int| 0 <= b < 4 * p ==> canvas@[b] == target[b],
            forall|b: int| 4 * p <= b < canvas@.len() ==> canvas@[b] == old(canvas)@[b],
        decreases h - cy,
    {
        let mut cx: usize = 0;
        assert(cy * w + w <= w * h) by (nonlinear_arith)
            requires
                cy < h,
                0 <= w,
        ;
        let in_rows = top as usize <= cy && cy - (top as usize) < rh as usize;
        while cx < w
            invariant
                w <= 0xffff,
                h <= 0xffff,
                cy < h,
                cx <= w,
                p == cy * w + cx,
                cy * w + w <= w * h,
                w * h <= 0xffff * 0xffff,
                in_rows == (top <= cy < top + rh),
                canvas@.len() == old(canvas)@.len(),
                canvas@.len() == 4 * (w * h),
                canvas@.len() == total,
            canvas@.len() == total,
                target == clear_rect(
                    old(canvas)@,
                    w as int,
                    left as int,
                    top as int,
                    rw as int,
                    rh as int,
                ),
                forall|b: int| 0 <= b < 4 * p ==> canvas@[b] == target[b],
                forall|b: int| 4 * p <= b < canvas@.len() ==> canvas@[b] == old(canvas)@[b],
            decreases w - cx,
        {
            proof {
                lemma_fundamental_div_mod_converse(p as int, w as int, cy as int, cx as int);
            }
            if in_rows && left as usize <= cx && cx - (left as usize) < rw as usize {
                canvas.set(4 * p, 0);
                canvas.set(4 * p + 1, 0);
                canvas.set(4 * p + 2, 0);
                canvas.set(4 * p + 3, 0);
            }
            proof {
                assert forall|b: int| 0 <= b < 4 * (p + 1) implies canvas@[b] == target[b] by {
                    if b >= 4 * p {
                        lemma_fundamental_div_mod_converse(b, 4, p as int, b - 4 * p);
                    }
                }
            }
            cx += 1;
            p += 1;
        }
        cy += 1;
        assert(p == cy * w) by (nonlinear_arith)
            requires
                p == (cy - 1) * w + w,
        ;
    }
    assert(p == w * h) by (nonlinear_arith)
        requires
            p == cy * w,
            cy == h,
    ;
}

/// A copy of `v`.
fn copy_bytes(v: &Vec<u8>) -> (r: Vec<u8>)
    ensures
        r@ == v@,
{
    let r = v.clone();
    r
}

/// Composes a decoded stream into its animation: one full canvas per
/// frame, after the disposal of the frame before it and the frame's own
/// pixels.
///
/// Gives `None` only where a canvas of the stream's size does not fit
/// the address space.
pub fn compose_frames(src: &GifSource) -> (r: Option<GifResource>)
    ensures
        match r {
            Some(g) => g@ == composed(src@) && 4 * (src@.width * src@.height) <= usize::MAX,
            None => 4 * (src@.width * src@.height) > usize::MAX,
        },
{
    let w: usize = src.width as usize;
    let h: usize = src.height as usize;
    assert(w * h <= 0xffff * 0xffff) by (nonlinear_arith)
        requires
            w <= 0xffff,
            h <= 0xffff,
    ;
    let pixels: usize = w * h;
    if pixels > usize::MAX / 4 {
        return None;
    }
    let size: usize = 4 * pixels;
    let mut canvas: Vec<u8> = vec![0u8; size];
    let mut saved: Vec<u8> = vec![0u8; size];
    let mut disposal = Disposal::Any;
    let mut left: u16 = 0;
    let mut top: u16 = 0;
    let mut width: u16 = 0;
    let mut height: u16 = 0;
    let mut frames: Vec<Vec<u8>> = Vec::new();
    let mut delays: Vec<u16> = Vec::new();
    let n: usize = src.frames.len();
    let mut k: usize = 0;
    assert(canvas@ =~= initial_state(w as int, h as int).canvas);
    assert(saved@ =~= initial_state(w as int, h as int).saved);
    while k < n
        invariant
            k <= n,
            n == src.frames@.len(),
            w == src.width,
            h == src.height,
            size == 4 * (w * h),
            canvas@.len() == size,
            saved@.len() == size,
            state_after(src@, k as nat) == (CanvasState {
                canvas: canvas@,
                saved: saved@,
                disposal,
                left: left as int,
                top: top as int,
                width: width as int,
                height: height as int,
            }),
            frames@.len() == k,
            delays@.len() == k,
            forall|i: int|
                0 <= i < k ==> (#[trigger] frames@[i])@ == state_after(src@, (i + 1) as nat).canvas,
            forall|i: int| 0 <= i < k ==> #[trigger] delays@[i] == src.frames@[i].delay,
        decreases n - k,
    {
        let f = &src.frames[k];
        match disposal {
            Disposal::Background => {
                clear_onto(&mut canvas, w, h, left, top, width, height);
            },
            Disposal::Previous => {
                canvas = copy_bytes(&saved);
            },
            _ => {},
        }
        let asked = Disposal::from_code(f.dispose);
        if asked == Disposal::Previous {
            saved = copy_bytes(&canvas);
        }
        disposal = asked;
        left = f.left;
        top = f.top;
        width = f.width;
        height = f.height;
        match &f.palette {
            Some(p) => {
                draw_onto(&mut canvas, w, h, f, p);
            },
            None => match &src.global_palette {
                Some(p) => {
                    draw_onto(&mut canvas, w, h, f, p);
                },
                None => {},
            },
        }
        frames.push(copy_bytes(&canvas));
        delays.push(f.delay);
        k += 1;
    }
    let g = GifResource { frames, delays, width: src.width, height: src.height };
    assert(g@.frames =~= composed(src@).frames);
    assert(g@.delays =~= composed(src@).delays);
    Some(g)
}

/// The stream that the `gif` crate's decoder reads from bytes: its size,
/// its global palette and its frames in order, each as palette indices
/// with the fields that the decoder reports for it; `None` where the
/// decoder rejects the stream or one of its frames.
pub uninterp spec fn gif_decoded(data: Seq<u8>) -> Option<GifSourceView>;

/// The view of a decoder's outcome.
pub open spec fn source_view(r: Option<GifSource>) -> Option<GifSourceView> {
    match r {
        Some(s) => Some(s@),
        None => None,
    }
}

/// Decodes a GIF stream with the `gif` crate: `Decoder::new` on the
/// bytes, `Decoder::read_next_frame` until the stream ends, then
/// `Decoder::width`, `Decoder::height` and `Decoder::global_palette`.
/// A frame's disposal is handed over as the number of the crate's
/// `DisposalMethod`.
///
/// The contract claims only that the outcome is a function of the bytes,
/// named [`gif_decoded`].
#[verifier::external_body]
fn gif_decode(data: &[u8]) -> (r: Option<GifSource>)
    ensures
        source_view(r) == gif_decoded(data@),
{
    let mut d = gif::Decoder::new(data).ok()?;
    let mut frames = Vec::new();
    while let Some(f) = d.read_next_frame().ok()? {
        frames.push(GifFrame { delay: f.delay, dispose: f.dispose as u8, transparent: f.transparent, left: f.left, top: f.top, width: f.width, height: f.height, interlaced: f.interlaced, palette: f.palette.clone(), buffer: f.buffer.to_vec() });
    }
    Some(GifSource { width: d.width(), height: d.height(), global_palette: d.global_palette().map(|p| p.to_vec()), frames })
}

/// The animation that a byte stream decodes and composes to, if it does.
pub open spec fn gif_resource_of(data: Seq<u8>) -> Option<GifResourceView> {
    match gif_decoded(data) {
        Some(src) => if 4 * (src.width * src.height) <= usize::MAX {
            Some(composed(src))
        } else {
            None
        },
        None => None,
    }
}

/// The view of a composed animation, if there is one.
pub open spec fn resource_view(r: Option<GifResource>) -> Option<GifResourceView> {
    match r {
        Some(g) => Some(g@),
        None => None,
    }
}

/// Decodes a GIF stream and composes its frames.
pub fn decode_gif(data: &[u8]) -> (r: Option<GifResource>)
    ensures
        resource_view(r) == gif_resource_of(data@),
{
    match gif_decode(data) {
        Some(src) => compose_frames(&src),
        None => None,
    }
}

} // verus!
