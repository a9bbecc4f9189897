//! Drawing and measuring text.
//!
//! Text in a bitmap font is drawn cell by cell: every character takes a
//! cell as wide as the font's glyphs, and a pixel of the cell takes the
//! draw colour where the glyph's row has its bit set. Text in an outline
//! font is drawn from rasterized glyphs: each glyph's coverage is blended
//! into the framebuffer, and the pen moves on by the glyph's advance.

use vstd::prelude::*;
use vstd::arithmetic::div_mod::lemma_fundamental_div_mod_converse;
use std::collections::HashMap;
use crate::bdf::table_view;
use crate::font::row_stride;
use crate::mixing::div_toward_zero;
use crate::raster::{get, lemma_frames_equal, lemma_index_distinct, lemma_index_in_range, plot, put};
use crate::resources::{FontResource, FontView, Resources, ResourcesView};
use crate::state::{Frame, VideoState};
use crate::text::{guest_text, read_guest_text};

verus! {

broadcast use vstd::std_specs::hash::group_hash_axioms;

/// The characters of a string.
pub fn chars_of(s: &str) -> (r: Vec<char>)
    ensures
        r@ == s@,
{
    let mut out: Vec<char> = Vec::new();
    for c in it: s.chars()
        invariant
            out@ == it.seq().take(it.index() as int),
            it.seq() == s@,
    {
        out.push(c);
    }
    out
}

/// The glyph with these rows has the pixel in column `col` of row `row`
/// set. A row takes `stride` bytes, and the leftmost pixel is the
/// highest bit of its first byte.
pub open spec fn row_bit(rows: Seq<u8>, stride: int, col: int, row: int) -> bool {
    let i = row * stride + col / 8;
    &&& 0 <= row
    &&& 0 <= col < 8 * stride
    &&& i < rows.len()
    &&& rows[i] & (0x80u8 >> ((col % 8) as u8)) != 0
}

/// Text in a bitmap font covers `(px, py)`: the position lies in the
/// cell of one of the characters, the font has a glyph for the
/// character, and the glyph has the pixel set.
pub open spec fn text_covers(
    chars: Seq<char>,
    glyphs: Map<u32, Seq<u8>>,
    width: int,
    x: int,
    y: int,
    px: int,
    py: int,
) -> bool {
    &&& width > 0
    &&& px >= x
    &&& (px - x) / width < chars.len()
    &&& glyphs.contains_key(chars[(px - x) / width] as u32)
    &&& row_bit(glyphs[chars[(px - x) / width] as u32], row_stride(width), (px - x) % width, py - y)
}

/// Whether the glyph with these rows has the pixel in column `col` of
/// row `row` set.
fn bit_at(rows: &Vec<u8>, stride: usize, col: u32, row: usize) -> (r: bool)
    requires
        1 <= stride <= 0x2000_0000,
        col < 8 * stride,
    ensures
        r == row_bit(rows@, stride as int, col as int, row as int),
{
    let n = rows.len();
    let byte: usize = (col / 8) as usize;
    if n <= byte || row > (n - byte) / stride {
        proof {
            if n > byte {
                assert(row * stride + byte >= n) by (nonlinear_arith)
                    requires
                        row > (n - byte) / (stride as int),
                        stride >= 1,
                        n > byte,
                ;
            }
        }
        return false;
    }
    assert(row * stride <= n - byte) by (nonlinear_arith)
        requires
            row <= (n - byte) / (stride as int),
            stride >= 1,
            n > byte,
    ;
    let i: usize = row * stride + byte;
    if i >= n {
        return false;
    }
    let shift: u8 = (col % 8) as u8;
    rows[i] & (0x80u8 >> shift) != 0
}

/// Draws one glyph of a bitmap font with its cell's corner at
/// `(gx, gy)`.
fn draw_cell(video: &mut VideoState, rows: &Vec<u8>, width: u32, gx: i64, gy: i64)
    requires
        old(video).wf(),
        width > 0,
        -0x1_0000_0000 <= gx <= 0x1_0000_0000,
        -0x1_0000_0000 <= gy <= 0x1_0000_0000,
    ensures
        final(video).wf(),
        final(video)@.same_layout(old(video)@),
        forall|px: int, py: int|
            old(video)@.contains(px, py) ==> #[trigger] final(video)@.pixel(px, py) == (if gx
                <= px < gx + width && row_bit(
                rows@,
                row_stride(width as int),
                px - gx,
                py - gy,
            ) {
                old(video)@.color
            } else {
                old(video)@.pixel(px, py)
            }),
{
    let stride: usize = ((width as u64 + 7) / 8) as usize;
    let height = video.height as i64;
    let limit = video.width as i64;
    let total: usize = rows.len();
    let ghost color = old(video)@.color;
    let mut row: usize = 0;
    while row < total && (gy as i128) + (row as i128) < height as i128
        invariant
            video.wf(),
            video@.same_layout(old(video)@),
            color == old(video)@.color,
            width > 0,
            stride == row_stride(width as int),
            1 <= stride <= 0x2000_0000,
            height == video.height,
            limit == video.width,
            total == rows@.len(),
            row <= total,
            -0x1_0000_0000 <= gx <= 0x1_0000_0000,
            -0x1_0000_0000 <= gy <= 0x1_0000_0000,
            forall|px: int, py: int|
                old(video)@.contains(px, py) ==> #[trigger] video@.pixel(px, py) == (if gx <= px
                    < gx + width && py - gy < row && row_bit(
                    rows@,
                    stride as int,
                    px - gx,
                    py - gy,
                ) {
                    color
                } else {
                    old(video)@.pixel(px, py)
                }),
        decreases total - row,
    {
        let py: i64 = ((gy as i128) + (row as i128)) as i64;
        let mut col: u32 = 0;
        while col < width && gx + (col as i64) < limit
            invariant
                video.wf(),
                video@.same_layout(old(video)@),
                color == old(video)@.color,
                width > 0,
                limit == video.width,
                stride == row_stride(width as int),
                1 <= stride <= 0x2000_0000,
                row < total,
                total == rows@.len(),
                col <= width,
                py == gy + row,
                height == video.height,
                py < height,
                -0x1_0000_0000 <= gx <= 0x1_0000_0000,
                -0x1_0000_0000 <= gy <= 0x1_0000_0000,
                forall|px: int, py: int|
                    old(video)@.contains(px, py) ==> #[trigger] video@.pixel(px, py) == (if gx
                        <= px < gx + width && (py - gy < row || (py - gy == row && px - gx < col))
                        && row_bit(rows@, stride as int, px - gx, py - gy) {
                        color
                    } else {
                        old(video)@.pixel(px, py)
                    }),
            decreases width - col,
        {
            let ghost before = video@;
            if bit_at(rows, stride, col, row) {
                plot(video, gx + col as i64, py);
            }
            proof {
                assert forall|qx: int, qy: int| old(video)@.contains(qx, qy) implies video@.pixel(
                    qx,
                    qy,
                ) == (if gx <= qx < gx + width && (qy - gy < row || (qy - gy == row && qx - gx < col
                    + 1)) && row_bit(rows@, stride as int, qx - gx, qy - gy) {
                    color
                } else {
                    old(video)@.pixel(qx, qy)
                }) by {
                    let _ = before.pixel(qx, qy);
                }
            }
            col += 1;
        }
        row += 1;
    }
    proof {
        assert forall|px: int, py: int| old(video)@.contains(px, py) implies video@.pixel(px, py)
            == (if gx <= px < gx + width && row_bit(rows@, stride as int, px - gx, py - gy) {
            color
        } else {
            old(video)@.pixel(px, py)
        }) by {
            if row_bit(rows@, stride as int, px - gx, py - gy) && py - gy >= row {
                if row >= total {
                    assert((py - gy) * stride >= total * stride) by (nonlinear_arith)
                        requires
                            py - gy >= total,
                            stride >= 1,
                    ;
                    assert(total * stride >= total) by (nonlinear_arith)
                        requires
                            total >= 0,
                            stride >= 1,
                    ;
                }
            }
        }
    }
}

/// Draws text in a bitmap font with the first cell's corner at `(x, y)`.
pub fn draw_bitmap_text(
    video: &mut VideoState,
    x: i32,
    y: i32,
    width: u32,
    glyphs: &HashMap<u32, Vec<u8>>,
    chars: &Vec<char>,
)
    requires
        old(video).wf(),
    ensures
        final(video).wf(),
        final(video)@.same_layout(old(video)@),
        forall|px: int, py: int|
            old(video)@.contains(px, py) ==> #[trigger] final(video)@.pixel(px, py) == (
            if text_covers(chars@, table_view(*glyphs), width as int, x as int, y as int, px, py) {
                old(video)@.color
            } else {
                old(video)@.pixel(px, py)
            }),
{
    if width == 0 {
        return ;
    }
    let limit = video.width as i64;
    let n = chars.len();
    let ghost color = old(video)@.color;
    let ghost table = table_view(*glyphs);
    let mut pen: i64 = x as i64;
    let mut k: usize = 0;
    proof {
        assert(0 * (width as int) == 0) by (nonlinear_arith);
    }
    while k < n && pen < limit
        invariant
            video.wf(),
            video@.same_layout(old(video)@),
            color == old(video)@.color,
            table == table_view(*glyphs),
            width > 0,
            limit == video.width,
            n == chars@.len(),
            k <= n,
            pen == x + k * width,
            x <= pen,
            forall|px: int, py: int|
                old(video)@.contains(px, py) ==> #[trigger] video@.pixel(px, py) == (if px < pen
                    && text_covers(chars@, table, width as int, x as int, y as int, px, py) {
                    color
                } else {
                    old(video)@.pixel(px, py)
                }),
        decreases n - k,
    {
        let code: u32 = chars[k] as u32;
        let ghost before = video@;
        let found = glyphs.get(&code);
        match found {
            Some(rows) => {
                draw_cell(video, rows, width, pen, y as i64);
            },
            None => {
            },
        }
        proof {
            assert((k + 1) * (width as int) == k * width + width) by (nonlinear_arith);
            assert forall|px: int, py: int| old(video)@.contains(px, py) implies video@.pixel(
                px,
                py,
            ) == (if px < pen + width && text_covers(
                chars@,
                table,
                width as int,
                x as int,
                y as int,
                px,
                py,
            ) {
                color
            } else {
                old(video)@.pixel(px, py)
            }) by {
                let _ = before.pixel(px, py);
                if pen <= px < pen + width {
                    lemma_fundamental_div_mod_converse(
                        px - x,
                        width as int,
                        k as int,
                        px - pen,
                    );
                } else if px >= x && px < pen {
                    lemma_cell_before(px - x, width as int, k as int);
                }
            }
        }
        pen = pen + width as i64;
        k += 1;
    }
    proof {
        assert forall|px: int, py: int| old(video)@.contains(px, py) implies video@.pixel(px, py)
            == (if text_covers(chars@, table, width as int, x as int, y as int, px, py) {
            color
        } else {
            old(video)@.pixel(px, py)
        }) by {
            if px >= pen && px >= x {
                // The loop ended with every character drawn: the position
                // lies behind the last cell.
                lemma_cell_behind(px - x, width as int, n as int);
            }
        }
    }
}

/// An offset below `k * width` lies in a cell before cell `k`.
proof fn lemma_cell_before(offset: int, width: int, k: int)
    requires
        0 <= offset < k * width,
        width > 0,
    ensures
        offset / width < k,
{
    if offset / width >= k {
        vstd::arithmetic::div_mod::lemma_fundamental_div_mod(offset, width);
        assert(width * (offset / width) >= width * k) by (nonlinear_arith)
            requires
                offset / width >= k,
                width > 0,
        ;
        assert(width * k == k * width) by (nonlinear_arith);
    }
}

/// An offset of at least `n * width` lies in no cell before cell `n`.
proof fn lemma_cell_behind(offset: int, width: int, n: int)
    requires
        offset >= n * width,
        width > 0,
        n >= 0,
    ensures
        offset / width >= n,
{
    if offset / width < n {
        vstd::arithmetic::div_mod::lemma_fundamental_div_mod(offset, width);
        assert(width * (offset / width) + width <= width * n) by (nonlinear_arith)
            requires
                offset / width < n,
                width > 0,
        ;
        assert(width * n == n * width) by (nonlinear_arith);
    }
}

/// A glyph of an outline font, rasterized: its size, how far the pen
/// moves on behind it in 64ths of a pixel, and its coverage, one byte
/// per pixel, row after row.
#[derive(Debug, Clone)]
pub struct RasterGlyph {
    pub width: u32,
    pub height: u32,
    pub advance: i32,
    pub coverage: Vec<u8>,
}

/// The mathematical value of a [`RasterGlyph`].
pub ghost struct GlyphView {
    pub width: int,
    pub height: int,
    pub advance: int,
    pub coverage: Seq<u8>,
}

impl View for RasterGlyph {
    type V = GlyphView;

    open spec fn view(&self) -> GlyphView {
        GlyphView {
            width: self.width as int,
            height: self.height as int,
            advance: self.advance as int,
            coverage: self.coverage@,
        }
    }
}

/// The views of a run of glyphs.
pub open spec fn glyph_views(glyphs: Seq<RasterGlyph>) -> Seq<GlyphView> {
    Seq::new(glyphs.len(), |i: int| glyphs[i]@)
}

/// The red channel of a packed colour.
pub open spec fn red(c: u32) -> int {
    (c as int / 65536) % 256
}

/// The green channel of a packed colour.
pub open spec fn green(c: u32) -> int {
    (c as int / 256) % 256
}

/// The blue channel of a packed colour.
pub open spec fn blue(c: u32) -> int {
    c as int % 256
}

/// A channel of the foreground over a channel of the background with
/// coverage `a` of 255.
pub open spec fn blend_channel(fg: int, bg: int, a: int) -> int {
    (fg * a + bg * (255 - a)) / 255
}

/// The foreground colour over the background colour with coverage `a` of
/// 255, channel by channel.
pub open spec fn blend(fg: u32, bg: u32, a: u8) -> u32 {
    (blend_channel(red(fg), red(bg), a as int) * 65536 + blend_channel(
        green(fg),
        green(bg),
        a as int,
    ) * 256 + blend_channel(blue(fg), blue(bg), a as int)) as u32
}

/// Blends one channel.
fn blend_one(fg: u32, bg: u32, a: u32) -> (r: u32)
    requires
        fg <= 255,
        bg <= 255,
        a <= 255,
    ensures
        r == blend_channel(fg as int, bg as int, a as int),
        r <= 255,
{
    assert(fg * a <= 255 * a) by (nonlinear_arith)
        requires
            fg <= 255,
            0 <= a,
    ;
    assert(bg * (255 - a) <= 255 * (255 - a)) by (nonlinear_arith)
        requires
            bg <= 255,
            0 <= 255 - a,
    ;
    (fg * a + bg * (255 - a)) / 255
}

/// Blends the foreground colour over the background colour.
pub fn blend_colors(fg: u32, bg: u32, a: u8) -> (r: u32)
    ensures
        r == blend(fg, bg, a),
{
    let fr = (fg >> 16) & 0xFF;
    let fgr = (fg >> 8) & 0xFF;
    let fb = fg & 0xFF;
    let br = (bg >> 16) & 0xFF;
    let bgr = (bg >> 8) & 0xFF;
    let bb = bg & 0xFF;
    assert((fg >> 16) & 0xFF == (fg / 65536) % 256 && (fg >> 8) & 0xFF == (fg / 256) % 256 && fg
        & 0xFF == fg % 256) by (bit_vector);
    assert((bg >> 16) & 0xFF == (bg / 65536) % 256 && (bg >> 8) & 0xFF == (bg / 256) % 256 && bg
        & 0xFF == bg % 256) by (bit_vector);
    let r = blend_one(fr, br, a as u32);
    let g = blend_one(fgr, bgr, a as u32);
    let b = blend_one(fb, bb, a as u32);
    let packed = (r << 16) | (g << 8) | b;
    assert((r << 16) | (g << 8) | b == r * 65536 + g * 256 + b) by (bit_vector)
        requires
            r <= 255,
            g <= 255,
            b <= 255,
    ;
    packed
}

/// The coverage that a glyph with its corner at `(gx, gy)` has at
/// `(px, py)`: that of the glyph's pixel there, or none.
pub open spec fn coverage_at(g: GlyphView, gx: int, gy: int, px: int, py: int) -> u8 {
    if 0 <= px - gx < g.width && 0 <= py - gy && (py - gy) * g.width + (px - gx)
        < g.coverage.len() {
        g.coverage[(py - gy) * g.width + (px - gx)]
    } else {
        0
    }
}

/// The colour of a pixel once a glyph was blended over it.
pub open spec fn glyph_value(
    color: u32,
    under: u32,
    g: GlyphView,
    gx: int,
    gy: int,
    px: int,
    py: int,
) -> u32 {
    if coverage_at(g, gx, gy, px, py) > 0 {
        blend(color, under, coverage_at(g, gx, gy, px, py))
    } else {
        under
    }
}

/// The frame once a glyph with its corner at `(gx, gy)` was blended into
/// it in the draw colour.
pub open spec fn with_glyph(before: Frame, g: GlyphView, gx: int, gy: int) -> Frame {
    Frame {
        pixels: Seq::new(
            before.pixels.len(),
            |i: int|
                glyph_value(
                    before.color,
                    before.pixels[i],
                    g,
                    gx,
                    gy,
                    i % before.width,
                    i / before.width,
                ),
        ),
        ..before
    }
}

/// The pen's place in 64ths of a pixel behind the first `n` glyphs of
/// text that starts at column `x`.
pub open spec fn pen_after(glyphs: Seq<GlyphView>, n: nat, x: int) -> int
    decreases n,
{
    if n == 0 {
        64 * x
    } else {
        pen_after(glyphs, (n - 1) as nat, x) + glyphs[n - 1].advance
    }
}

/// The column of a pen: its place in whole pixels, rounded towards zero.
pub open spec fn pen_column(pen: int) -> int {
    div_toward_zero(pen, 64)
}

/// The frame once the first `n` glyphs were blended into it, each with
/// its corner at the pen's column and at row `y`.
pub open spec fn typeset(before: Frame, glyphs: Seq<GlyphView>, n: nat, x: int, y: int) -> Frame
    decreases n,
{
    if n == 0 {
        before
    } else {
        with_glyph(
            typeset(before, glyphs, (n - 1) as nat, x, y),
            glyphs[n - 1],
            pen_column(pen_after(glyphs, (n - 1) as nat, x)),
            y,
        )
    }
}

/// A pixel of a frame with a glyph blended in is the glyph's value at the
/// pixel's position.
pub proof fn lemma_with_glyph_pixel(before: Frame, g: GlyphView, gx: int, gy: int, px: int, py: int)
    requires
        before.wf(),
        before.contains(px, py),
    ensures
        with_glyph(before, g, gx, gy).pixel(px, py) == glyph_value(
            before.color,
            before.pixel(px, py),
            g,
            gx,
            gy,
            px,
            py,
        ),
{
    lemma_index_in_range(before.width, before.height, px, py);
    lemma_fundamental_div_mod_converse(py * before.width + px, before.width, py, px);
}

/// Blending a glyph in keeps a frame well formed and of the same layout.
pub proof fn lemma_with_glyph_layout(before: Frame, g: GlyphView, gx: int, gy: int)
    requires
        before.wf(),
    ensures
        with_glyph(before, g, gx, gy).wf(),
        with_glyph(before, g, gx, gy).same_layout(before),
{
}

/// Typesetting keeps a frame well formed and of the same layout.
pub proof fn lemma_typeset_layout(before: Frame, glyphs: Seq<GlyphView>, n: nat, x: int, y: int)
    requires
        before.wf(),
    ensures
        typeset(before, glyphs, n, x, y).wf(),
        typeset(before, glyphs, n, x, y).same_layout(before),
    decreases n,
{
    if n > 0 {
        lemma_typeset_layout(before, glyphs, (n - 1) as nat, x, y);
    }
}

/// Blends one glyph into the framebuffer with its corner at `(gx, gy)`.
fn draw_glyph(video: &mut VideoState, g: &RasterGlyph, gx: i128, gy: i64)
    requires
        old(video).wf(),
        -0x1_0000_0000 <= gy <= 0x1_0000_0000,
        -0x1_0000_0000_0000_0000_0000_0000 <= gx <= 0x1_0000_0000_0000_0000_0000_0000,
    ensures
        final(video).wf(),
        final(video)@ == with_glyph(old(video)@, g@, gx as int, gy as int),
{
    let width = g.width as usize;
    let total = g.coverage.len();
    let color = video.draw_color;
    let screen_w = video.width as i128;
    let screen_h = video.height as i128;
    let ghost start = video@;
    proof {
        lemma_with_glyph_layout(start, g@, gx as int, gy as int);
    }
    if width == 0 {
        proof {
            let goal = with_glyph(start, g@, gx as int, gy as int);
            assert forall|px: int, py: int| start.contains(px, py) implies #[trigger] goal.pixel(
                px,
                py,
            ) == start.pixel(px, py) by {
                lemma_with_glyph_pixel(start, g@, gx as int, gy as int, px, py);
            }
            lemma_frames_equal(goal, start);
        }
        return ;
    }
    let mut i: usize = 0;
    let mut col: usize = 0;
    let mut row: usize = 0;
    proof {
        assert(0 * (width as int) == 0) by (nonlinear_arith);
    }
    while i < total
        invariant
            video.wf(),
            video@.same_layout(start),
            start == old(video)@,
            start.wf(),
            color == start.color,
            width == g.width,
            width > 0,
            total == g.coverage@.len(),
            screen_w == video.width,
            screen_h == video.height,
            i <= total,
            col < width,
            row <= i,
            i == row * width + col,
            -0x1_0000_0000 <= gy <= 0x1_0000_0000,
            -0x1_0000_0000_0000_0000_0000_0000 <= gx <= 0x1_0000_0000_0000_0000_0000_0000,
            forall|px: int, py: int|
                start.contains(px, py) ==> #[trigger] video@.pixel(px, py) == (if 0 <= px - gx
                    < width && 0 <= py - gy && (py - gy) * width + (px - gx) < i {
                    glyph_value(color, start.pixel(px, py), g@, gx as int, gy as int, px, py)
                } else {
                    start.pixel(px, py)
                }),
        decreases total - i,
    {
        let alpha = g.coverage[i];
        let px: i128 = gx + col as i128;
        let py: i128 = gy as i128 + row as i128;
        let ghost before = video@;
        if alpha > 0 && 0 <= px && px < screen_w && 0 <= py && py < screen_h {
            let under = get(video, px as i64, py as i64);
            let blended = blend_colors(color, under, alpha);
            put(video, px as i64, py as i64, blended);
        }
        proof {
            assert forall|qx: int, qy: int| start.contains(qx, qy) implies video@.pixel(qx, qy) == (
            if 0 <= qx - gx < width && 0 <= qy - gy && (qy - gy) * width + (qx - gx) < i + 1 {
                glyph_value(color, start.pixel(qx, qy), g@, gx as int, gy as int, qx, qy)
            } else {
                start.pixel(qx, qy)
            }) by {
                let _ = before.pixel(qx, qy);
                if 0 <= qx - gx < width && 0 <= qy - gy {
                    if qx != px || qy != py {
                        lemma_index_distinct(
                            width as int,
                            qx - gx,
                            qy - gy,
                            col as int,
                            row as int,
                        );
                    }
                }
            }
        }
        i += 1;
        col += 1;
        if col == width {
            col = 0;
            row += 1;
            assert(i == row * width + col) by (nonlinear_arith)
                requires
                    i == (row - 1) * width + width,
                    col == 0,
            ;
        }
    }
    proof {
        let goal = with_glyph(start, g@, gx as int, gy as int);
        assert forall|px: int, py: int| goal.contains(px, py) implies #[trigger] goal.pixel(px, py)
            == video@.pixel(px, py) by {
            lemma_with_glyph_pixel(start, g@, gx as int, gy as int, px, py);
        }
        lemma_frames_equal(goal, video@);
    }
}

/// Draws rasterized glyphs one behind the other, the first with its
/// corner at `(x, y)`.
pub fn draw_raster_text(video: &mut VideoState, x: i32, y: i32, glyphs: &Vec<RasterGlyph>)
    requires
        old(video).wf(),
    ensures
        final(video).wf(),
        final(video)@ == typeset(
            old(video)@,
            glyph_views(glyphs@),
            glyphs@.len(),
            x as int,
            y as int,
        ),
{
    let n = glyphs.len();
    let ghost views = glyph_views(glyphs@);
    let mut pen: i128 = 64 * (x as i128);
    let mut k: usize = 0;
    while k < n
        invariant
            video.wf(),
            n == glyphs@.len(),
            k <= n,
            views == glyph_views(glyphs@),
            pen == pen_after(views, k as nat, x as int),
            -0x1_0000_0000_00 - 0x8000_0000 * k <= pen <= 0x1_0000_0000_00 + 0x8000_0000 * k,
            video@ == typeset(old(video)@, views, k as nat, x as int, y as int),
        decreases n - k,
    {
        let column: i128 = if pen >= 0 {
            pen / 64
        } else {
            -((-pen) / 64)
        };
        draw_glyph(video, &glyphs[k], column, y as i64);
        pen = pen + glyphs[k].advance as i128;
        k += 1;
    }
}

/// Frame `after` is frame `before` with text drawn at `(x, y)` in a
/// font: cell by cell in a bitmap font, glyph by glyph in an outline
/// font.
pub open spec fn text_drawn(
    before: Frame,
    after: Frame,
    font: FontView,
    x: int,
    y: int,
    chars: Seq<char>,
    glyphs: Seq<GlyphView>,
) -> bool {
    match font {
        FontView::Ttf(_) => after == typeset(before, glyphs, glyphs.len(), x, y),
        FontView::Spleen { width, height, glyphs: table } => {
            &&& after.wf()
            &&& after.same_layout(before)
            &&& forall|px: int, py: int|
                before.contains(px, py) ==> #[trigger] after.pixel(px, py) == (if text_covers(
                    chars,
                    table,
                    width,
                    x,
                    y,
                    px,
                    py,
                ) {
                    before.color
                } else {
                    before.pixel(px, py)
                })
        },
    }
}

/// What drawing text out of guest memory does: nothing where the text
/// cannot be read, is not valid UTF-8 or the font is unknown, and the
/// drawing of the text in the font otherwise.
pub open spec fn guest_text_drawn(
    before: Frame,
    after: Frame,
    res: ResourcesView,
    memory: Option<Seq<u8>>,
    x: int,
    y: int,
    font_id: u32,
    ptr: u32,
    len: u32,
    glyphs: Seq<GlyphView>,
) -> bool {
    match (guest_text(memory, ptr, len), res.fonts.get(font_id)) {
        (Some(chars), Some(font)) => text_drawn(before, after, font, x, y, chars, glyphs),
        _ => after == before,
    }
}

/// Draws the text that lies in guest memory at `ptr` in the font under
/// `font_id`, starting at `(x, y)`.
///
/// For an outline font, `glyphs` are the text's characters rasterized at
/// the font's fixed size; a bitmap font does not read them.
pub fn graphics_text(
    video: &mut VideoState,
    res: &Resources,
    memory: Option<&[u8]>,
    x: i32,
    y: i32,
    font_id: u32,
    ptr: u32,
    len: u32,
    glyphs: &Vec<RasterGlyph>,
)
    requires
        old(video).wf(),
    ensures
        final(video).wf(),
        guest_text_drawn(
            old(video)@,
            final(video)@,
            res@,
            crate::memory::memory_view(memory),
            x as int,
            y as int,
            font_id,
            ptr,
            len,
            glyph_views(glyphs@),
        ),
{
    let text = match read_guest_text(memory, ptr, len) {
        Some(t) => t,
        None => {
            return ;
        },
    };
    match res.fonts.get(&font_id) {
        Some(FontResource::Ttf(_)) => {
            proof {
                lemma_typeset_layout(
                    old(video)@,
                    glyph_views(glyphs@),
                    glyphs@.len() as nat,
                    x as int,
                    y as int,
                );
            }
            draw_raster_text(video, x, y, glyphs);
        },
        Some(FontResource::Spleen { width, height, glyphs: table }) => {
            let chars = chars_of(text.as_str());
            draw_bitmap_text(video, x, y, *width, table, &chars);
        },
        None => {},
    }
}

/// Draws the text that lies in guest memory at `text_ptr` in the font
/// that `font_key` leads to; an unknown key draws nothing.
pub fn graphics_text_key(
    video: &mut VideoState,
    res: &Resources,
    memory: Option<&[u8]>,
    x: i32,
    y: i32,
    font_key: u64,
    text_ptr: u32,
    text_len: u32,
    glyphs: &Vec<RasterGlyph>,
)
    requires
        old(video).wf(),
    ensures
        final(video).wf(),
        match res@.keyed_fonts.get(font_key) {
            Some(font_id) => guest_text_drawn(
                old(video)@,
                final(video)@,
                res@,
                crate::memory::memory_view(memory),
                x as int,
                y as int,
                font_id,
                text_ptr,
                text_len,
                glyph_views(glyphs@),
            ),
            None => final(video)@ == old(video)@,
        },
{
    match res.keyed_fonts.get(&font_key) {
        Some(font_id) => {
            graphics_text(video, res, memory, x, y, *font_id, text_ptr, text_len, glyphs);
        },
        None => {},
    }
}

/// The value of `v` limited to the range of `u32`.
pub open spec fn clamp_u32(v: int) -> int {
    if v < 0 {
        0
    } else if v > u32::MAX {
        u32::MAX as int
    } else {
        v
    }
}

/// The greatest height among the first `n` glyphs.
pub open spec fn tallest(glyphs: Seq<GlyphView>, n: nat) -> int
    decreases n,
{
    if n == 0 {
        0
    } else if glyphs[n - 1].height > tallest(glyphs, (n - 1) as nat) {
        glyphs[n - 1].height
    } else {
        tallest(glyphs, (n - 1) as nat)
    }
}

/// The width and the height of text in a font: for a bitmap font the
/// number of characters times the glyph width, and the glyph height; for
/// an outline font the sum of the advances in whole pixels, and the
/// height of the tallest glyph. A width beyond 32 bits is cut to 32
/// bits.
pub open spec fn text_size(font: FontView, chars: Seq<char>, glyphs: Seq<GlyphView>) -> (int, int) {
    match font {
        FontView::Ttf(_) => (
            clamp_u32(pen_column(pen_after(glyphs, glyphs.len(), 0))),
            tallest(glyphs, glyphs.len()),
        ),
        FontView::Spleen { width, height, glyphs: _ } => (clamp_u32(chars.len() * width), height),
    }
}

/// A width and a height as one number: the width in the high half, the
/// height in the low half.
pub open spec fn packed_size(size: (int, int)) -> u64 {
    (size.0 * 0x1_0000_0000 + size.1) as u64
}

/// What measuring text out of guest memory answers: the packed size of
/// the text in the font, and 0 where the text cannot be read, is not
/// valid UTF-8 or the font is unknown.
pub open spec fn guest_text_measured(
    res: ResourcesView,
    memory: Option<Seq<u8>>,
    font_id: u32,
    ptr: u32,
    len: u32,
    glyphs: Seq<GlyphView>,
) -> u64 {
    match (guest_text(memory, ptr, len), res.fonts.get(font_id)) {
        (Some(chars), Some(font)) => packed_size(text_size(font, chars, glyphs)),
        _ => 0,
    }
}

/// Measures rasterized glyphs: the sum of their advances in whole
/// pixels, and the height of the tallest.
pub fn measure_raster_text(glyphs: &Vec<RasterGlyph>) -> (size: (u32, u32))
    ensures
        size.0 == clamp_u32(pen_column(pen_after(glyph_views(glyphs@), glyphs@.len(), 0))),
        size.1 == tallest(glyph_views(glyphs@), glyphs@.len()),
{
    let n = glyphs.len();
    let ghost views = glyph_views(glyphs@);
    let mut pen: i128 = 0;
    let mut height: u32 = 0;
    let mut k: usize = 0;
    while k < n
        invariant
            n == glyphs@.len(),
            k <= n,
            views == glyph_views(glyphs@),
            pen == pen_after(views, k as nat, 0),
            -0x8000_0000 * k <= pen <= 0x8000_0000 * k,
            height == tallest(views, k as nat),
        decreases n - k,
    {
        pen = pen + glyphs[k].advance as i128;
        if glyphs[k].height > height {
            height = glyphs[k].height;
        }
        k += 1;
    }
    let column: i128 = if pen >= 0 {
        pen / 64
    } else {
        -((-pen) / 64)
    };
    let width: u32 = if column < 0 {
        0
    } else if column > u32::MAX as i128 {
        u32::MAX
    } else {
        column as u32
    };
    (width, height)
}

/// The width and the height of text in pixels.
#[derive(Copy, Clone, Debug, Eq, PartialEq, Structural)]
pub struct TextSize {
    pub width: u32,
    pub height: u32,
}

impl TextSize {
    /// Takes a packed size apart: the width from the high half, the
    /// height from the low half.
    pub fn unpack(packed: u64) -> (size: Self)
        ensures
            packed_size((size.width as int, size.height as int)) == packed,
            size.width == packed as int / 0x1_0000_0000,
            size.height == packed as int % 0x1_0000_0000,
    {
        let width = (packed / 0x1_0000_0000) as u32;
        let height = (packed % 0x1_0000_0000) as u32;
        TextSize { width, height }
    }

    /// Packs the size into one number.
    pub fn pack(self) -> (r: u64)
        ensures
            r == packed_size((self.width as int, self.height as int)),
    {
        pack_size(self.width, self.height)
    }
}

/// Packs a width and a height into one number.
pub fn pack_size(width: u32, height: u32) -> (r: u64)
    ensures
        r == packed_size((width as int, height as int)),
{
    let r = ((width as u64) << 32) | (height as u64);
    assert(((width as u64) << 32) | (height as u64) == (width as u64) * 0x1_0000_0000 + (
    height as u64)) by (bit_vector);
    r
}

/// Measures the text that lies in guest memory at `ptr` in the font
/// under `font_id` and answers with its packed width and height.
///
/// For an outline font, `glyphs` are the text's characters rasterized at
/// the font's fixed size; a bitmap font does not read them.
pub fn graphics_text_measure(
    res: &Resources,
    memory: Option<&[u8]>,
    font_id: u32,
    ptr: u32,
    len: u32,
    glyphs: &Vec<RasterGlyph>,
) -> (r: u64)
    ensures
        r == guest_text_measured(
            res@,
            crate::memory::memory_view(memory),
            font_id,
            ptr,
            len,
            glyph_views(glyphs@),
        ),
{
    let text = match read_guest_text(memory, ptr, len) {
        Some(t) => t,
        None => {
            return 0;
        },
    };
    match res.fonts.get(&font_id) {
        Some(FontResource::Ttf(_)) => {
            let size = measure_raster_text(glyphs);
            pack_size(size.0, size.1)
        },
        Some(FontResource::Spleen { width, height, glyphs: _ }) => {
            let chars = chars_of(text.as_str());
            let count = chars.len();
            assert(count * *width <= 0xFFFF_FFFF_FFFF_FFFF * 0xFFFF_FFFF) by (nonlinear_arith)
                requires
                    0 <= count <= 0xFFFF_FFFF_FFFF_FFFF,
                    0 <= *width <= 0xFFFF_FFFF,
            ;
            let wide: u128 = (count as u128) * (*width as u128);
            let w: u32 = if wide > u32::MAX as u128 {
                u32::MAX
            } else {
                wide as u32
            };
            pack_size(w, *height)
        },
        None => 0,
    }
}

/// Measures the text that lies in guest memory at `text_ptr` in the font
/// that `font_key` leads to; an unknown key answers 0.
pub fn graphics_text_measure_key(
    res: &Resources,
    memory: Option<&[u8]>,
    font_key: u64,
    text_ptr: u32,
    text_len: u32,
    glyphs: &Vec<RasterGlyph>,
) -> (r: u64)
    ensures
        r == (match res@.keyed_fonts.get(font_key) {
            Some(font_id) => guest_text_measured(
                res@,
                crate::memory::memory_view(memory),
                font_id,
                text_ptr,
                text_len,
                glyph_views(glyphs@),
            ),
            None => 0,
        }),
{
    match res.keyed_fonts.get(&font_key) {
        Some(font_id) => graphics_text_measure(res, memory, *font_id, text_ptr, text_len, glyphs),
        None => 0,
    }
}

} // verus!
