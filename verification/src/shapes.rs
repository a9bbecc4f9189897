//! Filled shapes: rectangles, discs and triangles.
//!
//! Each shape is a set of positions, given by a predicate. Filling a
//! shape walks the part of its bounding box that lies in the framebuffer
//! and colours the positions that the predicate holds of.

use vstd::prelude::*;
use crate::raster::{lemma_frames_equal, plot};
use crate::state::{Frame, VideoState};

verus! {

/// `(px, py)` lies in the rectangle with corner `(x, y)`, width `w` and
/// height `h`.
pub open spec fn in_rect(x: int, y: int, w: int, h: int, px: int, py: int) -> bool {
    x <= px < x + w && y <= py < y + h
}

/// `(px, py)` lies in the disc around `(cx, cy)` with radius `r`: within
/// the square `[cx - r, cx + r) x [cy - r, cy + r)` and no farther than
/// `r` from the centre.
pub open spec fn in_disc(cx: int, cy: int, r: int, px: int, py: int) -> bool {
    &&& cx - r <= px < cx + r
    &&& cy - r <= py < cy + r
    &&& (px - cx) * (px - cx) + (py - cy) * (py - cy) <= r * r
}

/// The edge function of `a`, `b` and `c`: twice the signed area of the
/// triangle they span, positive or negative with their winding.
pub open spec fn edge(ax: int, ay: int, bx: int, by: int, cx: int, cy: int) -> int {
    (cx - ax) * (by - ay) - (cy - ay) * (bx - ax)
}

/// The smallest of three numbers.
pub open spec fn min3(a: int, b: int, c: int) -> int {
    if a <= b && a <= c {
        a
    } else if b <= c {
        b
    } else {
        c
    }
}

/// The largest of three numbers.
pub open spec fn max3(a: int, b: int, c: int) -> int {
    if a >= b && a >= c {
        a
    } else if b >= c {
        b
    } else {
        c
    }
}

/// `(px, py)` lies in the triangle of the three vertices: the triangle
/// has an area, the position is within its bounding box, and the three
/// edge functions of the position, each taken with the sign of the
/// triangle's own area, are all non-negative.
pub open spec fn in_triangle(
    x1: int,
    y1: int,
    x2: int,
    y2: int,
    x3: int,
    y3: int,
    px: int,
    py: int,
) -> bool {
    let area = edge(x1, y1, x2, y2, x3, y3);
    let sign: int = if area > 0 {
        1
    } else {
        -1
    };
    &&& area != 0
    &&& min3(x1, x2, x3) <= px <= max3(x1, x2, x3)
    &&& min3(y1, y2, y3) <= py <= max3(y1, y2, y3)
    &&& edge(x2, y2, x3, y3, px, py) * sign >= 0
    &&& edge(x3, y3, x1, y1, px, py) * sign >= 0
    &&& edge(x1, y1, x2, y2, px, py) * sign >= 0
}

/// Frame `after` is frame `before` with the triangle of the three
/// vertices filled in the draw colour.
pub open spec fn triangle_filled(
    before: Frame,
    after: Frame,
    x1: int,
    y1: int,
    x2: int,
    y2: int,
    x3: int,
    y3: int,
) -> bool {
    &&& after.wf()
    &&& after.same_layout(before)
    &&& forall|px: int, py: int|
        before.contains(px, py) ==> #[trigger] after.pixel(px, py) == (if in_triangle(
            x1,
            y1,
            x2,
            y2,
            x3,
            y3,
            px,
            py,
        ) {
            before.color
        } else {
            before.pixel(px, py)
        })
}

/// Swapping two vertices turns the edge function's sign.
pub proof fn lemma_edge_swap(ax: int, ay: int, bx: int, by: int, cx: int, cy: int)
    ensures
        edge(bx, by, ax, ay, cx, cy) == -edge(ax, ay, bx, by, cx, cy),
        edge(ax, ay, cx, cy, bx, by) == -edge(ax, ay, bx, by, cx, cy),
{
    assert(edge(bx, by, ax, ay, cx, cy) == -edge(ax, ay, bx, by, cx, cy)) by (nonlinear_arith)
        requires
            edge(bx, by, ax, ay, cx, cy) == (cx - bx) * (ay - by) - (cy - by) * (ax - bx),
            edge(ax, ay, bx, by, cx, cy) == (cx - ax) * (by - ay) - (cy - ay) * (bx - ax),
    ;
    assert(edge(ax, ay, cx, cy, bx, by) == -edge(ax, ay, bx, by, cx, cy)) by (nonlinear_arith)
        requires
            edge(ax, ay, cx, cy, bx, by) == (bx - ax) * (cy - ay) - (by - ay) * (cx - ax),
            edge(ax, ay, bx, by, cx, cy) == (cx - ax) * (by - ay) - (cy - ay) * (bx - ax),
    ;
}

/// Winding invariance: a triangle holds the same positions whichever way
/// round its vertices are given.
pub proof fn lemma_triangle_winding(
    x1: int,
    y1: int,
    x2: int,
    y2: int,
    x3: int,
    y3: int,
    px: int,
    py: int,
)
    ensures
        in_triangle(x1, y1, x2, y2, x3, y3, px, py) == in_triangle(x1, y1, x3, y3, x2, y2, px, py),
{
    lemma_edge_swap(x1, y1, x2, y2, x3, y3);
    lemma_edge_swap(x2, y2, x3, y3, px, py);
    lemma_edge_swap(x3, y3, x1, y1, px, py);
    lemma_edge_swap(x1, y1, x2, y2, px, py);
    let area = edge(x1, y1, x2, y2, x3, y3);
    let e0 = edge(x2, y2, x3, y3, px, py);
    let e1 = edge(x3, y3, x1, y1, px, py);
    let e2 = edge(x1, y1, x2, y2, px, py);
    if area > 0 {
        assert(e0 * 1 == (-e0) * (-1)) by (nonlinear_arith);
        assert(e1 * 1 == (-e1) * (-1)) by (nonlinear_arith);
        assert(e2 * 1 == (-e2) * (-1)) by (nonlinear_arith);
    } else if area < 0 {
        assert(e0 * (-1) == (-e0) * 1) by (nonlinear_arith);
        assert(e1 * (-1) == (-e1) * 1) by (nonlinear_arith);
        assert(e2 * (-1) == (-e2) * 1) by (nonlinear_arith);
    }
}

/// A triangle of three collinear points holds no position.
pub proof fn lemma_degenerate_triangle_is_empty(
    x1: int,
    y1: int,
    x2: int,
    y2: int,
    x3: int,
    y3: int,
    px: int,
    py: int,
)
    requires
        edge(x1, y1, x2, y2, x3, y3) == 0,
    ensures
        !in_triangle(x1, y1, x2, y2, x3, y3, px, py),
{
}

/// Filling a triangle gives the same frame whichever way round its
/// vertices are given.
pub proof fn lemma_fill_ignores_winding(
    before: Frame,
    a: Frame,
    b: Frame,
    x1: int,
    y1: int,
    x2: int,
    y2: int,
    x3: int,
    y3: int,
)
    requires
        triangle_filled(before, a, x1, y1, x2, y2, x3, y3),
        triangle_filled(before, b, x1, y1, x3, y3, x2, y2),
    ensures
        a == b,
{
    assert forall|px: int, py: int| a.contains(px, py) implies #[trigger] a.pixel(px, py)
        == b.pixel(px, py) by {
        lemma_triangle_winding(x1, y1, x2, y2, x3, y3, px, py);
    }
    lemma_frames_equal(a, b);
}

/// Filling a triangle of three collinear points leaves the frame as it
/// was.
pub proof fn lemma_degenerate_fill_changes_nothing(
    before: Frame,
    after: Frame,
    x1: int,
    y1: int,
    x2: int,
    y2: int,
    x3: int,
    y3: int,
)
    requires
        edge(x1, y1, x2, y2, x3, y3) == 0,
        triangle_filled(before, after, x1, y1, x2, y2, x3, y3),
    ensures
        after == before,
{
    assert forall|px: int, py: int| after.contains(px, py) implies #[trigger] after.pixel(px, py)
        == before.pixel(px, py) by {
        lemma_degenerate_triangle_is_empty(x1, y1, x2, y2, x3, y3, px, py);
    }
    lemma_frames_equal(after, before);
}

/// Computes the edge function of three points.
///
/// The points may be any `i32` positions whose edge function fits the
/// result type.
pub fn tri_edge(a: (i32, i32), b: (i32, i32), c: (i32, i32)) -> (r: i64)
    requires
        i64::MIN <= edge(a.0 as int, a.1 as int, b.0 as int, b.1 as int, c.0 as int, c.1 as int)
            <= i64::MAX,
    ensures
        r == edge(a.0 as int, a.1 as int, b.0 as int, b.1 as int, c.0 as int, c.1 as int),
{
    let e = edge_wide(a.0 as i64, a.1 as i64, b.0 as i64, b.1 as i64, c.0 as i64, c.1 as i64);
    e as i64
}

/// Largest magnitude of a coordinate handed to [`edge_wide`].
pub const EDGE_LIMIT: i64 = 0x4_0000_0000;

/// Computes the edge function without overflow.
pub(crate) fn edge_wide(ax: i64, ay: i64, bx: i64, by: i64, cx: i64, cy: i64) -> (r: i128)
    requires
        -EDGE_LIMIT <= ax <= EDGE_LIMIT,
        -EDGE_LIMIT <= ay <= EDGE_LIMIT,
        -EDGE_LIMIT <= bx <= EDGE_LIMIT,
        -EDGE_LIMIT <= by <= EDGE_LIMIT,
        -EDGE_LIMIT <= cx <= EDGE_LIMIT,
        -EDGE_LIMIT <= cy <= EDGE_LIMIT,
    ensures
        r == edge(ax as int, ay as int, bx as int, by as int, cx as int, cy as int),
{
    let p: i128 = (cx - ax) as i128;
    let q: i128 = (by - ay) as i128;
    let s: i128 = (cy - ay) as i128;
    let t: i128 = (bx - ax) as i128;
    assert(-0x100_0000_0000_0000_0000 <= p * q <= 0x100_0000_0000_0000_0000) by (nonlinear_arith)
        requires
            -0x10_0000_0000 <= p <= 0x10_0000_0000,
            -0x10_0000_0000 <= q <= 0x10_0000_0000,
    ;
    assert(-0x100_0000_0000_0000_0000 <= s * t <= 0x100_0000_0000_0000_0000) by (nonlinear_arith)
        requires
            -0x10_0000_0000 <= s <= 0x10_0000_0000,
            -0x10_0000_0000 <= t <= 0x10_0000_0000,
    ;
    p * q - s * t
}

/// Computes [`min3`].
fn least(a: i64, b: i64, c: i64) -> (r: i64)
    ensures
        r == min3(a as int, b as int, c as int),
{
    if a <= b && a <= c {
        a
    } else if b <= c {
        b
    } else {
        c
    }
}

/// Computes [`max3`].
fn greatest(a: i64, b: i64, c: i64) -> (r: i64)
    ensures
        r == max3(a as int, b as int, c as int),
{
    if a >= b && a >= c {
        a
    } else if b >= c {
        b
    } else {
        c
    }
}

/// A shape to fill.
pub(crate) enum Shape {
    Rect { x: i64, y: i64, w: i64, h: i64 },
    Disc { cx: i64, cy: i64, r: i64 },
    Triangle { x1: i64, y1: i64, x2: i64, y2: i64, x3: i64, y3: i64 },
}

/// Largest magnitude of a rectangle's or a disc's numbers.
pub const SHAPE_LIMIT: i64 = 0x2_0000_0000;

impl Shape {
    /// The shape's numbers are small enough to compute with.
    pub(crate) open spec fn wf(self) -> bool {
        match self {
            Shape::Rect { x, y, w, h } => {
                &&& -SHAPE_LIMIT <= x <= SHAPE_LIMIT
                &&& -SHAPE_LIMIT <= y <= SHAPE_LIMIT
                &&& 0 <= w <= SHAPE_LIMIT
                &&& 0 <= h <= SHAPE_LIMIT
            },
            Shape::Disc { cx, cy, r } => {
                &&& -SHAPE_LIMIT <= cx <= SHAPE_LIMIT
                &&& -SHAPE_LIMIT <= cy <= SHAPE_LIMIT
                &&& 0 <= r <= SHAPE_LIMIT
            },
            Shape::Triangle { x1, y1, x2, y2, x3, y3 } => {
                &&& -SHAPE_LIMIT <= x1 <= SHAPE_LIMIT
                &&& -SHAPE_LIMIT <= y1 <= SHAPE_LIMIT
                &&& -SHAPE_LIMIT <= x2 <= SHAPE_LIMIT
                &&& -SHAPE_LIMIT <= y2 <= SHAPE_LIMIT
                &&& -SHAPE_LIMIT <= x3 <= SHAPE_LIMIT
                &&& -SHAPE_LIMIT <= y3 <= SHAPE_LIMIT
            },
        }
    }

    /// The shape holds `(px, py)`.
    pub(crate) open spec fn holds(self, px: int, py: int) -> bool {
        match self {
            Shape::Rect { x, y, w, h } => in_rect(x as int, y as int, w as int, h as int, px, py),
            Shape::Disc { cx, cy, r } => in_disc(cx as int, cy as int, r as int, px, py),
            Shape::Triangle { x1, y1, x2, y2, x3, y3 } => in_triangle(
                x1 as int,
                y1 as int,
                x2 as int,
                y2 as int,
                x3 as int,
                y3 as int,
                px,
                py,
            ),
        }
    }

    /// The left, top, right and bottom of a box that holds the shape;
    /// right and bottom lie just outside it.
    fn bounds(&self) -> (b: (i64, i64, i64, i64))
        requires
            self.wf(),
        ensures
            forall|px: int, py: int|
                self.holds(px, py) ==> b.0 <= px < b.2 && b.1 <= py < b.3,
            -2 * SHAPE_LIMIT <= b.0,
            -2 * SHAPE_LIMIT <= b.1,
            b.2 <= 2 * SHAPE_LIMIT + 1,
            b.3 <= 2 * SHAPE_LIMIT + 1,
    {
        match *self {
            Shape::Rect { x, y, w, h } => (x, y, x + w, y + h),
            Shape::Disc { cx, cy, r } => (cx - r, cy - r, cx + r, cy + r),
            Shape::Triangle { x1, y1, x2, y2, x3, y3 } => (
                least(x1, x2, x3),
                least(y1, y2, y3),
                greatest(x1, x2, x3) + 1,
                greatest(y1, y2, y3) + 1,
            ),
        }
    }

    /// Whether the shape holds `(px, py)`.
    fn covers(&self, px: i64, py: i64) -> (r: bool)
        requires
            self.wf(),
            0 <= px <= u32::MAX,
            0 <= py <= u32::MAX,
        ensures
            r == self.holds(px as int, py as int),
    {
        match *self {
            Shape::Rect { x, y, w, h } => x <= px && px < x + w && y <= py && py < y + h,
            Shape::Disc { cx, cy, r } => {
                if cx - r <= px && px < cx + r && cy - r <= py && py < cy + r {
                    let dx: i128 = (px - cx) as i128;
                    let dy: i128 = (py - cy) as i128;
                    let rr: i128 = r as i128;
                    assert(0 <= dx * dx <= 0x4_0000_0000_0000_0000) by (nonlinear_arith)
                        requires
                            -0x2_0000_0000 <= dx <= 0x2_0000_0000,
                    ;
                    assert(0 <= dy * dy <= 0x4_0000_0000_0000_0000) by (nonlinear_arith)
                        requires
                            -0x2_0000_0000 <= dy <= 0x2_0000_0000,
                    ;
                    assert(0 <= rr * rr <= 0x4_0000_0000_0000_0000) by (nonlinear_arith)
                        requires
                            0 <= rr <= 0x2_0000_0000,
                    ;
                    dx * dx + dy * dy <= rr * rr
                } else {
                    false
                }
            },
            Shape::Triangle { x1, y1, x2, y2, x3, y3 } => {
                let area = edge_wide(x1, y1, x2, y2, x3, y3);
                if area == 0 {
                    return false;
                }
                if px < least(x1, x2, x3) || px > greatest(x1, x2, x3) || py < least(y1, y2, y3)
                    || py > greatest(y1, y2, y3) {
                    return false;
                }
                let e0 = edge_wide(x2, y2, x3, y3, px, py);
                let e1 = edge_wide(x3, y3, x1, y1, px, py);
                let e2 = edge_wide(x1, y1, x2, y2, px, py);
                proof {
                    assert(e0 * 1 == e0 && e0 * (-1) == -e0) by (nonlinear_arith);
                    assert(e1 * 1 == e1 && e1 * (-1) == -e1) by (nonlinear_arith);
                    assert(e2 * 1 == e2 && e2 * (-1) == -e2) by (nonlinear_arith);
                }
                if area > 0 {
                    e0 >= 0 && e1 >= 0 && e2 >= 0
                } else {
                    e0 <= 0 && e1 <= 0 && e2 <= 0
                }
            },
        }
    }
}

/// Colours every position of the framebuffer that the shape holds.
pub(crate) fn fill_shape(video: &mut VideoState, shape: &Shape)
    requires
        old(video).wf(),
        shape.wf(),
    ensures
        final(video).wf(),
        final(video)@.same_layout(old(video)@),
        forall|px: int, py: int|
            old(video)@.contains(px, py) ==> #[trigger] final(video)@.pixel(px, py) == (
            if shape.holds(px, py) {
                old(video)@.color
            } else {
                old(video)@.pixel(px, py)
            }),
{
    let width = video.width as i64;
    let height = video.height as i64;
    let b = shape.bounds();
    let left = if b.0 > 0 {
        b.0
    } else {
        0
    };
    let top = if b.1 > 0 {
        b.1
    } else {
        0
    };
    let right = if b.2 < width {
        b.2
    } else {
        width
    };
    let bottom = if b.3 < height {
        b.3
    } else {
        height
    };
    let ghost color = old(video)@.color;
    let mut cy: i64 = top;
    while cy < bottom
        invariant
            video.wf(),
            shape.wf(),
            video@.same_layout(old(video)@),
            color == old(video)@.color,
            width == video.width,
            height == video.height,
            0 <= left,
            0 <= top <= cy,
            right <= width,
            bottom <= height,
            forall|px: int, py: int|
                shape.holds(px, py) && old(video)@.contains(px, py) ==> left <= px < right && top
                    <= py < bottom,
            forall|px: int, py: int|
                old(video)@.contains(px, py) ==> #[trigger] video@.pixel(px, py) == (
                if shape.holds(px, py) && py < cy {
                    color
                } else {
                    old(video)@.pixel(px, py)
                }),
        decreases bottom - cy,
    {
        let mut cx: i64 = left;
        while cx < right
            invariant
                video.wf(),
                shape.wf(),
                video@.same_layout(old(video)@),
                color == old(video)@.color,
                width == video.width,
                height == video.height,
                0 <= left <= cx,
                0 <= top <= cy < bottom,
                right <= width,
                bottom <= height,
                forall|px: int, py: int|
                    shape.holds(px, py) && old(video)@.contains(px, py) ==> left <= px < right
                        && top <= py < bottom,
                forall|px: int, py: int|
                    old(video)@.contains(px, py) ==> #[trigger] video@.pixel(px, py) == (
                    if shape.holds(px, py) && (py < cy || (py == cy && px < cx)) {
                        color
                    } else {
                        old(video)@.pixel(px, py)
                    }),
            decreases right - cx,
        {
            let ghost before = video@;
            if shape.covers(cx, cy) {
                plot(video, cx, cy);
            }
            proof {
                assert forall|px: int, py: int| old(video)@.contains(px, py) implies video@.pixel(
                    px,
                    py,
                ) == (if shape.holds(px, py) && (py < cy || (py == cy && px < cx + 1)) {
                    color
                } else {
                    old(video)@.pixel(px, py)
                }) by {
                    let _ = before.pixel(px, py);
                }
            }
            cx += 1;
        }
        cy += 1;
    }
}

/// Draws a filled rectangle with its corner at `(x, y)`.
pub fn graphics_rect(video: &mut VideoState, x: i32, y: i32, w: u32, h: u32)
    requires
        old(video).wf(),
    ensures
        final(video).wf(),
        final(video)@.same_layout(old(video)@),
        forall|px: int, py: int|
            old(video)@.contains(px, py) ==> #[trigger] final(video)@.pixel(px, py) == (if in_rect(
                x as int,
                y as int,
                w as int,
                h as int,
                px,
                py,
            ) {
                old(video)@.color
            } else {
                old(video)@.pixel(px, py)
            }),
{
    fill_shape(video, &Shape::Rect { x: x as i64, y: y as i64, w: w as i64, h: h as i64 });
}

/// Draws a filled circle around `(cx, cy)` by the squared-distance test.
pub fn graphics_circle(video: &mut VideoState, cx: i32, cy: i32, r: u32)
    requires
        old(video).wf(),
    ensures
        final(video).wf(),
        final(video)@.same_layout(old(video)@),
        forall|px: int, py: int|
            old(video)@.contains(px, py) ==> #[trigger] final(video)@.pixel(px, py) == (if in_disc(
                cx as int,
                cy as int,
                r as int,
                px,
                py,
            ) {
                old(video)@.color
            } else {
                old(video)@.pixel(px, py)
            }),
{
    fill_shape(video, &Shape::Disc { cx: cx as i64, cy: cy as i64, r: r as i64 });
}

/// Draws a filled triangle with an edge-function rasterizer.
///
/// The fill does not depend on the order of the vertices, and three
/// collinear vertices fill nothing.
pub fn graphics_triangle(
    video: &mut VideoState,
    x1: i32,
    y1: i32,
    x2: i32,
    y2: i32,
    x3: i32,
    y3: i32,
)
    requires
        old(video).wf(),
    ensures
        triangle_filled(
            old(video)@,
            final(video)@,
            x1 as int,
            y1 as int,
            x2 as int,
            y2 as int,
            x3 as int,
            y3 as int,
        ),
{
    fill_shape(
        video,
        &Shape::Triangle {
            x1: x1 as i64,
            y1: y1 as i64,
            x2: x2 as i64,
            y2: y2 as i64,
            x3: x3 as i64,
            y3: y3 as i64,
        },
    );
}

} // verus!
