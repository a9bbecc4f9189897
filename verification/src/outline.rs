//! Outlines: rectangles and triangles made of lines, circles by the
//! midpoint walk, and pills made of a rectangle and two end caps.

use vstd::prelude::*;
use crate::line::{line_core, on_line};
use crate::raster::plot;
use crate::shapes::{fill_shape, in_disc, in_rect, Shape};
use crate::state::VideoState;

verus! {

/// `(px, py)` lies on the outline of the rectangle with corner `(x, y)`,
/// width `w` and height `h`: on its top, bottom, left or right line.
pub open spec fn on_rect_outline(x: int, y: int, w: int, h: int, px: int, py: int) -> bool {
    ||| on_line(x, y, x + w, y, px, py)
    ||| on_line(x, y + h, x + w, y + h, px, py)
    ||| on_line(x, y, x, y + h, px, py)
    ||| on_line(x + w, y, x + w, y + h, px, py)
}

/// `(px, py)` lies on the outline of the triangle: on one of its sides.
pub open spec fn on_triangle_outline(
    x1: int,
    y1: int,
    x2: int,
    y2: int,
    x3: int,
    y3: int,
    px: int,
    py: int,
) -> bool {
    ||| on_line(x1, y1, x2, y2, px, py)
    ||| on_line(x2, y2, x3, y3, px, py)
    ||| on_line(x3, y3, x1, y1, px, py)
}

/// `(px, py)` is one of the eight mirror images of the offset `(x, y)`
/// about the centre `(cx, cy)`.
pub open spec fn on_octants(cx: int, cy: int, x: int, y: int, px: int, py: int) -> bool {
    ||| (px == cx + x || px == cx - x) && (py == cy + y || py == cy - y)
    ||| (px == cx + y || px == cx - y) && (py == cy + x || py == cy - x)
}

/// The midpoint walk, standing at offset `(x, y)` with decision value
/// `d`, visits `(px, py)` now or later. The walk moves one column per
/// step and one row inwards whenever `d` is positive, and ends when the
/// column passes the row.
pub open spec fn ring_visits(cx: int, cy: int, x: int, y: int, d: int, px: int, py: int) -> bool
    decreases y - x + 2,
{
    if y < x {
        false
    } else {
        on_octants(cx, cy, x, y, px, py) || if d > 0 {
            ring_visits(cx, cy, x + 1, y - 1, d + 4 * ((x + 1) - (y - 1)) + 10, px, py)
        } else {
            ring_visits(cx, cy, x + 1, y, d + 4 * (x + 1) + 6, px, py)
        }
    }
}

/// `(px, py)` lies on the circle around `(cx, cy)` with radius `r`, as
/// the midpoint walk draws it.
pub open spec fn on_circle(cx: int, cy: int, r: int, px: int, py: int) -> bool {
    ring_visits(cx, cy, 0, r, 3 - 2 * r, px, py)
}

/// The radius of a pill's end caps.
pub open spec fn pill_radius(w: int, h: int) -> int {
    if w <= h {
        w / 2
    } else {
        h / 2
    }
}

/// `(px, py)` lies in the pill with corner `(x, y)`, width `w` and
/// height `h`: in its centre rectangle or in one of its two end caps.
pub open spec fn in_pill(x: int, y: int, w: int, h: int, px: int, py: int) -> bool {
    let r = pill_radius(w, h);
    &&& w > 0
    &&& h > 0
    &&& {
        ||| in_rect(x + r, y, w - 2 * r, h, px, py)
        ||| in_disc(x + r, y + r, r, px, py)
        ||| in_disc(x + w - r, y + r, r, px, py)
    }
}

/// `(px, py)` lies on the outline of the pill: on the outline of its
/// centre rectangle or on one of its two end circles.
pub open spec fn on_pill_outline(x: int, y: int, w: int, h: int, px: int, py: int) -> bool {
    let r = pill_radius(w, h);
    &&& w > 0
    &&& h > 0
    &&& {
        ||| on_rect_outline(x + r, y, w - 2 * r, h, px, py)
        ||| on_circle(x + r, y + r, r, px, py)
        ||| on_circle(x + w - r, y + r, r, px, py)
    }
}

/// Largest magnitude of the numbers of an outline.
pub const OUTLINE_LIMIT: i64 = 0x2_0000_0000;

/// Draws the outline of a rectangle.
pub(crate) fn rect_outline_core(video: &mut VideoState, x: i64, y: i64, w: i64, h: i64)
    requires
        old(video).wf(),
        -OUTLINE_LIMIT <= x <= OUTLINE_LIMIT,
        -OUTLINE_LIMIT <= y <= OUTLINE_LIMIT,
        0 <= w <= OUTLINE_LIMIT,
        0 <= h <= OUTLINE_LIMIT,
    ensures
        final(video).wf(),
        final(video)@.same_layout(old(video)@),
        forall|px: int, py: int|
            old(video)@.contains(px, py) ==> #[trigger] final(video)@.pixel(px, py) == (
            if on_rect_outline(x as int, y as int, w as int, h as int, px, py) {
                old(video)@.color
            } else {
                old(video)@.pixel(px, py)
            }),
{
    line_core(video, x, y, x + w, y);
    let ghost f1 = video@;
    line_core(video, x, y + h, x + w, y + h);
    let ghost f2 = video@;
    line_core(video, x, y, x, y + h);
    let ghost f3 = video@;
    line_core(video, x + w, y, x + w, y + h);
    proof {
        assert forall|px: int, py: int| old(video)@.contains(px, py) implies video@.pixel(px, py)
            == (if on_rect_outline(x as int, y as int, w as int, h as int, px, py) {
            old(video)@.color
        } else {
            old(video)@.pixel(px, py)
        }) by {
            let _ = f1.pixel(px, py);
            let _ = f2.pixel(px, py);
            let _ = f3.pixel(px, py);
        }
    }
}

/// Draws the outline of a rectangle.
pub fn graphics_rect_outline(video: &mut VideoState, x: i32, y: i32, w: u32, h: u32)
    requires
        old(video).wf(),
    ensures
        final(video).wf(),
        final(video)@.same_layout(old(video)@),
        forall|px: int, py: int|
            old(video)@.contains(px, py) ==> #[trigger] final(video)@.pixel(px, py) == (
            if on_rect_outline(x as int, y as int, w as int, h as int, px, py) {
                old(video)@.color
            } else {
                old(video)@.pixel(px, py)
            }),
{
    rect_outline_core(video, x as i64, y as i64, w as i64, h as i64);
}

/// Draws the outline of a triangle.
pub fn graphics_triangle_outline(
    video: &mut VideoState,
    x1: i32,
    y1: i32,
    x2: i32,
    y2: i32,
    x3: i32,
    y3: i32,
)
    requires
        old(video).wf(),
    ensures
        final(video).wf(),
        final(video)@.same_layout(old(video)@),
        forall|px: int, py: int|
            old(video)@.contains(px, py) ==> #[trigger] final(video)@.pixel(px, py) == (
            if on_triangle_outline(
                x1 as int,
                y1 as int,
                x2 as int,
                y2 as int,
                x3 as int,
                y3 as int,
                px,
                py,
            ) {
                old(video)@.color
            } else {
                old(video)@.pixel(px, py)
            }),
{
    line_core(video, x1 as i64, y1 as i64, x2 as i64, y2 as i64);
    let ghost f1 = video@;
    line_core(video, x2 as i64, y2 as i64, x3 as i64, y3 as i64);
    let ghost f2 = video@;
    line_core(video, x3 as i64, y3 as i64, x1 as i64, y1 as i64);
    proof {
        assert forall|px: int, py: int| old(video)@.contains(px, py) implies video@.pixel(px, py)
            == (if on_triangle_outline(
            x1 as int,
            y1 as int,
            x2 as int,
            y2 as int,
            x3 as int,
            y3 as int,
            px,
            py,
        ) {
            old(video)@.color
        } else {
            old(video)@.pixel(px, py)
        }) by {
            let _ = f1.pixel(px, py);
            let _ = f2.pixel(px, py);
        }
    }
}

/// Colours the eight mirror images of the offset `(x, y)`.
fn plot_octants(video: &mut VideoState, cx: i64, cy: i64, x: i64, y: i64)
    requires
        old(video).wf(),
        -OUTLINE_LIMIT <= cx <= OUTLINE_LIMIT,
        -OUTLINE_LIMIT <= cy <= OUTLINE_LIMIT,
        -OUTLINE_LIMIT <= x <= OUTLINE_LIMIT,
        -OUTLINE_LIMIT <= y <= OUTLINE_LIMIT,
    ensures
        final(video).wf(),
        final(video)@.same_layout(old(video)@),
        forall|px: int, py: int|
            old(video)@.contains(px, py) ==> #[trigger] final(video)@.pixel(px, py) == (
            if on_octants(cx as int, cy as int, x as int, y as int, px, py) {
                old(video)@.color
            } else {
                old(video)@.pixel(px, py)
            }),
{
    plot(video, cx + x, cy + y);
    let ghost f1 = video@;
    plot(video, cx - x, cy + y);
    let ghost f2 = video@;
    plot(video, cx + x, cy - y);
    let ghost f3 = video@;
    plot(video, cx - x, cy - y);
    let ghost f4 = video@;
    plot(video, cx + y, cy + x);
    let ghost f5 = video@;
    plot(video, cx - y, cy + x);
    let ghost f6 = video@;
    plot(video, cx + y, cy - x);
    let ghost f7 = video@;
    plot(video, cx - y, cy - x);
    proof {
        assert forall|px: int, py: int| old(video)@.contains(px, py) implies video@.pixel(px, py)
            == (if on_octants(cx as int, cy as int, x as int, y as int, px, py) {
            old(video)@.color
        } else {
            old(video)@.pixel(px, py)
        }) by {
            let _ = f1.pixel(px, py);
            let _ = f2.pixel(px, py);
            let _ = f3.pixel(px, py);
            let _ = f4.pixel(px, py);
            let _ = f5.pixel(px, py);
            let _ = f6.pixel(px, py);
            let _ = f7.pixel(px, py);
        }
    }
}

/// Draws a circle outline by the midpoint walk.
pub(crate) fn ring_core(video: &mut VideoState, cx: i64, cy: i64, r: i64)
    requires
        old(video).wf(),
        -OUTLINE_LIMIT <= cx <= OUTLINE_LIMIT,
        -OUTLINE_LIMIT <= cy <= OUTLINE_LIMIT,
        0 <= r <= OUTLINE_LIMIT,
    ensures
        final(video).wf(),
        final(video)@.same_layout(old(video)@),
        forall|px: int, py: int|
            old(video)@.contains(px, py) ==> #[trigger] final(video)@.pixel(px, py) == (
            if on_circle(cx as int, cy as int, r as int, px, py) {
                old(video)@.color
            } else {
                old(video)@.pixel(px, py)
            }),
{
    let mut x: i64 = 0;
    let mut y: i64 = r;
    let mut d: i128 = 3 - 2 * (r as i128);
    let ghost color = old(video)@.color;
    while y >= x
        invariant
            video.wf(),
            video@.same_layout(old(video)@),
            color == old(video)@.color,
            -OUTLINE_LIMIT <= cx <= OUTLINE_LIMIT,
            -OUTLINE_LIMIT <= cy <= OUTLINE_LIMIT,
            0 <= r <= OUTLINE_LIMIT,
            0 <= x <= y + 2,
            -1 <= y <= r,
            -0x40_0000_0000 * (x + 1) <= d <= 0x40_0000_0000 * (x + 1),
            forall|px: int, py: int|
                old(video)@.contains(px, py) ==> (if ring_visits(
                    cx as int,
                    cy as int,
                    x as int,
                    y as int,
                    d as int,
                    px,
                    py,
                ) {
                    color
                } else {
                    #[trigger] video@.pixel(px, py)
                }) == (if on_circle(cx as int, cy as int, r as int, px, py) {
                    color
                } else {
                    old(video)@.pixel(px, py)
                }),
        decreases y - x + 2,
    {
        let ghost before = video@;
        plot_octants(video, cx, cy, x, y);
        x = x + 1;
        if d > 0 {
            y = y - 1;
            d = d + 4 * ((x - y) as i128) + 10;
        } else {
            d = d + 4 * (x as i128) + 6;
        }
        proof {
            assert forall|px: int, py: int| old(video)@.contains(px, py) implies (if ring_visits(
                cx as int,
                cy as int,
                x as int,
                y as int,
                d as int,
                px,
                py,
            ) {
                color
            } else {
                video@.pixel(px, py)
            }) == (if on_circle(cx as int, cy as int, r as int, px, py) {
                color
            } else {
                old(video)@.pixel(px, py)
            }) by {
                let _ = before.pixel(px, py);
            }
        }
    }
}

/// Draws a circle outline with the midpoint algorithm.
pub fn graphics_circle_outline(video: &mut VideoState, cx: i32, cy: i32, r: u32)
    requires
        old(video).wf(),
    ensures
        final(video).wf(),
        final(video)@.same_layout(old(video)@),
        forall|px: int, py: int|
            old(video)@.contains(px, py) ==> #[trigger] final(video)@.pixel(px, py) == (
            if on_circle(cx as int, cy as int, r as int, px, py) {
                old(video)@.color
            } else {
                old(video)@.pixel(px, py)
            }),
{
    ring_core(video, cx as i64, cy as i64, r as i64);
}

/// Draws a filled pill: a rectangle with two round end caps whose radius
/// is half the smaller side. A pill with a zero side draws nothing.
pub fn graphics_pill(video: &mut VideoState, x: i32, y: i32, w: u32, h: u32)
    requires
        old(video).wf(),
    ensures
        final(video).wf(),
        final(video)@.same_layout(old(video)@),
        forall|px: int, py: int|
            old(video)@.contains(px, py) ==> #[trigger] final(video)@.pixel(px, py) == (if in_pill(
                x as int,
                y as int,
                w as int,
                h as int,
                px,
                py,
            ) {
                old(video)@.color
            } else {
                old(video)@.pixel(px, py)
            }),
{
    if w == 0 || h == 0 {
        return ;
    }
    let r: i64 = if w <= h {
        (w / 2) as i64
    } else {
        (h / 2) as i64
    };
    let x: i64 = x as i64;
    let y: i64 = y as i64;
    let w: i64 = w as i64;
    let h: i64 = h as i64;
    fill_shape(video, &Shape::Rect { x: x + r, y, w: w - 2 * r, h });
    let ghost f1 = video@;
    fill_shape(video, &Shape::Disc { cx: x + r, cy: y + r, r });
    let ghost f2 = video@;
    fill_shape(video, &Shape::Disc { cx: x + w - r, cy: y + r, r });
    proof {
        assert forall|px: int, py: int| old(video)@.contains(px, py) implies video@.pixel(px, py)
            == (if in_pill(x as int, y as int, w as int, h as int, px, py) {
            old(video)@.color
        } else {
            old(video)@.pixel(px, py)
        }) by {
            let _ = f1.pixel(px, py);
            let _ = f2.pixel(px, py);
        }
    }
}

/// Draws the outline of a pill: the outline of its centre rectangle and
/// its two end circles. A pill with a zero side draws nothing.
pub fn graphics_pill_outline(video: &mut VideoState, x: i32, y: i32, w: u32, h: u32)
    requires
        old(video).wf(),
    ensures
        final(video).wf(),
        final(video)@.same_layout(old(video)@),
        forall|px: int, py: int|
            old(video)@.contains(px, py) ==> #[trigger] final(video)@.pixel(px, py) == (
            if on_pill_outline(x as int, y as int, w as int, h as int, px, py) {
                old(video)@.color
            } else {
                old(video)@.pixel(px, py)
            }),
{
    if w == 0 || h == 0 {
        return ;
    }
    let r: i64 = if w <= h {
        (w / 2) as i64
    } else {
        (h / 2) as i64
    };
    let x: i64 = x as i64;
    let y: i64 = y as i64;
    let w: i64 = w as i64;
    let h: i64 = h as i64;
    rect_outline_core(video, x + r, y, w - 2 * r, h);
    let ghost f1 = video@;
    ring_core(video, x + r, y + r, r);
    let ghost f2 = video@;
    ring_core(video, x + w - r, y + r, r);
    proof {
        assert forall|px: int, py: int| old(video)@.contains(px, py) implies video@.pixel(px, py)
            == (if on_pill_outline(x as int, y as int, w as int, h as int, px, py) {
            old(video)@.color
        } else {
            old(video)@.pixel(px, py)
        }) by {
            let _ = f1.pixel(px, py);
            let _ = f2.pixel(px, py);
        }
    }
}

} // verus!
