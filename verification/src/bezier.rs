//! Bézier curves, flattened into straight segments.
//!
//! A curve of `n` segments runs through the points at the parameters
//! `0/n, 1/n, .., n/n`. A point is the Bernstein blend of the control
//! points, computed exactly and rounded towards zero, and consecutive
//! points are joined by lines.

use vstd::prelude::*;
use crate::line::{line_core, on_line};
use crate::mixing::div_toward_zero;
use crate::state::VideoState;

verus! {

/// The quadratic Bernstein blend of three coordinates at parameter
/// `i / n`, times `n * n`.
pub open spec fn quadratic_sum(a: int, c: int, b: int, i: int, n: int) -> int {
    (n - i) * (n - i) * a + 2 * (n - i) * i * c + i * i * b
}

/// The coordinate of a quadratic curve at parameter `i / n`.
pub open spec fn quadratic_at(a: int, c: int, b: int, i: int, n: int) -> int {
    div_toward_zero(quadratic_sum(a, c, b, i, n), n * n)
}

/// The cubic Bernstein blend of four coordinates at parameter `i / n`,
/// times `n * n * n`.
pub open spec fn cubic_sum(a: int, c1: int, c2: int, b: int, i: int, n: int) -> int {
    (n - i) * (n - i) * (n - i) * a + 3 * (n - i) * (n - i) * i * c1 + 3 * (n - i) * i * i * c2 + i
        * i * i * b
}

/// The coordinate of a cubic curve at parameter `i / n`.
pub open spec fn cubic_at(a: int, c1: int, c2: int, b: int, i: int, n: int) -> int {
    div_toward_zero(cubic_sum(a, c1, c2, b, i, n), n * n * n)
}

/// A quadratic curve: its start, its control point and its end.
pub ghost struct Quadratic {
    pub x1: int,
    pub y1: int,
    pub cx: int,
    pub cy: int,
    pub x2: int,
    pub y2: int,
}

impl Quadratic {
    /// The column of the point at parameter `i / n`.
    pub open spec fn x(self, i: int, n: int) -> int {
        quadratic_at(self.x1, self.cx, self.x2, i, n)
    }

    /// The row of the point at parameter `i / n`.
    pub open spec fn y(self, i: int, n: int) -> int {
        quadratic_at(self.y1, self.cy, self.y2, i, n)
    }

    /// `(px, py)` lies on one of the first `k` of the curve's `n`
    /// segments.
    pub open spec fn covers(self, n: int, k: nat, px: int, py: int) -> bool
        decreases k,
    {
        k > 0 && (on_line(
            self.x(k - 1, n),
            self.y(k - 1, n),
            self.x(k as int, n),
            self.y(k as int, n),
            px,
            py,
        ) || self.covers(n, (k - 1) as nat, px, py))
    }
}

/// A cubic curve: its start, its two control points and its end.
pub ghost struct Cubic {
    pub x1: int,
    pub y1: int,
    pub cx1: int,
    pub cy1: int,
    pub cx2: int,
    pub cy2: int,
    pub x2: int,
    pub y2: int,
}

impl Cubic {
    /// The column of the point at parameter `i / n`.
    pub open spec fn x(self, i: int, n: int) -> int {
        cubic_at(self.x1, self.cx1, self.cx2, self.x2, i, n)
    }

    /// The row of the point at parameter `i / n`.
    pub open spec fn y(self, i: int, n: int) -> int {
        cubic_at(self.y1, self.cy1, self.cy2, self.y2, i, n)
    }

    /// `(px, py)` lies on one of the first `k` of the curve's `n`
    /// segments.
    pub open spec fn covers(self, n: int, k: nat, px: int, py: int) -> bool
        decreases k,
    {
        k > 0 && (on_line(
            self.x(k - 1, n),
            self.y(k - 1, n),
            self.x(k as int, n),
            self.y(k as int, n),
            px,
            py,
        ) || self.covers(n, (k - 1) as nat, px, py))
    }
}

/// Largest magnitude of a coordinate of a control point.
pub const CONTROL_LIMIT: i64 = 0x8000_0000;

/// A weight times a coordinate lies within the weight times the
/// coordinate's bound.
proof fn lemma_term(w: int, v: int, m: int)
    requires
        0 <= w,
        -m <= v <= m,
    ensures
        -(w * m) <= w * v <= w * m,
{
    assert(-(w * m) <= w * v <= w * m) by (nonlinear_arith)
        requires
            0 <= w,
            -m <= v <= m,
    ;
}

/// A number within `w * m` of zero, divided by a positive `w` towards
/// zero, lies within `m` of zero.
proof fn lemma_quotient(s: int, w: int, m: int)
    requires
        0 < w,
        0 <= m,
        -(w * m) <= s <= w * m,
    ensures
        -m <= div_toward_zero(s, w) <= m,
{
    if s >= 0 {
        assert(s / w <= m) by (nonlinear_arith)
            requires
                0 <= s <= w * m,
                0 < w,
        ;
        assert(0 <= s / w) by (nonlinear_arith)
            requires
                0 <= s,
                0 < w,
        ;
    } else {
        assert((-s) / w <= m) by (nonlinear_arith)
            requires
                0 <= -s <= w * m,
                0 < w,
        ;
        assert(0 <= (-s) / w) by (nonlinear_arith)
            requires
                0 <= -s,
                0 < w,
        ;
    }
}

/// Divides towards zero.
fn divide(s: i128, w: u128) -> (q: i128)
    requires
        0 < w,
        -0x7FFF_FFFF_FFFF_FFFF_FFFF_FFFF_FFFF_FFFF <= s <= 0x7FFF_FFFF_FFFF_FFFF_FFFF_FFFF_FFFF_FFFF,
    ensures
        q == div_toward_zero(s as int, w as int),
{
    if s >= 0 {
        let q: u128 = (s as u128) / w;
        assert(q <= s) by (nonlinear_arith)
            requires
                q == (s as int) / (w as int),
                0 <= s,
                0 < w,
        ;
        q as i128
    } else {
        let q: u128 = ((-s) as u128) / w;
        assert(q <= -s) by (nonlinear_arith)
            requires
                q == (-(s as int)) / (w as int),
                0 <= -s,
                0 < w,
        ;
        -(q as i128)
    }
}

/// Computes [`quadratic_at`].
fn quadratic_point(a: i64, c: i64, b: i64, i: u64, n: u64) -> (r: i64)
    requires
        0 < n <= u32::MAX,
        i <= n,
        -CONTROL_LIMIT <= a <= CONTROL_LIMIT,
        -CONTROL_LIMIT <= c <= CONTROL_LIMIT,
        -CONTROL_LIMIT <= b <= CONTROL_LIMIT,
    ensures
        r == quadratic_at(a as int, c as int, b as int, i as int, n as int),
        -CONTROL_LIMIT <= r <= CONTROL_LIMIT,
{
    let u: u128 = (n - i) as u128;
    let t: u128 = i as u128;
    let ghost m: int = CONTROL_LIMIT as int;
    assert(u * u <= 0xFFFF_FFFF * 0xFFFF_FFFF && t * t <= 0xFFFF_FFFF * 0xFFFF_FFFF && u * t
        <= 0xFFFF_FFFF * 0xFFFF_FFFF) by (nonlinear_arith)
        requires
            0 <= u <= 0xFFFF_FFFF,
            0 <= t <= 0xFFFF_FFFF,
    ;
    let w0: u128 = u * u;
    let w1: u128 = 2 * (u * t);
    let w2: u128 = t * t;
    assert(0 < n * n <= 0xFFFF_FFFF * 0xFFFF_FFFF) by (nonlinear_arith)
        requires
            0 < n <= 0xFFFF_FFFF,
    ;
    let whole: u128 = (n as u128) * (n as u128);
    assert(w0 + w1 + w2 == whole) by (nonlinear_arith)
        requires
            w0 == u * u,
            w1 == 2 * (u * t),
            w2 == t * t,
            whole == (u + t) * (u + t),
    ;
    proof {
        lemma_term(w0 as int, a as int, m);
        lemma_term(w1 as int, c as int, m);
        lemma_term(w2 as int, b as int, m);
        assert(w0 * m + w1 * m + w2 * m == whole * m) by (nonlinear_arith)
            requires
                w0 + w1 + w2 == whole,
        ;
        assert(whole * m <= 0xFFFF_FFFF * 0xFFFF_FFFF * 0x8000_0000) by (nonlinear_arith)
            requires
                whole <= 0xFFFF_FFFF * 0xFFFF_FFFF,
                m == 0x8000_0000,
        ;
        assert(w0 * m >= 0 && w1 * m >= 0 && w2 * m >= 0) by (nonlinear_arith)
            requires
                w0 >= 0,
                w1 >= 0,
                w2 >= 0,
                m >= 0,
        ;
    }
    let t0: i128 = (w0 as i128) * (a as i128);
    let t1: i128 = (w1 as i128) * (c as i128);
    let t2: i128 = (w2 as i128) * (b as i128);
    let sum: i128 = t0 + t1 + t2;
    proof {
        assert(sum == quadratic_sum(a as int, c as int, b as int, i as int, n as int))
            by (nonlinear_arith)
            requires
                sum == w0 * a + w1 * c + w2 * b,
                w0 == (n - i) * (n - i),
                w1 == 2 * ((n - i) * i),
                w2 == i * i,
                quadratic_sum(a as int, c as int, b as int, i as int, n as int) == (n - i) * (n
                    - i) * a + 2 * (n - i) * i * c + i * i * b,
        ;
        lemma_quotient(sum as int, whole as int, m);
    }
    let q = divide(sum, whole);
    q as i64
}

/// Computes [`cubic_at`].
fn cubic_point(a: i64, c1: i64, c2: i64, b: i64, i: u64, n: u64) -> (r: i64)
    requires
        0 < n <= u32::MAX,
        i <= n,
        -CONTROL_LIMIT <= a <= CONTROL_LIMIT,
        -CONTROL_LIMIT <= c1 <= CONTROL_LIMIT,
        -CONTROL_LIMIT <= c2 <= CONTROL_LIMIT,
        -CONTROL_LIMIT <= b <= CONTROL_LIMIT,
    ensures
        r == cubic_at(a as int, c1 as int, c2 as int, b as int, i as int, n as int),
        -CONTROL_LIMIT <= r <= CONTROL_LIMIT,
{
    let u: u128 = (n - i) as u128;
    let t: u128 = i as u128;
    let ghost m: int = CONTROL_LIMIT as int;
    assert(u * u <= 0xFFFF_FFFF * 0xFFFF_FFFF && t * t <= 0xFFFF_FFFF * 0xFFFF_FFFF)
        by (nonlinear_arith)
        requires
            0 <= u <= 0xFFFF_FFFF,
            0 <= t <= 0xFFFF_FFFF,
    ;
    let uu: u128 = u * u;
    let tt: u128 = t * t;
    assert(uu * u <= 0xFFFF_FFFF * 0xFFFF_FFFF * 0xFFFF_FFFF && uu * t <= 0xFFFF_FFFF
        * 0xFFFF_FFFF * 0xFFFF_FFFF && tt * u <= 0xFFFF_FFFF * 0xFFFF_FFFF * 0xFFFF_FFFF && tt * t
        <= 0xFFFF_FFFF * 0xFFFF_FFFF * 0xFFFF_FFFF) by (nonlinear_arith)
        requires
            0 <= uu <= 0xFFFF_FFFF * 0xFFFF_FFFF,
            0 <= tt <= 0xFFFF_FFFF * 0xFFFF_FFFF,
            0 <= u <= 0xFFFF_FFFF,
            0 <= t <= 0xFFFF_FFFF,
    ;
    let w0: u128 = uu * u;
    let w1: u128 = 3 * (uu * t);
    let w2: u128 = 3 * (tt * u);
    let w3: u128 = tt * t;
    assert(0 < n * n <= 0xFFFF_FFFF * 0xFFFF_FFFF) by (nonlinear_arith)
        requires
            0 < n <= 0xFFFF_FFFF,
    ;
    let nn: u128 = (n as u128) * (n as u128);
    assert(0 < nn * n <= 0xFFFF_FFFF * 0xFFFF_FFFF * 0xFFFF_FFFF) by (nonlinear_arith)
        requires
            0 < nn <= 0xFFFF_FFFF * 0xFFFF_FFFF,
            0 < n <= 0xFFFF_FFFF,
    ;
    let whole: u128 = nn * (n as u128);
    assert(w0 + w1 + w2 + w3 == whole) by (nonlinear_arith)
        requires
            w0 == u * u * u,
            w1 == 3 * (u * u * t),
            w2 == 3 * (t * t * u),
            w3 == t * t * t,
            whole == (u + t) * (u + t) * (u + t),
    ;
    proof {
        lemma_term(w0 as int, a as int, m);
        lemma_term(w1 as int, c1 as int, m);
        lemma_term(w2 as int, c2 as int, m);
        lemma_term(w3 as int, b as int, m);
        assert(w0 * m + w1 * m + w2 * m + w3 * m == whole * m) by (nonlinear_arith)
            requires
                w0 + w1 + w2 + w3 == whole,
        ;
        assert(whole * m <= 0xFFFF_FFFF * 0xFFFF_FFFF * 0xFFFF_FFFF * 0x8000_0000)
            by (nonlinear_arith)
            requires
                0 <= whole <= 0xFFFF_FFFF * 0xFFFF_FFFF * 0xFFFF_FFFF,
                m == 0x8000_0000,
        ;
        assert(w0 * m >= 0 && w1 * m >= 0 && w2 * m >= 0 && w3 * m >= 0) by (nonlinear_arith)
            requires
                w0 >= 0,
                w1 >= 0,
                w2 >= 0,
                w3 >= 0,
                m >= 0,
        ;
    }
    let t0: i128 = (w0 as i128) * (a as i128);
    let t1: i128 = (w1 as i128) * (c1 as i128);
    let t2: i128 = (w2 as i128) * (c2 as i128);
    let t3: i128 = (w3 as i128) * (b as i128);
    let s01: i128 = t0 + t1;
    let s012: i128 = s01 + t2;
    let sum: i128 = s012 + t3;
    proof {
        assert(sum == cubic_sum(a as int, c1 as int, c2 as int, b as int, i as int, n as int))
            by (nonlinear_arith)
            requires
                sum == w0 * a + w1 * c1 + w2 * c2 + w3 * b,
                w0 == (n - i) * (n - i) * (n - i),
                w1 == 3 * ((n - i) * (n - i) * i),
                w2 == 3 * (i * i * (n - i)),
                w3 == i * i * i,
                cubic_sum(a as int, c1 as int, c2 as int, b as int, i as int, n as int) == (n - i)
                    * (n - i) * (n - i) * a + 3 * (n - i) * (n - i) * i * c1 + 3 * (n - i) * i * i
                    * c2 + i * i * i * b,
        ;
        lemma_quotient(sum as int, whole as int, m);
    }
    let q = divide(sum, whole);
    q as i64
}

/// Draws a quadratic Bézier curve from `(x1, y1)` to `(x2, y2)` with the
/// control point `(cx, cy)`, flattened into `segments` lines. A curve of
/// no segments draws nothing.
pub fn graphics_bezier_quadratic(
    video: &mut VideoState,
    x1: i32,
    y1: i32,
    cx: i32,
    cy: i32,
    x2: i32,
    y2: i32,
    segments: u32,
)
    requires
        old(video).wf(),
    ensures
        final(video).wf(),
        final(video)@.same_layout(old(video)@),
        forall|px: int, py: int|
            old(video)@.contains(px, py) ==> #[trigger] final(video)@.pixel(px, py) == (if (
            Quadratic {
                x1: x1 as int,
                y1: y1 as int,
                cx: cx as int,
                cy: cy as int,
                x2: x2 as int,
                y2: y2 as int,
            }).covers(segments as int, segments as nat, px, py) {
                old(video)@.color
            } else {
                old(video)@.pixel(px, py)
            }),
{
    if segments == 0 {
        return ;
    }
    let n: u64 = segments as u64;
    let ghost curve = Quadratic {
        x1: x1 as int,
        y1: y1 as int,
        cx: cx as int,
        cy: cy as int,
        x2: x2 as int,
        y2: y2 as int,
    };
    let ghost color = old(video)@.color;
    let mut prev_x: i64 = quadratic_point(x1 as i64, cx as i64, x2 as i64, 0, n);
    let mut prev_y: i64 = quadratic_point(y1 as i64, cy as i64, y2 as i64, 0, n);
    let mut i: u64 = 0;
    while i < n
        invariant
            video.wf(),
            video@.same_layout(old(video)@),
            color == old(video)@.color,
            0 < n <= u32::MAX,
            n == segments,
            i <= n,
            curve == (Quadratic {
                x1: x1 as int,
                y1: y1 as int,
                cx: cx as int,
                cy: cy as int,
                x2: x2 as int,
                y2: y2 as int,
            }),
            prev_x == curve.x(i as int, n as int),
            prev_y == curve.y(i as int, n as int),
            -CONTROL_LIMIT <= prev_x <= CONTROL_LIMIT,
            -CONTROL_LIMIT <= prev_y <= CONTROL_LIMIT,
            forall|px: int, py: int|
                old(video)@.contains(px, py) ==> #[trigger] video@.pixel(px, py) == (
                if curve.covers(n as int, i as nat, px, py) {
                    color
                } else {
                    old(video)@.pixel(px, py)
                }),
        decreases n - i,
    {
        i += 1;
        let x = quadratic_point(x1 as i64, cx as i64, x2 as i64, i, n);
        let y = quadratic_point(y1 as i64, cy as i64, y2 as i64, i, n);
        let ghost before = video@;
        line_core(video, prev_x, prev_y, x, y);
        proof {
            assert forall|px: int, py: int| old(video)@.contains(px, py) implies video@.pixel(
                px,
                py,
            ) == (if curve.covers(n as int, i as nat, px, py) {
                color
            } else {
                old(video)@.pixel(px, py)
            }) by {
                let _ = before.pixel(px, py);
            }
        }
        prev_x = x;
        prev_y = y;
    }
}

/// Draws a cubic Bézier curve from `(x1, y1)` to `(x2, y2)` with the
/// control points `(cx1, cy1)` and `(cx2, cy2)`, flattened into
/// `segments` lines. A curve of no segments draws nothing.
pub fn graphics_bezier_cubic(
    video: &mut VideoState,
    x1: i32,
    y1: i32,
    cx1: i32,
    cy1: i32,
    cx2: i32,
    cy2: i32,
    x2: i32,
    y2: i32,
    segments: u32,
)
    requires
        old(video).wf(),
    ensures
        final(video).wf(),
        final(video)@.same_layout(old(video)@),
        forall|px: int, py: int|
            old(video)@.contains(px, py) ==> #[trigger] final(video)@.pixel(px, py) == (if (Cubic {
                x1: x1 as int,
                y1: y1 as int,
                cx1: cx1 as int,
                cy1: cy1 as int,
                cx2: cx2 as int,
                cy2: cy2 as int,
                x2: x2 as int,
                y2: y2 as int,
            }).covers(segments as int, segments as nat, px, py) {
                old(video)@.color
            } else {
                old(video)@.pixel(px, py)
            }),
{
    if segments == 0 {
        return ;
    }
    let n: u64 = segments as u64;
    let ghost curve = Cubic {
        x1: x1 as int,
        y1: y1 as int,
        cx1: cx1 as int,
        cy1: cy1 as int,
        cx2: cx2 as int,
        cy2: cy2 as int,
        x2: x2 as int,
        y2: y2 as int,
    };
    let ghost color = old(video)@.color;
    let mut prev_x: i64 = cubic_point(x1 as i64, cx1 as i64, cx2 as i64, x2 as i64, 0, n);
    let mut prev_y: i64 = cubic_point(y1 as i64, cy1 as i64, cy2 as i64, y2 as i64, 0, n);
    let mut i: u64 = 0;
    while i < n
        invariant
            video.wf(),
            video@.same_layout(old(video)@),
            color == old(video)@.color,
            0 < n <= u32::MAX,
            n == segments,
            i <= n,
            curve == (Cubic {
                x1: x1 as int,
                y1: y1 as int,
                cx1: cx1 as int,
                cy1: cy1 as int,
                cx2: cx2 as int,
                cy2: cy2 as int,
                x2: x2 as int,
                y2: y2 as int,
            }),
            prev_x == curve.x(i as int, n as int),
            prev_y == curve.y(i as int, n as int),
            -CONTROL_LIMIT <= prev_x <= CONTROL_LIMIT,
            -CONTROL_LIMIT <= prev_y <= CONTROL_LIMIT,
            forall|px: int, py: int|
                old(video)@.contains(px, py) ==> #[trigger] video@.pixel(px, py) == (
                if curve.covers(n as int, i as nat, px, py) {
                    color
                } else {
                    old(video)@.pixel(px, py)
                }),
        decreases n - i,
    {
        i += 1;
        let x = cubic_point(x1 as i64, cx1 as i64, cx2 as i64, x2 as i64, i, n);
        let y = cubic_point(y1 as i64, cy1 as i64, cy2 as i64, y2 as i64, i, n);
        let ghost before = video@;
        line_core(video, prev_x, prev_y, x, y);
        proof {
            assert forall|px: int, py: int| old(video)@.contains(px, py) implies video@.pixel(
                px,
                py,
            ) == (if curve.covers(n as int, i as nat, px, py) {
                color
            } else {
                old(video)@.pixel(px, py)
            }) by {
                let _ = before.pixel(px, py);
            }
        }
        prev_x = x;
        prev_y = y;
    }
}

} // verus!
