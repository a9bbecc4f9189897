//! Straight lines by the integer Bresenham walk.
//!
//! The walk starts at the first end point and moves one pixel per step,
//! along x, along y or along both, steered by an error term, until it
//! stands on the second end point. A line is the set of positions the
//! walk visits.

use vstd::prelude::*;
use vstd::arithmetic::mul::lemma_mul_inequality;
use crate::raster::plot;
use crate::state::VideoState;

verus! {

/// Largest magnitude of a coordinate that the walk is run with.
pub const COORD_LIMIT: i64 = 0x100_0000_0000;

/// The distance between `a` and `b`.
pub open spec fn span(a: int, b: int) -> int {
    if a < b {
        b - a
    } else {
        a - b
    }
}

/// The direction of a step from `a` towards `b`.
pub open spec fn toward(a: int, b: int) -> int {
    if a < b {
        1
    } else {
        -1
    }
}

/// A walk from one end point of a line to the other: where it stands,
/// its error term and what it is headed for.
pub ghost struct Walk {
    pub x: int,
    pub y: int,
    pub err: int,
    pub x1: int,
    pub y1: int,
    pub dx: int,
    pub dy: int,
    pub sx: int,
    pub sy: int,
}

impl Walk {
    /// The walk at its first end point.
    pub open spec fn start(x0: int, y0: int, x1: int, y1: int) -> Walk {
        Walk {
            x: x0,
            y: y0,
            err: span(x0, x1) - span(y0, y1),
            x1,
            y1,
            dx: span(x0, x1),
            dy: -span(y0, y1),
            sx: toward(x0, x1),
            sy: toward(y0, y1),
        }
    }

    /// The walk stands on its second end point.
    pub open spec fn arrived(self) -> bool {
        self.x == self.x1 && self.y == self.y1
    }

    /// The walk after one step.
    pub open spec fn next(self) -> Walk {
        let e2 = 2 * self.err;
        let along_x = e2 >= self.dy;
        let along_y = e2 <= self.dx;
        Walk {
            x: if along_x {
                self.x + self.sx
            } else {
                self.x
            },
            y: if along_y {
                self.y + self.sy
            } else {
                self.y
            },
            err: self.err + (if along_x {
                self.dy
            } else {
                0
            }) + (if along_y {
                self.dx
            } else {
                0
            }),
            ..self
        }
    }

    /// The walk stands on `(px, py)` now or within `budget` more steps,
    /// not counting steps past its second end point.
    pub open spec fn visits(self, budget: nat, px: int, py: int) -> bool
        decreases budget,
    {
        (self.x == px && self.y == py) || (!self.arrived() && budget > 0 && self.next().visits(
            (budget - 1) as nat,
            px,
            py,
        ))
    }
}

/// `(px, py)` lies on the line from `(x0, y0)` to `(x1, y1)`. The walk
/// arrives within `span(x0, x1) + span(y0, y1)` steps, so the budget
/// never cuts it short.
pub open spec fn on_line(x0: int, y0: int, x1: int, y1: int, px: int, py: int) -> bool {
    Walk::start(x0, y0, x1, y1).visits((span(x0, x1) + span(y0, y1)) as nat, px, py)
}

/// Draws the line from `(x0, y0)` to `(x1, y1)` in the draw colour.
pub(crate) fn line_core(video: &mut VideoState, x0: i64, y0: i64, x1: i64, y1: i64)
    requires
        old(video).wf(),
        -COORD_LIMIT <= x0 <= COORD_LIMIT,
        -COORD_LIMIT <= y0 <= COORD_LIMIT,
        -COORD_LIMIT <= x1 <= COORD_LIMIT,
        -COORD_LIMIT <= y1 <= COORD_LIMIT,
    ensures
        final(video).wf(),
        final(video)@.same_layout(old(video)@),
        forall|px: int, py: int|
            old(video)@.contains(px, py) ==> #[trigger] final(video)@.pixel(px, py) == (if on_line(
                x0 as int,
                y0 as int,
                x1 as int,
                y1 as int,
                px,
                py,
            ) {
                old(video)@.color
            } else {
                old(video)@.pixel(px, py)
            }),
{
    let dx: i64 = if x0 < x1 {
        x1 - x0
    } else {
        x0 - x1
    };
    let ady: i64 = if y0 < y1 {
        y1 - y0
    } else {
        y0 - y1
    };
    let dy: i64 = -ady;
    let sx: i64 = if x0 < x1 {
        1
    } else {
        -1
    };
    let sy: i64 = if y0 < y1 {
        1
    } else {
        -1
    };
    let mut x: i64 = x0;
    let mut y: i64 = y0;
    let mut err: i64 = dx + dy;
    let ghost mut i: int = 0;
    let ghost mut j: int = 0;
    let ghost mut budget: nat = (dx + ady) as nat;
    let ghost start = Walk::start(x0 as int, y0 as int, x1 as int, y1 as int);
    let ghost color = old(video)@.color;
    proof {
        assert((0 + 1) * (dx as int) == dx as int) by (nonlinear_arith);
        assert((0 + 1) * (ady as int) == ady as int) by (nonlinear_arith);
    }
    loop
        invariant
            video.wf(),
            video@.same_layout(old(video)@),
            color == old(video)@.color,
            -COORD_LIMIT <= x0 <= COORD_LIMIT,
            -COORD_LIMIT <= y0 <= COORD_LIMIT,
            -COORD_LIMIT <= x1 <= COORD_LIMIT,
            -COORD_LIMIT <= y1 <= COORD_LIMIT,
            dx == span(x0 as int, x1 as int),
            ady == span(y0 as int, y1 as int),
            dy == -ady,
            sx == toward(x0 as int, x1 as int),
            sy == toward(y0 as int, y1 as int),
            start == Walk::start(x0 as int, y0 as int, x1 as int, y1 as int),
            0 <= i <= dx,
            0 <= j <= ady,
            x == x0 + sx * i,
            y == y0 + sy * j,
            err == (j + 1) * dx - (i + 1) * ady,
            -2 * ady <= err <= 2 * dx,
            (dx - i) + (ady - j) <= budget,
            forall|px: int, py: int|
                old(video)@.contains(px, py) ==> (if (Walk {
                    x: x as int,
                    y: y as int,
                    err: err as int,
                    ..start
                }).visits(budget, px, py) {
                    color
                } else {
                    #[trigger] video@.pixel(px, py)
                }) == (if on_line(x0 as int, y0 as int, x1 as int, y1 as int, px, py) {
                    color
                } else {
                    old(video)@.pixel(px, py)
                }),
        ensures
            video.wf(),
            video@.same_layout(old(video)@),
            forall|px: int, py: int|
                old(video)@.contains(px, py) ==> #[trigger] video@.pixel(px, py) == (if on_line(
                    x0 as int,
                    y0 as int,
                    x1 as int,
                    y1 as int,
                    px,
                    py,
                ) {
                    color
                } else {
                    old(video)@.pixel(px, py)
                }),
        decreases budget,
    {
        let ghost before = video@;
        plot(video, x, y);
        if x == x1 && y == y1 {
            proof {
                assert forall|px: int, py: int| old(video)@.contains(px, py) implies video@.pixel(
                    px,
                    py,
                ) == (if on_line(x0 as int, y0 as int, x1 as int, y1 as int, px, py) {
                    color
                } else {
                    old(video)@.pixel(px, py)
                }) by {
                    let _ = before.pixel(px, py);
                }
            }
            break ;
        }
        proof {
            // The walk has not arrived, so a step along x stays within
            // dx steps and a step along y within ady steps.
            if i == dx {
                lemma_mul_inequality(j + 1, ady as int, dx as int);
                assert((dx + 1) * ady == ady * dx + ady) by (nonlinear_arith);
            }
            if j == ady {
                lemma_mul_inequality(i + 1, dx as int, ady as int);
                assert((ady + 1) * dx == dx * ady + dx) by (nonlinear_arith);
            }
        }
        let e2: i64 = 2 * err;
        let ghost old_i = i;
        let ghost old_j = j;
        if e2 >= dy {
            err = err + dy;
            x = x + sx;
            proof {
                i = i + 1;
            }
        }
        if e2 <= dx {
            err = err + dx;
            y = y + sy;
            proof {
                j = j + 1;
            }
        }
        proof {
            assert(sx * (old_i + 1) == sx * old_i + sx) by (nonlinear_arith);
            assert(sy * (old_j + 1) == sy * old_j + sy) by (nonlinear_arith);
            assert((old_j + 1 + 1) * dx == (old_j + 1) * dx + dx) by (nonlinear_arith);
            assert((old_i + 1 + 1) * ady == (old_i + 1) * ady + ady) by (nonlinear_arith);
            let after = Walk { x: x as int, y: y as int, err: err as int, ..start };
            budget = (budget - 1) as nat;
            assert forall|px: int, py: int| old(video)@.contains(px, py) implies (if after.visits(
                budget,
                px,
                py,
            ) {
                color
            } else {
                video@.pixel(px, py)
            }) == (if on_line(x0 as int, y0 as int, x1 as int, y1 as int, px, py) {
                color
            } else {
                old(video)@.pixel(px, py)
            }) by {
                let _ = before.pixel(px, py);
            }
        }
    }
}

/// Draws a line with integer Bresenham steps and no anti-aliasing.
pub fn graphics_line(video: &mut VideoState, x0: i32, y0: i32, x1: i32, y1: i32)
    requires
        old(video).wf(),
    ensures
        final(video).wf(),
        final(video)@.same_layout(old(video)@),
        forall|px: int, py: int|
            old(video)@.contains(px, py) ==> #[trigger] final(video)@.pixel(px, py) == (if on_line(
                x0 as int,
                y0 as int,
                x1 as int,
                y1 as int,
                px,
                py,
            ) {
                old(video)@.color
            } else {
                old(video)@.pixel(px, py)
            }),
{
    line_core(video, x0 as i64, y0 as i64, x1 as i64, y1 as i64);
}

/// Draws a line exactly as [`graphics_line`] does.
pub fn graphics_line_internal(video: &mut VideoState, x1: i32, y1: i32, x2: i32, y2: i32)
    requires
        old(video).wf(),
    ensures
        final(video).wf(),
        final(video)@.same_layout(old(video)@),
        forall|px: int, py: int|
            old(video)@.contains(px, py) ==> #[trigger] final(video)@.pixel(px, py) == (if on_line(
                x1 as int,
                y1 as int,
                x2 as int,
                y2 as int,
                px,
                py,
            ) {
                old(video)@.color
            } else {
                old(video)@.pixel(px, py)
            }),
{
    graphics_line(video, x1, y1, x2, y2);
}

} // verus!
