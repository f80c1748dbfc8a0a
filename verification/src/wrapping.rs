//! The toroidal arena: wrapping positions into a rectangle and the
//! minimal-displacement metric between two points under wrap-around.

use vstd::prelude::*;
use crate::food::Organism;
use crate::math::{iabs, sqrt_floor, lemma_abs_le_sq, lemma_sqrt_floor_monotone};
use crate::movement::in_bounds;
use crate::vec2::Vec2;
use crate::{POS_STEP_LIMIT, RECT_LIMIT};

verus! {

/// The rectangular wrap domain, set once at startup. `x`/`y` is the
/// top-left-equivalent corner; exiting one edge re-enters from the other.
#[derive(Clone, Copy, PartialEq, Eq, Structural, Debug)]
pub struct WrappingRect {
    pub x: i64,
    pub y: i64,
    pub width: i64,
    pub height: i64,
}

impl WrappingRect {
    /// A usable wrap domain: positive area, coordinates small enough that
    /// wrapping arithmetic stays exact.
    pub open spec fn wf(self) -> bool {
        &&& 0 < self.width <= RECT_LIMIT
        &&& 0 < self.height <= RECT_LIMIT
        &&& -RECT_LIMIT <= self.x <= RECT_LIMIT
        &&& -RECT_LIMIT <= self.y <= RECT_LIMIT
    }

    /// Decides the wrap-domain invariant at runtime.
    pub fn check_wf(&self) -> (r: bool)
        ensures
            r == self.wf(),
    {
        0 < self.width && self.width <= RECT_LIMIT && 0 < self.height && self.height <= RECT_LIMIT
            && -RECT_LIMIT <= self.x && self.x <= RECT_LIMIT && -RECT_LIMIT <= self.y && self.y
            <= RECT_LIMIT
    }

    /// Validates and builds a wrap rectangle; a non-positive extent (a
    /// zero-area domain) or an out-of-range coordinate is rejected.
    pub fn new(x: i64, y: i64, width: i64, height: i64) -> (r: Option<WrappingRect>)
        ensures
            match r {
                Some(rect) => {
                    &&& rect == (WrappingRect { x, y, width, height })
                    &&& rect.wf()
                },
                None => !(WrappingRect { x, y, width, height }).wf(),
            },
    {
        if 0 < width && width <= RECT_LIMIT && 0 < height && height <= RECT_LIMIT
            && -RECT_LIMIT <= x && x <= RECT_LIMIT && -RECT_LIMIT <= y && y <= RECT_LIMIT {
            Some(WrappingRect { x, y, width, height })
        } else {
            None
        }
    }
}

/// A wrap rectangle centred on the origin, as built from a viewport of the
/// given extents.
pub fn create_wrapping_rect(width: i64, height: i64) -> (r: Option<WrappingRect>)
    ensures
        match r {
            Some(rect) => {
                &&& rect.wf()
                &&& rect.width == width
                &&& rect.height == height
                &&& rect.x == -(width as int / 2)
                &&& rect.y == -(height as int / 2)
            },
            None => !(0 < width <= RECT_LIMIT && 0 < height <= RECT_LIMIT),
        },
{
    if 0 < width && width <= RECT_LIMIT && 0 < height && height <= RECT_LIMIT {
        let half_w: i64 = ((width as u64) / 2) as i64;
        let half_h: i64 = ((height as u64) / 2) as i64;
        WrappingRect::new(-half_w, -half_h, width, height)
    } else {
        None
    }
}

/// One axis of the wrap: translate by the domain length when the coordinate
/// lies outside `[lo, lo + len]`. A single excursion is assumed; see
/// `lemma_wrap_axis_idempotent` for the window on which this is a projection.
pub open spec fn wrap_axis(p: int, lo: int, len: int) -> int {
    if p < lo {
        p + len
    } else if p > lo + len {
        p - len
    } else {
        p
    }
}

/// One axis of the minimal displacement: fold a coordinate difference by the
/// domain length when the direct path is longer than half the domain.
pub open spec fn fold_axis(d: int, len: int) -> int {
    if 2 * iabs(d) > len {
        if d > 0 {
            d - len
        } else {
            d + len
        }
    } else {
        d
    }
}

/// The minimal displacement from `a` to `b` on one axis: wrap both
/// coordinates into the domain, subtract, then fold.
pub open spec fn delta_axis(a: int, b: int, lo: int, len: int) -> int {
    fold_axis(wrap_axis(b, lo, len) - wrap_axis(a, lo, len), len)
}

/// The minimal-displacement vector from `a` to `b` on the torus.
pub open spec fn spec_wrapping_delta(a: Vec2, b: Vec2, rect: WrappingRect) -> Vec2 {
    Vec2 {
        x: delta_axis(a.x as int, b.x as int, rect.x as int, rect.width as int) as i64,
        y: delta_axis(a.y as int, b.y as int, rect.y as int, rect.height as int) as i64,
    }
}

/// Positions whose wrapping arithmetic is exact: within one domain length of
/// the rectangle on each axis, and far from the `i64` rim.
pub open spec fn wrap_in_range(p: Vec2, rect: WrappingRect) -> bool {
    &&& rect.x - rect.width <= p.x <= rect.x + 2 * rect.width
    &&& rect.y - rect.height <= p.y <= rect.y + 2 * rect.height
}

/// Wraps a position into the rectangle, translating by one domain length per
/// axis at most.
pub fn wrap_position(position: Vec2, rect: &WrappingRect) -> (r: Vec2)
    requires
        rect.wf(),
        -0x1000_0000_0000_0000 <= position.x <= 0x1000_0000_0000_0000,
        -0x1000_0000_0000_0000 <= position.y <= 0x1000_0000_0000_0000,
    ensures
        r.x == wrap_axis(position.x as int, rect.x as int, rect.width as int),
        r.y == wrap_axis(position.y as int, rect.y as int, rect.height as int),
{
    let mut wrapped = position;
    if position.x < rect.x {
        wrapped.x = position.x + rect.width;
    } else if position.x > rect.x + rect.width {
        wrapped.x = position.x - rect.width;
    }
    if position.y < rect.y {
        wrapped.y = position.y + rect.height;
    } else if position.y > rect.y + rect.height {
        wrapped.y = position.y - rect.height;
    }
    wrapped
}

/// The minimal-displacement vector from `a` to `b` under wrap-around: wrap
/// both points, subtract, then fold each axis by its own domain length so the
/// shorter of the two wrap-around paths is chosen.
pub fn wrapping_delta(a: Vec2, b: Vec2, rect: &WrappingRect) -> (r: Vec2)
    requires
        rect.wf(),
        -0x1000_0000_0000_0000 <= a.x <= 0x1000_0000_0000_0000,
        -0x1000_0000_0000_0000 <= a.y <= 0x1000_0000_0000_0000,
        -0x1000_0000_0000_0000 <= b.x <= 0x1000_0000_0000_0000,
        -0x1000_0000_0000_0000 <= b.y <= 0x1000_0000_0000_0000,
    ensures
        r == spec_wrapping_delta(a, b, *rect),
{
    let wrapped_a = wrap_position(a, rect);
    let wrapped_b = wrap_position(b, rect);

    let mut delta = Vec2 { x: wrapped_b.x - wrapped_a.x, y: wrapped_b.y - wrapped_a.y };

    let abs_x: i64 = if delta.x < 0 { -delta.x } else { delta.x };
    if 2 * abs_x > rect.width {
        if delta.x > 0 {
            delta.x = delta.x - rect.width;
        } else {
            delta.x = delta.x + rect.width;
        }
    }

    let abs_y: i64 = if delta.y < 0 { -delta.y } else { delta.y };
    if 2 * abs_y > rect.height {
        if delta.y > 0 {
            delta.y = delta.y - rect.height;
        } else {
            delta.y = delta.y + rect.height;
        }
    }

    delta
}

/// The squared length of the minimal displacement from `a` to `b`.
pub fn wrapping_length_squared(a: Vec2, b: Vec2, rect: &WrappingRect) -> (r: u128)
    requires
        rect.wf(),
        -0x1000_0000_0000_0000 <= a.x <= 0x1000_0000_0000_0000,
        -0x1000_0000_0000_0000 <= a.y <= 0x1000_0000_0000_0000,
        -0x1000_0000_0000_0000 <= b.x <= 0x1000_0000_0000_0000,
        -0x1000_0000_0000_0000 <= b.y <= 0x1000_0000_0000_0000,
    ensures
        r == spec_wrapping_delta(a, b, *rect).len_sq(),
{
    wrapping_delta(a, b, rect).length_squared()
}

/// The length (rounded down) of the minimal displacement from `a` to `b`.
pub fn wrapping_length(a: Vec2, b: Vec2, rect: &WrappingRect) -> (r: u64)
    requires
        rect.wf(),
        -0x1000_0000_0000_0000 <= a.x <= 0x1000_0000_0000_0000,
        -0x1000_0000_0000_0000 <= a.y <= 0x1000_0000_0000_0000,
        -0x1000_0000_0000_0000 <= b.x <= 0x1000_0000_0000_0000,
        -0x1000_0000_0000_0000 <= b.y <= 0x1000_0000_0000_0000,
    ensures
        r == sqrt_floor(spec_wrapping_delta(a, b, *rect).len_sq() as nat),
{
    wrapping_delta(a, b, rect).length()
}

/// A position carried into the rectangle, one translation per axis at most.
pub open spec fn spec_wrap_position(p: Vec2, rect: WrappingRect) -> Vec2 {
    Vec2 {
        x: wrap_axis(p.x as int, rect.x as int, rect.width as int) as i64,
        y: wrap_axis(p.y as int, rect.y as int, rect.height as int) as i64,
    }
}

/// Carries every organism's position back into the wrap rectangle.
pub fn wrap_transforms(organisms: &mut Vec<Organism>, rect: &WrappingRect)
    requires
        rect.wf(),
        forall|k: int|
            0 <= k < old(organisms)@.len() ==> in_bounds(
                (#[trigger] old(organisms)@[k]).position,
                POS_STEP_LIMIT as int,
            ),
    ensures
        final(organisms)@.len() == old(organisms)@.len(),
        forall|k: int|
            0 <= k < old(organisms)@.len() ==> final(organisms)@[k] == (Organism {
                position: spec_wrap_position(old(organisms)@[k].position, *rect),
                ..old(organisms)@[k]
            }),
        forall|k: int|
            0 <= k < final(organisms)@.len() ==> in_bounds(
                (#[trigger] final(organisms)@[k]).position,
                POS_STEP_LIMIT as int + RECT_LIMIT as int,
            ),
{
    let ghost orig = organisms@;
    let n = organisms.len();
    let mut i: usize = 0;
    while i < n
        invariant
            n == orig.len(),
            organisms@.len() == n,
            0 <= i <= n,
            rect.wf(),
            forall|k: int|
                0 <= k < n ==> in_bounds((#[trigger] orig[k]).position, POS_STEP_LIMIT as int),
            forall|k: int|
                0 <= k < i ==> organisms@[k] == (Organism {
                    position: spec_wrap_position(orig[k].position, *rect),
                    ..orig[k]
                }),
            forall|k: int|
                0 <= k < i ==> in_bounds(
                    (#[trigger] organisms@[k]).position,
                    POS_STEP_LIMIT as int + RECT_LIMIT as int,
                ),
            forall|k: int| i <= k < n ==> organisms@[k] == orig[k],
        decreases n - i,
    {
        let p = organisms[i].position;
        proof {
            assert(organisms@[i as int] == orig[i as int]);
        }
        let wrapped = wrap_position(p, rect);
        organisms[i].position = wrapped;
        i = i + 1;
    }
}

/// Toroidal wrap is idempotent on one axis for any coordinate within one
/// domain length of the rectangle: wrapping a wrapped coordinate changes
/// nothing.
pub proof fn lemma_wrap_axis_idempotent(p: int, lo: int, len: int)
    requires
        len > 0,
        lo - len <= p <= lo + 2 * len,
    ensures
        wrap_axis(wrap_axis(p, lo, len), lo, len) == wrap_axis(p, lo, len),
{
}

/// A coordinate within one domain length of the rectangle lands inside the
/// domain when wrapped: after the wrap stage, positions lie in the rectangle.
pub proof fn lemma_wrap_axis_in_domain(p: int, lo: int, len: int)
    requires
        len > 0,
        lo - len <= p <= lo + 2 * len,
    ensures
        lo <= wrap_axis(p, lo, len) <= lo + len,
{
}

/// Toroidal wrap is idempotent on positions within one domain length of the
/// rectangle: `wrap(wrap(p, r), r) == wrap(p, r)`.
pub proof fn lemma_wrap_idempotent(p: Vec2, rect: WrappingRect)
    requires
        rect.wf(),
        wrap_in_range(p, rect),
        -0x1000_0000_0000_0000 <= p.x <= 0x1000_0000_0000_0000,
        -0x1000_0000_0000_0000 <= p.y <= 0x1000_0000_0000_0000,
    ensures
        spec_wrap_position(spec_wrap_position(p, rect), rect) == spec_wrap_position(p, rect),
{
    lemma_wrap_axis_idempotent(p.x as int, rect.x as int, rect.width as int);
    lemma_wrap_axis_idempotent(p.y as int, rect.y as int, rect.height as int);
}

/// The minimal displacement is antisymmetric: swapping the endpoints negates
/// it, on each axis.
pub proof fn lemma_delta_axis_antisymmetric(a: int, b: int, lo: int, len: int)
    requires
        len > 0,
    ensures
        delta_axis(a, b, lo, len) == -delta_axis(b, a, lo, len),
{
}

/// The minimal displacement is antisymmetric:
/// `delta(a, b, r) == -delta(b, a, r)`.
pub proof fn lemma_delta_antisymmetric(a: Vec2, b: Vec2, rect: WrappingRect)
    requires
        rect.wf(),
        -0x1000_0000_0000_0000 <= a.x <= 0x1000_0000_0000_0000,
        -0x1000_0000_0000_0000 <= a.y <= 0x1000_0000_0000_0000,
        -0x1000_0000_0000_0000 <= b.x <= 0x1000_0000_0000_0000,
        -0x1000_0000_0000_0000 <= b.y <= 0x1000_0000_0000_0000,
    ensures
        spec_wrapping_delta(a, b, rect).x == -spec_wrapping_delta(b, a, rect).x,
        spec_wrapping_delta(a, b, rect).y == -spec_wrapping_delta(b, a, rect).y,
{
    lemma_delta_axis_antisymmetric(a.x as int, b.x as int, rect.x as int, rect.width as int);
    lemma_delta_axis_antisymmetric(a.y as int, b.y as int, rect.y as int, rect.height as int);
}

/// The wrapped path is never longer than the direct path, per axis: for
/// coordinates within one domain length of the rectangle, the folded
/// difference has at most the magnitude of the plain difference.
pub proof fn lemma_delta_axis_minimal(a: int, b: int, lo: int, len: int)
    requires
        len > 0,
        lo - len <= a <= lo + 2 * len,
        lo - len <= b <= lo + 2 * len,
    ensures
        iabs(delta_axis(a, b, lo, len)) <= iabs(b - a),
{
}

/// The wrapped path is never longer than the direct path, for positions
/// within one domain length of the rectangle: the squared norms compare, and
/// so do the floored lengths.
pub proof fn lemma_delta_minimal(a: Vec2, b: Vec2, rect: WrappingRect)
    requires
        rect.wf(),
        wrap_in_range(a, rect),
        wrap_in_range(b, rect),
    ensures
        spec_wrapping_delta(a, b, rect).len_sq()
            <= (b.x - a.x) * (b.x - a.x) + (b.y - a.y) * (b.y - a.y),
        sqrt_floor(spec_wrapping_delta(a, b, rect).len_sq() as nat) <= sqrt_floor(
            ((b.x - a.x) * (b.x - a.x) + (b.y - a.y) * (b.y - a.y)) as nat,
        ),
{
    let dx = delta_axis(a.x as int, b.x as int, rect.x as int, rect.width as int);
    let dy = delta_axis(a.y as int, b.y as int, rect.y as int, rect.height as int);
    lemma_delta_axis_minimal(a.x as int, b.x as int, rect.x as int, rect.width as int);
    lemma_delta_axis_minimal(a.y as int, b.y as int, rect.y as int, rect.height as int);
    lemma_abs_le_sq(dx, b.x - a.x);
    lemma_abs_le_sq(dy, b.y - a.y);
    assert(dx * dx >= 0 && dy * dy >= 0) by (nonlinear_arith);
    lemma_sqrt_floor_monotone(
        spec_wrapping_delta(a, b, rect).len_sq() as nat,
        ((b.x - a.x) * (b.x - a.x) + (b.y - a.y) * (b.y - a.y)) as nat,
    );
}

} // verus!
