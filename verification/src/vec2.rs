//! Two-dimensional fixed-point vectors.

use vstd::prelude::*;
use crate::math::{sat_i64, div_trunc, sqrt_floor, sat_add, mul_div, isqrt};

verus! {

/// A 2D vector in milli-units.
#[derive(Clone, Copy, PartialEq, Eq, Structural, Debug)]
pub struct Vec2 {
    pub x: i64,
    pub y: i64,
}

impl Vec2 {
    /// The squared Euclidean length, as a mathematical integer.
    pub open spec fn len_sq(self) -> int {
        self.x * self.x + self.y * self.y
    }

    pub fn new(x: i64, y: i64) -> (v: Vec2)
        ensures
            v == (Vec2 { x, y }),
    {
        Vec2 { x, y }
    }

    pub fn zero() -> (v: Vec2)
        ensures
            v == (Vec2 { x: 0, y: 0 }),
    {
        Vec2 { x: 0, y: 0 }
    }

    /// The squared length, computed exactly.
    pub fn length_squared(self) -> (r: u128)
        ensures
            r == self.len_sq(),
    {
        proof {
            assert(0 <= (self.x as int) * (self.x as int)
                <= 0x4000_0000_0000_0000_0000_0000_0000_0000) by (nonlinear_arith)
                requires
                    -0x8000_0000_0000_0000 <= self.x <= 0x7fff_ffff_ffff_ffff,
            ;
            assert(0 <= (self.y as int) * (self.y as int)
                <= 0x4000_0000_0000_0000_0000_0000_0000_0000) by (nonlinear_arith)
                requires
                    -0x8000_0000_0000_0000 <= self.y <= 0x7fff_ffff_ffff_ffff,
            ;
        }
        let xx: u128 = ((self.x as i128) * (self.x as i128)) as u128;
        let yy: u128 = ((self.y as i128) * (self.y as i128)) as u128;
        xx + yy
    }

    /// The length, rounded down to the nearest integer.
    pub fn length(self) -> (r: u64)
        ensures
            r == sqrt_floor(self.len_sq() as nat),
    {
        isqrt(self.length_squared())
    }

    /// Component-wise saturating addition.
    pub fn sat_add_v(self, other: Vec2) -> (r: Vec2)
        ensures
            r.x == sat_i64(self.x + other.x),
            r.y == sat_i64(self.y + other.y),
    {
        Vec2 { x: sat_add(self.x, other.x), y: sat_add(self.y, other.y) }
    }

    /// Component-wise `* m / d` with truncation and saturation.
    pub fn mul_div_v(self, m: i64, d: u64) -> (r: Vec2)
        requires
            d >= 1,
        ensures
            r.x == sat_i64(div_trunc(self.x * m, d as int)),
            r.y == sat_i64(div_trunc(self.y * m, d as int)),
    {
        Vec2 { x: mul_div(self.x, m, d), y: mul_div(self.y, m, d) }
    }
}

} // verus!
