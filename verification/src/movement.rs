//! Motion integration: acceleration into velocity, exponential damping, a top
//! speed cap, position integration, and facing derived from velocity.

use vstd::prelude::*;
use crate::math::{div_trunc, iabs, sqrt_floor, lemma_scaled_bound, lemma_sqrt_floor_bounds,
    lemma_sqrt_floor_ge, mul_div, isqrt};
use crate::vec2::Vec2;
use crate::{ACC_LIMIT, DT_LIMIT_MS, MILLI, PARAM_LIMIT, POS_LIMIT, VEL_LIMIT, VEL_STEP_LIMIT};

verus! {

/// Force accumulated for one tick, in milli-units per second squared; zeroed
/// once consumed.
#[derive(Clone, Copy, PartialEq, Eq, Structural, Debug)]
pub struct Acceleration(pub Vec2);

/// Velocity in milli-units per second.
#[derive(Clone, Copy, PartialEq, Eq, Structural, Debug)]
pub struct Velocity(pub Vec2);

/// Fractional velocity loss per second, in milli-units (1000 is full loss
/// over one second).
#[derive(Clone, Copy, PartialEq, Eq, Structural, Debug)]
pub struct VelocityDamping(pub i64);

/// A cap on the velocity magnitude, in milli-units per second.
#[derive(Clone, Copy, PartialEq, Eq, Structural, Debug)]
pub struct MaxVelocity(pub i64);

/// Squared speeds below this snap to exact zero, preventing endless jitter
/// from rounding residue; it is a hundred-thousandth of a squared world unit.
pub const VELOCITY_SNAP_LEN_SQ: i64 = 10;

/// Both components no larger than `lim` in magnitude.
pub open spec fn in_bounds(v: Vec2, lim: int) -> bool {
    iabs(v.x as int) <= lim && iabs(v.y as int) <= lim
}

/// The velocity after one tick's acceleration: `v + a * dt`, snapped to zero
/// when negligibly small.
pub open spec fn spec_update_velocity(v: Vec2, a: Vec2, dt_ms: int) -> Vec2 {
    let vi = Vec2 {
        x: (v.x + div_trunc(a.x * dt_ms, MILLI as int)) as i64,
        y: (v.y + div_trunc(a.y * dt_ms, MILLI as int)) as i64,
    };
    if vi.len_sq() < VELOCITY_SNAP_LEN_SQ {
        Vec2 { x: 0, y: 0 }
    } else {
        vi
    }
}

/// Integrates the pending acceleration into the velocity and resets the
/// acceleration to zero, so forces are recomputed fresh every tick.
pub fn update_velocity(velocity: &mut Velocity, acceleration: &mut Acceleration, dt_ms: u64)
    requires
        dt_ms <= DT_LIMIT_MS,
        in_bounds(old(velocity).0, VEL_LIMIT as int),
        in_bounds(old(acceleration).0, ACC_LIMIT as int),
    ensures
        final(velocity).0 == spec_update_velocity(old(velocity).0, old(acceleration).0, dt_ms as int),
        final(acceleration).0 == (Vec2 { x: 0, y: 0 }),
        in_bounds(final(velocity).0, VEL_STEP_LIMIT as int),
{
    proof {
        lemma_scaled_bound(acceleration.0.x as int, dt_ms as int, MILLI as int, ACC_LIMIT as int, DT_LIMIT_MS as int);
        lemma_scaled_bound(acceleration.0.y as int, dt_ms as int, MILLI as int, ACC_LIMIT as int, DT_LIMIT_MS as int);
    }
    let dvx = mul_div(acceleration.0.x, dt_ms as i64, 1000);
    let dvy = mul_div(acceleration.0.y, dt_ms as i64, 1000);
    let vi = Vec2 { x: velocity.0.x + dvx, y: velocity.0.y + dvy };
    let ls = vi.length_squared();
    if ls < VELOCITY_SNAP_LEN_SQ as u128 {
        velocity.0 = Vec2::zero();
    } else {
        velocity.0 = vi;
    }
    acceleration.0 = Vec2::zero();
}

/// The damping factor for one tick, in milli-units: `1 - damping * dt`,
/// floored at zero.
pub open spec fn spec_damp_factor(damping: int, dt_ms: int) -> int {
    let f = MILLI - div_trunc(damping * dt_ms, MILLI as int);
    if f < 0 {
        0
    } else {
        f
    }
}

/// The velocity after one tick of exponential damping.
pub open spec fn spec_damp_velocity(v: Vec2, damping: int, dt_ms: int) -> Vec2 {
    let f = spec_damp_factor(damping, dt_ms);
    Vec2 {
        x: div_trunc(v.x * f, MILLI as int) as i64,
        y: div_trunc(v.y * f, MILLI as int) as i64,
    }
}

/// Scales the velocity down by the damping factor; the factor never goes
/// below zero, so damping can stop motion but never reverse it.
pub fn damp_velocity(velocity: &mut Velocity, damping: &VelocityDamping, dt_ms: u64)
    requires
        dt_ms <= DT_LIMIT_MS,
        0 <= damping.0 <= PARAM_LIMIT,
        in_bounds(old(velocity).0, VEL_STEP_LIMIT as int),
    ensures
        final(velocity).0 == spec_damp_velocity(old(velocity).0, damping.0 as int, dt_ms as int),
        iabs(final(velocity).0.x as int) <= iabs(old(velocity).0.x as int),
        iabs(final(velocity).0.y as int) <= iabs(old(velocity).0.y as int),
{
    proof {
        lemma_scaled_bound(damping.0 as int, dt_ms as int, MILLI as int, PARAM_LIMIT as int, DT_LIMIT_MS as int);
    }
    let loss = mul_div(damping.0, dt_ms as i64, 1000);
    let factor: i64 = if 1000 - loss < 0 { 0 } else { 1000 - loss };
    proof {
        let vx = velocity.0.x as int;
        let vy = velocity.0.y as int;
        lemma_scaled_bound(vx, factor as int, MILLI as int, iabs(vx), MILLI as int);
        lemma_scaled_bound(vy, factor as int, MILLI as int, iabs(vy), MILLI as int);
        vstd::arithmetic::div_mod::lemma_div_multiples_vanish(iabs(vx), MILLI as int);
        vstd::arithmetic::div_mod::lemma_div_multiples_vanish(iabs(vy), MILLI as int);
    }
    velocity.0 = velocity.0.mul_div_v(factor, 1000);
}

/// The velocity with its magnitude capped: when the squared speed exceeds the
/// squared cap, the vector is rescaled onto the cap by its floored length.
pub open spec fn spec_clamp_velocity(v: Vec2, max: int) -> Vec2 {
    if v.len_sq() > max * max {
        let d = sqrt_floor(v.len_sq() as nat) as int;
        Vec2 {
            x: div_trunc(v.x * max, d) as i64,
            y: div_trunc(v.y * max, d) as i64,
        }
    } else {
        v
    }
}

/// Caps the velocity magnitude at the configured top speed.
pub fn clamp_velocity(velocity: &mut Velocity, max_velocity: &MaxVelocity)
    requires
        0 <= max_velocity.0 <= PARAM_LIMIT,
    ensures
        final(velocity).0 == spec_clamp_velocity(old(velocity).0, max_velocity.0 as int),
        iabs(final(velocity).0.x as int) <= iabs(old(velocity).0.x as int),
        iabs(final(velocity).0.y as int) <= iabs(old(velocity).0.y as int),
{
    let max = max_velocity.0;
    let ls = velocity.0.length_squared();
    proof {
        assert(0 <= (max as int) * (max as int) <= 0x1_0000_0000_0000_0000_0000) by (nonlinear_arith)
            requires
                0 <= max <= PARAM_LIMIT,
                PARAM_LIMIT == 0x100_0000_0000,
        ;
    }
    let max_sq: u128 = ((max as i128) * (max as i128)) as u128;
    if ls > max_sq {
        let d = isqrt(ls);
        proof {
            let vx = velocity.0.x as int;
            let vy = velocity.0.y as int;
            let lsq = velocity.0.len_sq();
            let ax = iabs(vx);
            let ay = iabs(vy);
            assert(ax * ax <= lsq && ay * ay <= lsq && lsq >= 0) by (nonlinear_arith)
                requires
                    lsq == vx * vx + vy * vy,
                    ax == vx || ax == -vx,
                    ay == vy || ay == -vy,
            ;
            lemma_sqrt_floor_bounds(lsq as nat);
            let di = sqrt_floor(lsq as nat) as int;
            lemma_sqrt_floor_ge(lsq as nat, ax);
            lemma_sqrt_floor_ge(lsq as nat, ay);
            assert((max as int) * (max as int) >= 0) by (nonlinear_arith);
            lemma_sqrt_floor_ge(lsq as nat, max as int);
            assert(di >= 1);
            lemma_scaled_bound(vx, max as int, di, ax, max as int);
            lemma_scaled_bound(vy, max as int, di, ay, max as int);
            assert(ax * max <= di * max && ax * max <= ax * di
                && ay * max <= di * max && ay * max <= ay * di) by (nonlinear_arith)
                requires
                    0 <= ax <= di,
                    0 <= ay <= di,
                    0 <= max <= di,
            ;
            vstd::arithmetic::div_mod::lemma_div_is_ordered(ax * max, di * max, di);
            vstd::arithmetic::div_mod::lemma_div_is_ordered(ax * max, ax * di, di);
            vstd::arithmetic::div_mod::lemma_div_is_ordered(ay * max, di * max, di);
            vstd::arithmetic::div_mod::lemma_div_is_ordered(ay * max, ay * di, di);
            vstd::arithmetic::div_mod::lemma_div_multiples_vanish(max as int, di);
            vstd::arithmetic::div_mod::lemma_div_multiples_vanish(ax, di);
            vstd::arithmetic::div_mod::lemma_div_multiples_vanish(ay, di);
        }
        velocity.0 = velocity.0.mul_div_v(max, d);
    }
}

/// The position after one tick of motion: `p + v * dt`.
pub open spec fn spec_update_position(p: Vec2, v: Vec2, dt_ms: int) -> Vec2 {
    Vec2 {
        x: (p.x + div_trunc(v.x * dt_ms, MILLI as int)) as i64,
        y: (p.y + div_trunc(v.y * dt_ms, MILLI as int)) as i64,
    }
}

/// Integrates the velocity into the position.
pub fn update_position(position: &mut Vec2, velocity: &Velocity, dt_ms: u64)
    requires
        dt_ms <= DT_LIMIT_MS,
        in_bounds(*old(position), POS_LIMIT as int),
        in_bounds(velocity.0, VEL_STEP_LIMIT as int),
    ensures
        *final(position) == spec_update_position(*old(position), velocity.0, dt_ms as int),
{
    proof {
        lemma_scaled_bound(velocity.0.x as int, dt_ms as int, MILLI as int, VEL_STEP_LIMIT as int, DT_LIMIT_MS as int);
        lemma_scaled_bound(velocity.0.y as int, dt_ms as int, MILLI as int, VEL_STEP_LIMIT as int, DT_LIMIT_MS as int);
    }
    let dx = mul_div(velocity.0.x, dt_ms as i64, 1000);
    let dy = mul_div(velocity.0.y, dt_ms as i64, 1000);
    position.x = position.x + dx;
    position.y = position.y + dy;
}

/// Re-derives the facing from the velocity: a moving organism faces along its
/// velocity; a still one keeps its prior facing.
pub fn update_rotation(heading: &mut Vec2, velocity: &Velocity)
    ensures
        *final(heading) == if velocity.0.len_sq() > 0 {
            velocity.0
        } else {
            *old(heading)
        },
{
    let ls = velocity.0.length_squared();
    if ls > 0 {
        *heading = velocity.0;
    }
}

} // verus!
