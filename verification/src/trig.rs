//! Fixed-point sine and cosine at milliradian resolution, used to turn a
//! drawn direction angle into a unit-scale vector. The half-wave is
//! Bhaskara's rational approximation of sine, evaluated exactly in integers.

use vstd::prelude::*;

verus! {

/// Half a turn, in milliradians.
pub const PI_MRAD: u32 = 3142;

/// A full turn, in milliradians: the circle of directions.
pub const TAU_MRAD: u32 = 6284;

/// A quarter turn, in milliradians.
pub const QUARTER_MRAD: u32 = 1571;

/// Bhaskara's approximation on the half-wave `[0, PI_MRAD]`, scaled to
/// milli-units: `16 x (pi - x) / (5 pi^2 - 4 x (pi - x))`, with `pi` as
/// `PI_MRAD` and the constant `49360820` being `5 * PI_MRAD * PI_MRAD`.
pub open spec fn spec_half_sin(x: int) -> int
    recommends
        0 <= x <= PI_MRAD,
{
    (16000 * x * (3142 - x)) / (49360820 - 4 * x * (3142 - x))
}

/// Sine in milli-units of an angle in milliradians in `[0, TAU_MRAD)`: the
/// half-wave, negated on the second half of the turn.
pub open spec fn spec_sin_milli(x: int) -> int
    recommends
        0 <= x < TAU_MRAD,
{
    if x < PI_MRAD {
        spec_half_sin(x)
    } else {
        -spec_half_sin(x - PI_MRAD)
    }
}

/// Cosine in milli-units: sine shifted by a quarter turn.
pub open spec fn spec_cos_milli(x: int) -> int
    recommends
        0 <= x < TAU_MRAD,
{
    spec_sin_milli((x + QUARTER_MRAD) % (TAU_MRAD as int))
}

/// The half-wave, evaluated exactly; it stays within `[0, 1000]`.
fn half_sin(x: u32) -> (r: i64)
    requires
        x <= PI_MRAD,
    ensures
        r == spec_half_sin(x as int),
        0 <= r <= 1000,
{
    proof {
        assert(0 <= (x as int) * (3142 - x as int) <= 1571 * 1571) by (nonlinear_arith)
            requires
                0 <= x <= 3142,
        ;
    }
    let n: u64 = (x as u64) * ((PI_MRAD - x) as u64);
    let num: u64 = 16000 * n;
    let den: u64 = 49360820 - 4 * n;
    let q: u64 = num / den;
    proof {
        assert(16000 * (n as int) == 16000 * (x as int) * (3142 - x as int)
            && 4 * (n as int) == 4 * (x as int) * (3142 - x as int)) by (nonlinear_arith)
            requires
                n == (x as int) * (3142 - x as int),
        ;
        vstd::arithmetic::div_mod::lemma_div_is_ordered(num as int, 1000 * (den as int), den as int);
        vstd::arithmetic::div_mod::lemma_div_multiples_vanish(1000, den as int);
    }
    q as i64
}

/// Sine in milli-units of a direction angle in milliradians.
pub fn sin_milli(x: u32) -> (r: i64)
    requires
        x < TAU_MRAD,
    ensures
        r == spec_sin_milli(x as int),
        -1000 <= r <= 1000,
{
    if x < PI_MRAD {
        half_sin(x)
    } else {
        -half_sin(x - PI_MRAD)
    }
}

/// Cosine in milli-units of a direction angle in milliradians.
pub fn cos_milli(x: u32) -> (r: i64)
    requires
        x < TAU_MRAD,
    ensures
        r == spec_cos_milli(x as int),
        -1000 <= r <= 1000,
{
    let shifted: u32 = (x + QUARTER_MRAD) % TAU_MRAD;
    sin_milli(shifted)
}

} // verus!
