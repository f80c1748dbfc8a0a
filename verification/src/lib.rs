//! A verified simulation kernel for a 2D particle-life ecology: circular
//! organisms drift under pairwise attraction/repulsion forces on a toroidal
//! arena, consume and regenerate an internal resource ("saturation"), age,
//! split when crowded-but-well-fed, and die of starvation or old age.
//!
//! All quantities are fixed-point integers in milli-units (one world unit is
//! `MILLI` = 1000), so every stage has an exact arithmetic contract. The host
//! converts to whatever representation it renders with.

use vstd::prelude::*;

pub mod math;
pub mod vec2;
pub mod wrapping;
pub mod saturation;
pub mod age;
pub mod movement;
pub mod trig;
pub mod rng;
pub mod interaction_forces;
pub mod food;
pub mod mortality;
pub mod world;

verus! {

/// One world unit, in kernel fixed-point ticks.
pub const MILLI: i64 = 1000;

/// Largest magnitude allowed for a wrap-rectangle coordinate or extent.
pub const RECT_LIMIT: i64 = 0x100_0000_0000;

/// Largest position magnitude the kernel keeps an organism at.
pub const POS_LIMIT: i64 = 0x4_0000_0000_0000;

/// Largest velocity magnitude (per axis) a well-formed organism carries.
pub const VEL_LIMIT: i64 = 0x100_0000_0000;

/// Largest acceleration magnitude (per axis) a well-formed organism carries.
pub const ACC_LIMIT: i64 = 0x100_0000_0000;

/// Longest time step, in milliseconds, a tick accepts (ten minutes).
pub const DT_LIMIT_MS: u64 = 600_000;

/// Largest magnitude allowed for a configured force or lifecycle parameter.
pub const PARAM_LIMIT: i64 = 0x100_0000_0000;

/// Largest velocity magnitude (per axis) right after integrating one tick of
/// acceleration into a well-formed velocity.
pub const VEL_STEP_LIMIT: i64 = VEL_LIMIT + ACC_LIMIT * 600;

/// Largest position magnitude (per axis) right after integrating one tick of
/// motion from a well-formed organism.
pub const POS_STEP_LIMIT: i64 = POS_LIMIT + VEL_STEP_LIMIT * 600;

/// Largest coordinate magnitude on which the wrapping arithmetic is exact.
pub const COORD_LIMIT: i64 = 0x1000_0000_0000_0000;

} // verus!
