//! The internal resource of an organism: linear drift per tick, clamped into
//! `[0, max]`.

use vstd::prelude::*;
use crate::math::{clamp, div_trunc, iabs, lemma_scaled_bound};
use crate::{DT_LIMIT_MS, MILLI, PARAM_LIMIT};

verus! {

/// An organism's resource level, in milli-units, with its capacity.
#[derive(Clone, Copy, PartialEq, Eq, Structural, Debug)]
pub struct Saturation {
    pub max: i64,
    pub current: i64,
}

impl Saturation {
    /// The resource invariant: the level lies in `[0, max]`.
    pub open spec fn wf(self) -> bool {
        0 <= self.current <= self.max
    }
}

/// The drift applied to the resource, in milli-units per second; may be
/// negative.
#[derive(Clone, Copy, PartialEq, Eq, Structural, Debug)]
pub struct SaturationChange(pub i64);

/// The resource level after one tick of drift: `current + change * dt`,
/// clamped into `[0, max]`.
pub open spec fn spec_update_saturation(s: Saturation, change: int, dt_ms: int) -> Saturation {
    Saturation {
        max: s.max,
        current: clamp(s.current + div_trunc(change * dt_ms, MILLI as int), 0, s.max as int) as i64,
    }
}

/// Drifts the resource level by `change * dt` and clamps it into `[0, max]`.
/// The bounds `0 <= current <= max` hold before and after, whatever the drift
/// rate and time step.
pub fn update_saturation(saturation: &mut Saturation, change: &SaturationChange, dt_ms: u64)
    requires
        old(saturation).wf(),
        iabs(change.0 as int) <= PARAM_LIMIT,
        dt_ms <= DT_LIMIT_MS,
    ensures
        *final(saturation) == spec_update_saturation(*old(saturation), change.0 as int, dt_ms as int),
        final(saturation).wf(),
        final(saturation).max == old(saturation).max,
{
    proof {
        lemma_scaled_bound(change.0 as int, dt_ms as int, MILLI as int, PARAM_LIMIT as int, DT_LIMIT_MS as int);
    }
    let delta = crate::math::mul_div(change.0, dt_ms as i64, 1000);
    let drifted = crate::math::sat_add(saturation.current, delta);
    if drifted < 0 {
        saturation.current = 0;
    } else if drifted > saturation.max {
        saturation.current = saturation.max;
    } else {
        saturation.current = drifted;
    }
}

} // verus!
