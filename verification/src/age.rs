//! Linear age accrual per tick, clamped to a configured maximum when one is
//! present.

use vstd::prelude::*;
use crate::math::{div_trunc, iabs, lemma_scaled_bound};
use crate::{DT_LIMIT_MS, MILLI, PARAM_LIMIT, POS_LIMIT};

verus! {

/// An organism's age, in milli-units, and its accrual rate per second.
#[derive(Clone, Copy, PartialEq, Eq, Structural, Debug)]
pub struct Age {
    pub current: i64,
    pub change: i64,
}

/// The configured age cap; `Age::current` is clamped to it each tick.
#[derive(Clone, Copy, PartialEq, Eq, Structural, Debug)]
pub struct MaxAge(pub i64);

/// The age after one tick of accrual: `current + change * dt`, clamped to the
/// cap when one is configured.
pub open spec fn spec_update_age(age: Age, max_age: Option<MaxAge>, dt_ms: int) -> Age {
    let accrued = age.current + div_trunc(age.change * dt_ms, MILLI as int);
    let capped = match max_age {
        Some(cap) => if accrued > cap.0 { cap.0 as int } else { accrued },
        None => accrued,
    };
    Age { current: capped as i64, change: age.change }
}

/// Accrues age by `change * dt`; where a cap is configured, the age never
/// overshoots it.
pub fn update_age(age: &mut Age, max_age: Option<&MaxAge>, dt_ms: u64)
    requires
        iabs(old(age).current as int) <= POS_LIMIT,
        iabs(old(age).change as int) <= PARAM_LIMIT,
        dt_ms <= DT_LIMIT_MS,
    ensures
        *final(age) == spec_update_age(*old(age), match max_age {
            Some(cap) => Some(*cap),
            None => None,
        }, dt_ms as int),
        match max_age {
            Some(cap) => final(age).current <= cap.0,
            None => true,
        },
{
    proof {
        lemma_scaled_bound(age.change as int, dt_ms as int, MILLI as int, PARAM_LIMIT as int, DT_LIMIT_MS as int);
    }
    let delta = crate::math::mul_div(age.change, dt_ms as i64, 1000);
    let accrued = age.current + delta;
    age.current = match max_age {
        Some(cap) => if accrued > cap.0 { cap.0 } else { accrued },
        None => accrued,
    };
}

} // verus!
