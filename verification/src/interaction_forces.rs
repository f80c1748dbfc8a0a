//! Pairwise attraction/repulsion: a rule table keyed by interaction-group
//! pair, and the force one organism receives from another.

use vstd::prelude::*;
use crate::food::Organism;
use crate::math::{div_trunc, sat_i64, sqrt_floor, iabs, lemma_sqrt_floor_ge, mul_div, isqrt};
use crate::movement::{in_bounds, Acceleration};
use crate::vec2::Vec2;
use crate::wrapping::{spec_wrapping_delta, wrapping_delta, WrappingRect};
use crate::{COORD_LIMIT, PARAM_LIMIT, POS_STEP_LIMIT};

verus! {

/// One force rule: repulsion inside `min_distance`, attraction out to
/// `max_distance`, nothing beyond.
#[derive(Clone, Copy, PartialEq, Eq, Structural, Debug)]
pub struct ForceParams {
    pub attract_strength: i64,
    pub repulse_strength: i64,
    pub min_distance: i64,
    pub max_distance: i64,
}

impl ForceParams {
    /// All magnitudes non-negative and bounded, with the repulsion band
    /// strictly inside the attraction band.
    pub open spec fn wf(self) -> bool {
        &&& 0 <= self.attract_strength <= PARAM_LIMIT
        &&& 0 <= self.repulse_strength <= PARAM_LIMIT
        &&& 0 <= self.min_distance
        &&& self.min_distance < self.max_distance <= PARAM_LIMIT
    }
}

impl ForceParams {
    /// Decides the rule invariant at runtime.
    pub fn check_wf(&self) -> (r: bool)
        ensures
            r == self.wf(),
    {
        0 <= self.attract_strength && self.attract_strength <= PARAM_LIMIT
            && 0 <= self.repulse_strength && self.repulse_strength <= PARAM_LIMIT
            && 0 <= self.min_distance && self.min_distance < self.max_distance
            && self.max_distance <= PARAM_LIMIT
    }
}

/// The tag selecting which force rule applies against another organism.
#[derive(Clone, Copy, PartialEq, Eq, Structural, Debug)]
pub struct InteractionGroup(pub u8);

/// The first rule for the key, scanning front to back; newer insertions
/// shadow older ones.
pub open spec fn spec_lookup(rules: Seq<((u8, u8), ForceParams)>, key: (u8, u8)) -> Option<
    ForceParams,
>
    decreases rules.len(),
{
    if rules.len() == 0 {
        None
    } else if rules[0].0 == key {
        Some(rules[0].1)
    } else {
        spec_lookup(rules.drop_first(), key)
    }
}

/// The immutable rule table mapping a pair of interaction groups to the force
/// rule between them; pairs with no entry do not interact.
pub struct InteractionRules(pub Vec<((u8, u8), ForceParams)>);

impl InteractionRules {
    /// Every stored rule is well-formed.
    pub open spec fn wf(self) -> bool {
        forall|i: int| 0 <= i < self.0@.len() ==> (#[trigger] self.0@[i]).1.wf()
    }

    /// An empty table: nothing interacts.
    pub fn new() -> (r: InteractionRules)
        ensures
            r.wf(),
            forall|k: (u8, u8)| spec_lookup(r.0@, k) is None,
    {
        InteractionRules(Vec::new())
    }

    /// Adds the rule for a group pair, shadowing any earlier rule for it.
    pub fn insert(&mut self, group_a: u8, group_b: u8, params: ForceParams)
        requires
            params.wf(),
            old(self).wf(),
        ensures
            final(self).wf(),
            spec_lookup(final(self).0@, (group_a, group_b)) == Some(params),
            forall|k: (u8, u8)|
                k != (group_a, group_b) ==> spec_lookup(final(self).0@, k) == spec_lookup(
                    old(self).0@,
                    k,
                ),
    {
        self.0.insert(0, ((group_a, group_b), params));
        proof {
            assert(self.0@.drop_first() =~= old(self).0@);
        }
    }

    /// Decides the table invariant at runtime.
    pub fn check_wf(&self) -> (r: bool)
        ensures
            r == self.wf(),
    {
        let mut i: usize = 0;
        while i < self.0.len()
            invariant
                0 <= i <= self.0@.len(),
                forall|k: int| 0 <= k < i ==> (#[trigger] self.0@[k]).1.wf(),
            decreases self.0@.len() - i,
        {
            let (_, params) = self.0[i];
            if !params.check_wf() {
                proof {
                    assert(!self.0@[i as int].1.wf());
                }
                return false;
            }
            i = i + 1;
        }
        true
    }

    /// Looks the rule up for an ordered pair of groups.
    pub fn get(&self, group_a: u8, group_b: u8) -> (r: Option<ForceParams>)
        ensures
            r == spec_lookup(self.0@, (group_a, group_b)),
            r is Some && self.wf() ==> r.unwrap().wf(),
    {
        let mut i: usize = 0;
        let ghost key = (group_a, group_b);
        proof {
            assert(self.0@.skip(0) =~= self.0@);
        }
        while i < self.0.len()
            invariant
                0 <= i <= self.0@.len(),
                spec_lookup(self.0@, key) == spec_lookup(self.0@.skip(i as int), key),
                key == (group_a, group_b),
            decreases self.0@.len() - i,
        {
            let (pair, params) = self.0[i];
            if pair.0 == group_a && pair.1 == group_b {
                proof {
                    assert(self.0@.skip(i as int)[0] == self.0@[i as int]);
                    if self.wf() {
                        assert(self.0@[i as int].1.wf());
                    }
                }
                return Some(params);
            }
            proof {
                assert(self.0@.skip(i as int).drop_first() =~= self.0@.skip(i as int + 1));
            }
            i = i + 1;
        }
        proof {
            assert(self.0@.skip(i as int) =~= Seq::<((u8, u8), ForceParams)>::empty());
        }
        None
    }
}

/// The force a rule exerts across a displacement `delta` from the receiver to
/// the other organism. Coincident organisms exert nothing; inside the
/// repulsion band the magnitude is `repulse * d / min_distance` away from the
/// other; inside the attraction band it is `attract` toward it; beyond,
/// nothing. Directions are normalized by the floored length, so the repulsion
/// reduces to `-delta * repulse / min_distance` exactly.
pub open spec fn spec_interaction_force(delta: Vec2, p: ForceParams) -> Vec2 {
    let d2 = delta.len_sq();
    if d2 == 0 {
        Vec2 { x: 0, y: 0 }
    } else if d2 < p.min_distance * p.min_distance {
        Vec2 {
            x: sat_i64(div_trunc(delta.x * -p.repulse_strength, p.min_distance as int)) as i64,
            y: sat_i64(div_trunc(delta.y * -p.repulse_strength, p.min_distance as int)) as i64,
        }
    } else if d2 < p.max_distance * p.max_distance {
        let d = sqrt_floor(d2 as nat) as int;
        Vec2 {
            x: sat_i64(div_trunc(delta.x * p.attract_strength, d)) as i64,
            y: sat_i64(div_trunc(delta.y * p.attract_strength, d)) as i64,
        }
    } else {
        Vec2 { x: 0, y: 0 }
    }
}

/// Evaluates one force rule across a displacement.
pub fn interaction_force(delta: Vec2, params: &ForceParams) -> (f: Vec2)
    requires
        params.wf(),
    ensures
        f == spec_interaction_force(delta, *params),
{
    let d2 = delta.length_squared();
    if d2 == 0 {
        Vec2::zero()
    } else {
        proof {
            assert(0 <= (params.min_distance as int) * (params.min_distance as int)
                && (params.min_distance as int) * (params.min_distance as int)
                    <= 0x1_0000_0000_0000_0000_0000
                && 0 <= (params.max_distance as int) * (params.max_distance as int)
                && (params.max_distance as int) * (params.max_distance as int)
                    <= 0x1_0000_0000_0000_0000_0000) by (nonlinear_arith)
                requires
                    0 <= params.min_distance <= PARAM_LIMIT,
                    0 <= params.max_distance <= PARAM_LIMIT,
                    PARAM_LIMIT == 0x100_0000_0000,
            ;
        }
        let min_sq: u128 = ((params.min_distance as i128) * (params.min_distance as i128)) as u128;
        let max_sq: u128 = ((params.max_distance as i128) * (params.max_distance as i128)) as u128;
        if d2 < min_sq {
            proof {
                assert(params.min_distance == 0
                    ==> (params.min_distance as int) * (params.min_distance as int) == 0)
                    by (nonlinear_arith);
            }
            Vec2 {
                x: mul_div(delta.x, -params.repulse_strength, params.min_distance as u64),
                y: mul_div(delta.y, -params.repulse_strength, params.min_distance as u64),
            }
        } else if d2 < max_sq {
            let d = isqrt(d2);
            proof {
                lemma_sqrt_floor_ge(d2 as nat, 1);
            }
            Vec2 {
                x: mul_div(delta.x, params.attract_strength, d),
                y: mul_div(delta.y, params.attract_strength, d),
            }
        } else {
            Vec2::zero()
        }
    }
}

/// The displacement used by force evaluation and neighbour counting: the
/// toroidal minimal displacement when a wrap rectangle is configured, the
/// plain Euclidean difference when none is.
pub open spec fn spec_pair_delta(a: Vec2, b: Vec2, rect: Option<WrappingRect>) -> Vec2 {
    match rect {
        Some(r) => spec_wrapping_delta(a, b, r),
        None => Vec2 { x: (b.x - a.x) as i64, y: (b.y - a.y) as i64 },
    }
}

/// Computes the displacement from `a` to `b` under the configured metric.
pub fn pair_delta(a: Vec2, b: Vec2, rect: Option<&WrappingRect>) -> (r: Vec2)
    requires
        match rect {
            Some(rr) => {
                &&& rr.wf()
                &&& iabs(a.x as int) <= COORD_LIMIT && iabs(a.y as int) <= COORD_LIMIT
                &&& iabs(b.x as int) <= COORD_LIMIT && iabs(b.y as int) <= COORD_LIMIT
            },
            None => {
                &&& iabs(a.x as int) <= POS_STEP_LIMIT && iabs(a.y as int) <= POS_STEP_LIMIT
                &&& iabs(b.x as int) <= POS_STEP_LIMIT && iabs(b.y as int) <= POS_STEP_LIMIT
            },
        },
    ensures
        r == spec_pair_delta(a, b, match rect {
            Some(rr) => Some(*rr),
            None => None,
        }),
{
    match rect {
        Some(rr) => wrapping_delta(a, b, rr),
        None => Vec2 { x: b.x - a.x, y: b.y - a.y },
    }
}

/// The force organism `a` receives from organism `b`: the rule for their
/// group pair evaluated across their displacement, or nothing when no rule
/// exists for the pair.
pub open spec fn spec_pair_force(
    a: Organism,
    b: Organism,
    rules: Seq<((u8, u8), ForceParams)>,
    rect: Option<WrappingRect>,
) -> Vec2 {
    match spec_lookup(rules, (a.interaction_group.0, b.interaction_group.0)) {
        None => Vec2 { x: 0, y: 0 },
        Some(p) => spec_interaction_force(spec_pair_delta(a.position, b.position, rect), p),
    }
}

/// The acceleration of organism `i` after the forces from the first `k`
/// organisms are folded in, in index order, saturating.
pub open spec fn spec_accum_forces(
    orgs: Seq<Organism>,
    i: int,
    rules: Seq<((u8, u8), ForceParams)>,
    rect: Option<WrappingRect>,
    k: int,
    base: Vec2,
) -> Vec2
    decreases k,
{
    if k <= 0 {
        base
    } else {
        let prev = spec_accum_forces(orgs, i, rules, rect, k - 1, base);
        if k - 1 == i {
            prev
        } else {
            let f = spec_pair_force(orgs[i], orgs[k - 1], rules, rect);
            Vec2 { x: sat_i64(prev.x + f.x) as i64, y: sat_i64(prev.y + f.y) as i64 }
        }
    }
}

/// Recomputes, for every ordered pair of distinct organisms, the force the
/// first receives from the second, and folds it into the first's
/// acceleration; the pair is visited again with roles swapped, so the net
/// effect over the pass is symmetric.
pub fn apply_interaction_forces(
    organisms: &mut Vec<Organism>,
    rules: &InteractionRules,
    rect: Option<&WrappingRect>,
)
    requires
        rules.wf(),
        match rect {
            Some(r) => r.wf() && forall|k: int|
                0 <= k < old(organisms)@.len() ==> in_bounds(
                    (#[trigger] old(organisms)@[k]).position,
                    COORD_LIMIT as int,
                ),
            None => forall|k: int|
                0 <= k < old(organisms)@.len() ==> in_bounds(
                    (#[trigger] old(organisms)@[k]).position,
                    POS_STEP_LIMIT as int,
                ),
        },
    ensures
        final(organisms)@.len() == old(organisms)@.len(),
        forall|k: int|
            0 <= k < old(organisms)@.len() ==> final(organisms)@[k] == (Organism {
                acceleration: Acceleration(
                    spec_accum_forces(old(organisms)@, k, rules.0@, match rect {
                        Some(r) => Some(*r),
                        None => None,
                    }, old(organisms)@.len() as int, old(organisms)@[k].acceleration.0),
                ),
                ..old(organisms)@[k]
            }),
{
    let ghost grect: Option<WrappingRect> = match rect {
        Some(r) => Some(*r),
        None => None,
    };
    let ghost orig = organisms@;
    let n = organisms.len();
    let mut i: usize = 0;
    while i < n
        invariant
            n == orig.len(),
            organisms@.len() == n,
            0 <= i <= n,
            rules.wf(),
            forall|k: int|
                0 <= k < i ==> organisms@[k] == (Organism {
                    acceleration: Acceleration(
                        spec_accum_forces(
                            orig,
                            k,
                            rules.0@,
                            grect,
                            n as int,
                            orig[k].acceleration.0,
                        ),
                    ),
                    ..orig[k]
                }),
            forall|k: int| i <= k < n ==> organisms@[k] == orig[k],
            match rect {
                Some(r) => r.wf() && forall|k: int|
                    0 <= k < n ==> in_bounds((#[trigger] orig[k]).position, COORD_LIMIT as int),
                None => forall|k: int|
                    0 <= k < n ==> in_bounds((#[trigger] orig[k]).position, POS_STEP_LIMIT as int),
            },
            grect == match rect {
                Some(r) => Some(*r),
                None => None,
            },
        decreases n - i,
    {
        let me = organisms[i];
        proof {
            assert(me == orig[i as int]);
        }
        let mut acc = me.acceleration.0;
        let mut j: usize = 0;
        while j < n
            invariant
                n == orig.len(),
                organisms@.len() == n,
                0 <= i < n,
                0 <= j <= n,
                rules.wf(),
                me == orig[i as int],
                acc == spec_accum_forces(orig, i as int, rules.0@, grect, j as int, orig[i as int].acceleration.0),
                forall|k: int|
                    0 <= k < i ==> organisms@[k] == (Organism {
                        acceleration: Acceleration(
                            spec_accum_forces(
                                orig,
                                k,
                                rules.0@,
                                grect,
                                n as int,
                                orig[k].acceleration.0,
                            ),
                        ),
                        ..orig[k]
                    }),
                forall|k: int| i <= k < n ==> organisms@[k] == orig[k],
                forall|k: int|
                    0 <= k < n ==> (#[trigger] organisms@[k]).position == orig[k].position
                        && organisms@[k].interaction_group == orig[k].interaction_group,
                match rect {
                    Some(r) => r.wf() && forall|k: int|
                        0 <= k < n ==> in_bounds((#[trigger] orig[k]).position, COORD_LIMIT as int),
                    None => forall|k: int|
                        0 <= k < n ==> in_bounds(
                            (#[trigger] orig[k]).position,
                            POS_STEP_LIMIT as int,
                        ),
                },
                grect == match rect {
                    Some(r) => Some(*r),
                    None => None,
                },
            decreases n - j,
        {
            if j != i {
                let other = organisms[j];
                proof {
                    assert(other.position == orig[j as int].position);
                    assert(other.interaction_group == orig[j as int].interaction_group);
                }
                match rules.get(me.interaction_group.0, other.interaction_group.0) {
                    Some(params) => {
                        let delta = pair_delta(me.position, other.position, rect);
                        let f = interaction_force(delta, &params);
                        acc = acc.sat_add_v(f);
                    },
                    None => {},
                }
            }
            j = j + 1;
        }
        organisms[i].acceleration = Acceleration(acc);
        i = i + 1;
    }
}

} // verus!
