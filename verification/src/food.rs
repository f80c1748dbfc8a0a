//! The organisms themselves: the per-entity record every stage acts on,
//! spawning, neighbour counting, and the stochastic split that reproduces a
//! well-fed, sparsely surrounded organism.

use vstd::prelude::*;
use crate::age::{Age, MaxAge};
use crate::interaction_forces::{spec_pair_delta, pair_delta, InteractionGroup};
use crate::math::{div_trunc, iabs, mul_div, sat_i64};
use crate::movement::{in_bounds, Acceleration, MaxVelocity, Velocity, VelocityDamping};
use crate::rng::GameRng;
use crate::saturation::{Saturation, SaturationChange};
use crate::trig::{cos_milli, sin_milli, spec_cos_milli, spec_sin_milli, TAU_MRAD};
use crate::vec2::Vec2;
use crate::wrapping::WrappingRect;
use crate::{COORD_LIMIT, MILLI, PARAM_LIMIT, POS_LIMIT, POS_STEP_LIMIT};

verus! {

/// One million: the denominator of per-tick split probabilities.
pub const PPM: u32 = 1_000_000;

/// Reproduction parameters: an organism may split only when its neighbourhood
/// is sparse enough and its resource high enough.
#[derive(Clone, Copy, PartialEq, Eq, Structural, Debug)]
pub struct Food {
    pub max_neighbours_for_split: i32,
    pub min_split_saturation: i64,
    /// The probability of a split per tick, in parts per million.
    pub split_chance: u32,
}

impl Food {
    pub open spec fn wf(self) -> bool {
        &&& iabs(self.min_split_saturation as int) <= PARAM_LIMIT
        &&& self.split_chance <= PPM
    }
}

/// The local crowd around an organism: a radius and the count of other
/// organisms inside it, recomputed from scratch every tick.
#[derive(Clone, Copy, PartialEq, Eq, Structural, Debug)]
pub struct Neighbourhood {
    pub radius: i64,
    pub count: i32,
}

impl Neighbourhood {
    pub fn new(radius: i64) -> (r: Neighbourhood)
        ensures
            r == (Neighbourhood { radius, count: 0 }),
    {
        Neighbourhood { radius, count: 0 }
    }
}

/// One organism: a struct of the fields the stages act on, optional where the
/// original capability is optional.
#[derive(Clone, Copy, PartialEq, Eq, Debug)]
pub struct Organism {
    pub food: Food,
    pub saturation: Saturation,
    pub saturation_change: SaturationChange,
    pub neighbourhood: Neighbourhood,
    pub position: Vec2,
    /// The facing: the last non-zero velocity; rendering derives an angle.
    pub heading: Vec2,
    /// The visual radius, tracking the resource level.
    pub radius: i64,
    pub velocity: Velocity,
    pub acceleration: Acceleration,
    pub velocity_damping: Option<VelocityDamping>,
    pub max_velocity: Option<MaxVelocity>,
    pub interaction_group: InteractionGroup,
    pub age: Option<Age>,
    pub max_age: Option<MaxAge>,
    pub can_die: bool,
    pub died: bool,
    pub starved: bool,
    pub old_age: bool,
}

impl Organism {
    /// The resource-and-parameter part of the invariant; every stage keeps
    /// it, even mid-tick when positions and velocities run wide.
    pub open spec fn params_wf(self) -> bool {
        &&& self.saturation.wf()
        &&& self.saturation.max <= PARAM_LIMIT
        &&& iabs(self.saturation_change.0 as int) <= PARAM_LIMIT
        &&& self.food.wf()
        &&& 0 <= self.neighbourhood.radius <= PARAM_LIMIT
        &&& self.neighbourhood.count >= 0
        &&& match self.velocity_damping {
            Some(d) => 0 <= d.0 <= PARAM_LIMIT,
            None => true,
        }
        &&& match self.max_velocity {
            Some(m) => 0 <= m.0 <= PARAM_LIMIT,
            None => true,
        }
        &&& match self.age {
            Some(a) => iabs(a.change as int) <= PARAM_LIMIT,
            None => true,
        }
    }

    /// The per-organism invariant the kernel keeps at tick boundaries: the
    /// parameters, plus the kinematic state and the age within their headroom.
    pub open spec fn wf(self) -> bool {
        &&& self.params_wf()
        &&& in_bounds(self.position, POS_LIMIT as int)
        &&& in_bounds(self.velocity.0, crate::VEL_LIMIT as int)
        &&& in_bounds(self.acceleration.0, crate::ACC_LIMIT as int)
        &&& match self.age {
            Some(a) => iabs(a.current as int) <= POS_LIMIT,
            None => true,
        }
    }
}

impl Organism {
    /// Decides the resource-and-parameter invariant at runtime.
    pub fn check_params_wf(&self) -> (r: bool)
        ensures
            r == self.params_wf(),
    {
        let sat_ok = 0 <= self.saturation.current && self.saturation.current
            <= self.saturation.max && self.saturation.max <= PARAM_LIMIT;
        let change_ok = -PARAM_LIMIT <= self.saturation_change.0 && self.saturation_change.0
            <= PARAM_LIMIT;
        let food_ok = -PARAM_LIMIT <= self.food.min_split_saturation
            && self.food.min_split_saturation <= PARAM_LIMIT && self.food.split_chance <= PPM;
        let hood_ok = 0 <= self.neighbourhood.radius && self.neighbourhood.radius <= PARAM_LIMIT
            && self.neighbourhood.count >= 0;
        let damping_ok = match self.velocity_damping {
            Some(d) => 0 <= d.0 && d.0 <= PARAM_LIMIT,
            None => true,
        };
        let max_velocity_ok = match self.max_velocity {
            Some(m) => 0 <= m.0 && m.0 <= PARAM_LIMIT,
            None => true,
        };
        let age_ok = match self.age {
            Some(a) => -PARAM_LIMIT <= a.change && a.change <= PARAM_LIMIT,
            None => true,
        };
        sat_ok && change_ok && food_ok && hood_ok && damping_ok && max_velocity_ok && age_ok
    }

    /// Decides the whole per-organism invariant at runtime.
    pub fn check_wf(&self) -> (r: bool)
        ensures
            r == self.wf(),
    {
        let pos_ok = -POS_LIMIT <= self.position.x && self.position.x <= POS_LIMIT && -POS_LIMIT
            <= self.position.y && self.position.y <= POS_LIMIT;
        let vel_ok = -crate::VEL_LIMIT <= self.velocity.0.x && self.velocity.0.x
            <= crate::VEL_LIMIT && -crate::VEL_LIMIT <= self.velocity.0.y && self.velocity.0.y
            <= crate::VEL_LIMIT;
        let acc_ok = -crate::ACC_LIMIT <= self.acceleration.0.x && self.acceleration.0.x
            <= crate::ACC_LIMIT && -crate::ACC_LIMIT <= self.acceleration.0.y
            && self.acceleration.0.y <= crate::ACC_LIMIT;
        let age_ok = match self.age {
            Some(a) => -POS_LIMIT <= a.current && a.current <= POS_LIMIT,
            None => true,
        };
        self.check_params_wf() && pos_ok && vel_ok && acc_ok && age_ok
    }
}

/// The widest position magnitude an organism can stand at mid-tick: one
/// integration step past the entry bound, plus one wrap translation.
pub open spec fn mid_tick_pos_limit() -> int {
    POS_STEP_LIMIT as int + crate::RECT_LIMIT as int
}

/// The shape of every freshly drawn spawn velocity: some drawn magnitude in
/// `[5, 80)` world units, scaled onto the direction of some drawn angle below
/// a full turn.
pub open spec fn is_drawn_velocity(v: Vec2) -> bool {
    exists|m: int, a: int|
        #![trigger div_trunc(spec_cos_milli(a) * m, MILLI as int)]
        {
            &&& 5000 <= m < 80000
            &&& 0 <= a < TAU_MRAD
            &&& v.x == sat_i64(div_trunc(spec_cos_milli(a) * m, MILLI as int))
            &&& v.y == sat_i64(div_trunc(spec_sin_milli(a) * m, MILLI as int))
        }
}

/// A fresh velocity for a spawned organism: direction uniform over the whole
/// circle at milliradian resolution, magnitude uniform in `[5, 80)` world
/// units.
pub fn random_initial_velocity(rng: &mut GameRng) -> (v: Vec2)
    ensures
        in_bounds(v, 80000),
        is_drawn_velocity(v),
{
    let magnitude = rng.range_u64(5000, 80000);
    let angle = rng.range_u64(0, TAU_MRAD as u64) as u32;
    let c = cos_milli(angle);
    let s = sin_milli(angle);
    proof {
        crate::math::lemma_scaled_bound(c as int, magnitude as int, MILLI as int, 1000, 79999);
        crate::math::lemma_scaled_bound(s as int, magnitude as int, MILLI as int, 1000, 79999);
    }
    let v = Vec2 { x: mul_div(c, magnitude as i64, 1000), y: mul_div(s, magnitude as i64, 1000) };
    proof {
        assert(v.x == sat_i64(div_trunc(spec_cos_milli(angle as int) * (magnitude as int), MILLI as int))
            && v.y == sat_i64(div_trunc(spec_sin_milli(angle as int) * (magnitude as int), MILLI as int)));
    }
    v
}

/// Builds a new organism at the given position with the given resource and
/// reproduction parameters, a randomized initial velocity, full damping and
/// the default interaction group.
pub fn spawn_food(
    position: Vec2,
    max_saturation: i64,
    saturation: i64,
    saturation_change: i64,
    max_neighbours_for_split: i32,
    min_split_saturation: i64,
    split_chance: u32,
    neighbourhood_radius: i64,
    rng: &mut GameRng,
) -> (o: Organism)
    requires
        0 <= saturation <= max_saturation <= PARAM_LIMIT,
        iabs(saturation_change as int) <= PARAM_LIMIT,
        iabs(min_split_saturation as int) <= PARAM_LIMIT,
        split_chance <= PPM,
        0 <= neighbourhood_radius <= PARAM_LIMIT,
        in_bounds(position, mid_tick_pos_limit()),
    ensures
        o.params_wf(),
        in_bounds(position, POS_LIMIT as int) ==> o.wf(),
        o.position == position,
        o.saturation == (Saturation { max: max_saturation, current: saturation }),
        o.saturation_change == SaturationChange(saturation_change),
        o.food == (Food { max_neighbours_for_split, min_split_saturation, split_chance }),
        o.neighbourhood == (Neighbourhood { radius: neighbourhood_radius, count: 0 }),
        o.radius == saturation,
        o.velocity_damping == Some(VelocityDamping(1000)),
        o.max_velocity is None,
        o.age is None,
        o.max_age is None,
        o.interaction_group == InteractionGroup(0u8),
        o.acceleration == Acceleration(Vec2 { x: 0, y: 0 }),
        in_bounds(o.velocity.0, 80000),
        is_drawn_velocity(o.velocity.0),
        o.heading == (Vec2 { x: MILLI, y: 0 }),
        !o.died && !o.starved && !o.old_age && !o.can_die,
{
    let velocity = Velocity(random_initial_velocity(rng));
    Organism {
        food: Food { max_neighbours_for_split, min_split_saturation, split_chance },
        saturation: Saturation { max: max_saturation, current: saturation },
        saturation_change: SaturationChange(saturation_change),
        neighbourhood: Neighbourhood::new(neighbourhood_radius),
        position,
        heading: Vec2 { x: MILLI, y: 0 },
        radius: saturation,
        velocity,
        acceleration: Acceleration(Vec2::zero()),
        velocity_damping: Some(VelocityDamping(1000)),
        max_velocity: None,
        interaction_group: InteractionGroup(0),
        age: None,
        max_age: None,
        can_die: false,
        died: false,
        starved: false,
        old_age: false,
    }
}

/// Whether a split may be attempted: sparse enough around, well-fed enough.
pub open spec fn eligible_for_split(o: Organism) -> bool {
    !(o.neighbourhood.count > o.food.max_neighbours_for_split
        || o.saturation.current < o.food.min_split_saturation)
}

/// The capacity a child is created with: the parent's, perturbed by a drawn
/// factor in `[0.9, 1.1)`.
pub open spec fn spec_child_capacity(max: int, factor: int) -> int {
    div_trunc(max * factor, MILLI as int)
}

/// The parent after a successful split: its resource is halved, the child
/// keeping the floored half and the parent the remainder, so together they
/// hold exactly the pre-split resource.
pub open spec fn spec_split_parent(o: Organism) -> Organism {
    Organism {
        saturation: Saturation {
            max: o.saturation.max,
            current: (o.saturation.current - o.saturation.current as int / 2) as i64,
        },
        ..o
    }
}

/// What a child created by a successful split looks like, relative to its
/// pre-split parent: position, reproduction parameters and neighbourhood
/// radius inherited, capacity scaled by some drawn factor, the floored half
/// of the parent's resource, the parent's pre-split level as its drift rate,
/// full damping, a freshly drawn velocity, the default group, and clear
/// lifecycle flags.
pub open spec fn is_split_child(c: Organism, parent: Organism) -> bool {
    &&& exists|f: int|
        900 <= f < 1100 && c.saturation.max == #[trigger] spec_child_capacity(
            parent.saturation.max as int,
            f,
        )
    &&& c.saturation.current == parent.saturation.current as int / 2
    &&& c.position == parent.position
    &&& c.food == parent.food
    &&& c.saturation_change == SaturationChange(parent.saturation.current)
    &&& c.neighbourhood == (Neighbourhood { radius: parent.neighbourhood.radius, count: 0 })
    &&& c.velocity_damping == Some(VelocityDamping(1000))
    &&& is_drawn_velocity(c.velocity.0)
    &&& c.max_velocity is None
    &&& c.age is None
    &&& c.max_age is None
    &&& c.interaction_group == InteractionGroup(0u8)
    &&& c.acceleration == Acceleration(Vec2 { x: 0, y: 0 })
    &&& c.heading == (Vec2 { x: MILLI, y: 0 })
    &&& c.radius == c.saturation.current
    &&& !c.died && !c.starved && !c.old_age && !c.can_die
}

/// Whether `c` is the split child of some eligible organism of `orgs`.
pub open spec fn split_child_of_some(c: Organism, orgs: Seq<Organism>) -> bool {
    exists|k: int|
        0 <= k < orgs.len() && eligible_for_split(#[trigger] orgs[k]) && is_split_child(c, orgs[k])
}

/// A capacity for which no drawn factor can abort a split: every factor in
/// `[0.9, 1.1)` lands the child's capacity between one world unit and the
/// fixed-point headroom.
pub open spec fn split_always_viable(max: int) -> bool {
    &&& 1112 <= max
    &&& 1100 * max <= 1000 * PARAM_LIMIT
}

/// In the always-viable window, every drawn factor yields a viable capacity.
pub proof fn lemma_split_always_viable(max: int, factor: int)
    requires
        split_always_viable(max),
        900 <= factor < 1100,
    ensures
        MILLI <= spec_child_capacity(max, factor) <= PARAM_LIMIT,
{
    assert(1_000_800 <= 900 * max && 900 * max <= max * factor && max * factor <= 1100 * max)
        by (nonlinear_arith)
        requires
            1112 <= max,
            900 <= factor < 1100,
    ;
    vstd::arithmetic::div_mod::lemma_div_is_ordered(1_000_800, max * factor, 1000);
    vstd::arithmetic::div_mod::lemma_div_is_ordered(max * factor, 1000 * PARAM_LIMIT as int, 1000);
    vstd::arithmetic::div_mod::lemma_div_multiples_vanish(PARAM_LIMIT as int, 1000);
}

/// The drawn capacity factor lands the child's capacity inside the integer
/// `[0.9, 1.1]` envelope of the parent's.
pub proof fn lemma_split_capacity_envelope(max: int, factor: int)
    requires
        0 <= max,
        900 <= factor < 1100,
    ensures
        900 * max / 1000 <= spec_child_capacity(max, factor) <= 1100 * max / 1000,
        0 <= spec_child_capacity(max, factor),
{
    assert(900 * max <= max * factor && max * factor <= 1100 * max && 0 <= max * factor)
        by (nonlinear_arith)
        requires
            0 <= max,
            900 <= factor < 1100,
    ;
    vstd::arithmetic::div_mod::lemma_div_is_ordered(900 * max, max * factor, 1000);
    vstd::arithmetic::div_mod::lemma_div_is_ordered(max * factor, 1100 * max, 1000);
    vstd::arithmetic::div_mod::lemma_div_pos_is_pos(max * factor, 1000);
}

/// Performs one split that has already passed the eligibility gate and the
/// Bernoulli draw: the child's capacity is the parent's scaled by the drawn
/// factor; a capacity below one world unit (or beyond the fixed-point
/// headroom) aborts the split and leaves the parent untouched. On success the
/// child takes the floored half of the parent's resource and the parent keeps
/// the remainder, so the split conserves it exactly.
pub fn attempt_split(parent: &mut Organism, factor_milli: u64, rng: &mut GameRng) -> (child: Option<
    Organism,
>)
    requires
        old(parent).params_wf(),
        in_bounds(old(parent).position, mid_tick_pos_limit()),
        eligible_for_split(*old(parent)),
        900 <= factor_milli < 1100,
    ensures
        match child {
            None => {
                &&& *final(parent) == *old(parent)
                &&& {
                    let cap = spec_child_capacity(
                        old(parent).saturation.max as int,
                        factor_milli as int,
                    );
                    cap < MILLI || cap > PARAM_LIMIT
                }
            },
            Some(c) => {
                let cap = spec_child_capacity(old(parent).saturation.max as int, factor_milli as int);
                &&& MILLI <= cap <= PARAM_LIMIT
                &&& c.params_wf()
                &&& final(parent).params_wf()
                &&& in_bounds(c.velocity.0, 80000)
                &&& c.acceleration == Acceleration(Vec2 { x: 0, y: 0 })
                &&& *final(parent) == spec_split_parent(*old(parent))
                &&& c.saturation.max == cap
                &&& c.saturation.current == old(parent).saturation.current as int / 2
                &&& final(parent).saturation.current + c.saturation.current == old(
                    parent,
                ).saturation.current
                &&& c.saturation.max * 1000 >= 900 * old(parent).saturation.max
                    - 999
                &&& c.saturation.max * 1000 <= 1100 * old(parent).saturation.max
                &&& c.position == old(parent).position
                &&& c.food == old(parent).food
                &&& c.saturation_change == SaturationChange(old(parent).saturation.current)
                &&& c.neighbourhood == (Neighbourhood {
                    radius: old(parent).neighbourhood.radius,
                    count: 0,
                })
                &&& c.velocity_damping == Some(VelocityDamping(1000))
                &&& is_drawn_velocity(c.velocity.0)
                &&& !c.died && !c.starved && !c.old_age && !c.can_die
                &&& is_split_child(c, *old(parent))
            },
        },
{
    let cap = mul_div(parent.saturation.max, factor_milli as i64, 1000);
    proof {
        lemma_split_capacity_envelope(parent.saturation.max as int, factor_milli as int);
        vstd::arithmetic::div_mod::lemma_div_is_ordered(
            1100 * parent.saturation.max as int,
            1100 * PARAM_LIMIT as int,
            1000,
        );
    }
    if cap < 1000 || cap > PARAM_LIMIT {
        return None;
    }
    let pre_split = parent.saturation.current;
    let half: i64 = ((pre_split as u64) / 2) as i64;
    proof {
        // the child's floored half fits under its capacity: half the parent's
        // capacity is below nine tenths of it, which is below the child's
        assert(500 * parent.saturation.max as int <= 900 * parent.saturation.max as int)
            by (nonlinear_arith)
            requires
                0 <= parent.saturation.max,
        ;
        vstd::arithmetic::div_mod::lemma_div_is_ordered(
            500 * parent.saturation.max as int,
            900 * parent.saturation.max as int,
            1000,
        );
        vstd::arithmetic::div_mod::lemma_div_multiples_vanish_quotient(
            500,
            parent.saturation.max as int,
            2,
        );
        vstd::arithmetic::div_mod::lemma_div_is_ordered(
            pre_split as int,
            parent.saturation.max as int,
            2,
        );
        vstd::arithmetic::div_mod::lemma_div_multiples_vanish_quotient(500, pre_split as int, 2);
    }
    let child = spawn_food(
        parent.position,
        cap,
        half,
        pre_split,
        parent.food.max_neighbours_for_split,
        parent.food.min_split_saturation,
        parent.food.split_chance,
        parent.neighbourhood.radius,
        rng,
    );
    parent.saturation.current = pre_split - half;
    Some(child)
}

/// The metric test that makes one organism a neighbour of another: their
/// displacement under the configured metric is strictly shorter than the
/// first one's neighbourhood radius.
pub open spec fn is_neighbour(a: Organism, b: Organism, rect: Option<WrappingRect>) -> bool {
    spec_pair_delta(a.position, b.position, rect).len_sq() < a.neighbourhood.radius
        * a.neighbourhood.radius
}

/// The neighbours of organism `i` among the first `k` organisms.
pub open spec fn spec_count_upto(
    orgs: Seq<Organism>,
    i: int,
    rect: Option<WrappingRect>,
    k: int,
) -> int
    decreases k,
{
    if k <= 0 {
        0
    } else {
        spec_count_upto(orgs, i, rect, k - 1) + if k - 1 != i && is_neighbour(
            orgs[i],
            orgs[k - 1],
            rect,
        ) {
            1int
        } else {
            0int
        }
    }
}

/// How many other organisms stand strictly inside organism `i`'s
/// neighbourhood radius.
pub open spec fn spec_neighbour_count(orgs: Seq<Organism>, i: int, rect: Option<WrappingRect>) -> int {
    spec_count_upto(orgs, i, rect, orgs.len() as int)
}

/// A neighbour count lies between zero and the number of organisms scanned.
pub proof fn lemma_count_upto_bounds(
    orgs: Seq<Organism>,
    i: int,
    rect: Option<WrappingRect>,
    k: int,
)
    requires
        k >= 0,
    ensures
        0 <= spec_count_upto(orgs, i, rect, k) <= k,
    decreases k,
{
    if k > 0 {
        lemma_count_upto_bounds(orgs, i, rect, k - 1);
    }
}

/// An organism with its neighbour count replaced.
pub open spec fn spec_with_count(o: Organism, c: int) -> Organism {
    Organism { neighbourhood: Neighbourhood { radius: o.neighbourhood.radius, count: c as i32 }, ..o }
}

/// Counts, for every organism, the others strictly inside its neighbourhood
/// radius, from scratch by a full pairwise scan.
pub fn count_food_neighbours(organisms: &mut Vec<Organism>, rect: Option<&WrappingRect>)
    requires
        old(organisms)@.len() <= 0x7fff_ffff,
        forall|k: int|
            0 <= k < old(organisms)@.len() ==> (#[trigger] old(organisms)@[k]).neighbourhood.radius
                >= 0,
        match rect {
            Some(r) => r.wf() && forall|k: int|
                0 <= k < old(organisms)@.len() ==> in_bounds(
                    (#[trigger] old(organisms)@[k]).position,
                    COORD_LIMIT as int,
                ),
            None => forall|k: int|
                0 <= k < old(organisms)@.len() ==> in_bounds(
                    (#[trigger] old(organisms)@[k]).position,
                    POS_STEP_LIMIT as int,
                ),
        },
    ensures
        final(organisms)@.len() == old(organisms)@.len(),
        forall|k: int|
            0 <= k < old(organisms)@.len() ==> final(organisms)@[k] == spec_with_count(
                old(organisms)@[k],
                spec_neighbour_count(old(organisms)@, k, match rect {
                    Some(r) => Some(*r),
                    None => None,
                }),
            ),
{
    let ghost grect: Option<WrappingRect> = match rect {
        Some(r) => Some(*r),
        None => None,
    };
    let ghost orig = organisms@;
    let n = organisms.len();
    let mut i: usize = 0;
    while i < n
        invariant
            n == orig.len() <= 0x7fff_ffff,
            organisms@.len() == n,
            0 <= i <= n,
            forall|k: int|
                0 <= k < i ==> organisms@[k] == spec_with_count(
                    orig[k],
                    spec_neighbour_count(orig, k, grect),
                ),
            forall|k: int| i <= k < n ==> organisms@[k] == orig[k],
            forall|k: int| 0 <= k < n ==> (#[trigger] orig[k]).neighbourhood.radius >= 0,
            match rect {
                Some(r) => r.wf() && forall|k: int|
                    0 <= k < n ==> in_bounds((#[trigger] orig[k]).position, COORD_LIMIT as int),
                None => forall|k: int|
                    0 <= k < n ==> in_bounds((#[trigger] orig[k]).position, POS_STEP_LIMIT as int),
            },
            grect == match rect {
                Some(r) => Some(*r),
                None => None,
            },
        decreases n - i,
    {
        let me = organisms[i];
        proof {
            assert(me.position == orig[i as int].position);
            assert(me.neighbourhood.radius == orig[i as int].neighbourhood.radius);
        }
        let radius = me.neighbourhood.radius;
        proof {
            assert(0 <= (radius as int) * (radius as int)
                <= 0x4000_0000_0000_0000_0000_0000_0000_0000) by (nonlinear_arith)
                requires
                    0 <= radius <= 0x7fff_ffff_ffff_ffff,
            ;
        }
        let radius_sq: u128 = ((radius as i128) * (radius as i128)) as u128;
        let mut count: i32 = 0;
        let mut j: usize = 0;
        while j < n
            invariant
                n == orig.len() <= 0x7fff_ffff,
                organisms@.len() == n,
                0 <= i < n,
                0 <= j <= n,
                0 <= count <= j,
                count == spec_count_upto(orig, i as int, grect, j as int),
                me.position == orig[i as int].position,
                me.neighbourhood.radius == orig[i as int].neighbourhood.radius,
                radius == me.neighbourhood.radius,
                radius_sq == (radius as int) * (radius as int),
                forall|k: int|
                    0 <= k < i ==> organisms@[k] == spec_with_count(
                        orig[k],
                        spec_neighbour_count(orig, k, grect),
                    ),
                forall|k: int| i <= k < n ==> organisms@[k] == orig[k],
                forall|k: int| 0 <= k < n ==> (#[trigger] organisms@[k]).position == orig[k].position,
                match rect {
                    Some(r) => r.wf() && forall|k: int|
                        0 <= k < n ==> in_bounds((#[trigger] orig[k]).position, COORD_LIMIT as int),
                    None => forall|k: int|
                        0 <= k < n ==> in_bounds(
                            (#[trigger] orig[k]).position,
                            POS_STEP_LIMIT as int,
                        ),
                },
                grect == match rect {
                    Some(r) => Some(*r),
                    None => None,
                },
            decreases n - j,
        {
            if j != i {
                let other = organisms[j];
                proof {
                    assert(other.position == orig[j as int].position);
                }
                let delta = pair_delta(me.position, other.position, rect);
                let d2 = delta.length_squared();
                if d2 < radius_sq {
                    count = count + 1;
                }
                proof {
                    assert(is_neighbour(orig[i as int], orig[j as int], grect) == (
                    spec_pair_delta(
                        orig[i as int].position,
                        orig[j as int].position,
                        grect,
                    ).len_sq() < (radius as int) * (radius as int)));
                }
            }
            j = j + 1;
        }
        organisms[i].neighbourhood.count = count;
        i = i + 1;
    }
}

/// Walks the living set once: every organism that is sparsely surrounded and
/// well-fed draws a Bernoulli trial from the shared stream; winners split,
/// their children joining the set only after the walk, so new organisms never
/// interact in the tick that created them.
pub fn food_splitting(organisms: &mut Vec<Organism>, rng: &mut GameRng)
    requires
        forall|k: int| 0 <= k < old(organisms)@.len() ==> (#[trigger] old(organisms)@[k]).params_wf(),
        forall|k: int|
            0 <= k < old(organisms)@.len() ==> in_bounds(
                (#[trigger] old(organisms)@[k]).position,
                mid_tick_pos_limit(),
            ),
        old(organisms)@.len() < 0x1000_0000,
    ensures
        old(organisms)@.len() <= final(organisms)@.len() <= 2 * old(organisms)@.len(),
        forall|k: int|
            0 <= k < old(organisms)@.len() ==> final(organisms)@[k] == old(organisms)@[k] || (
            eligible_for_split(#[trigger] old(organisms)@[k]) && final(organisms)@[k]
                == spec_split_parent(old(organisms)@[k])),
        forall|k: int|
            0 <= k < old(organisms)@.len() && !eligible_for_split(#[trigger] old(organisms)@[k])
                ==> final(organisms)@[k] == old(organisms)@[k],
        forall|j: int|
            #![trigger final(organisms)@[j]]
            old(organisms)@.len() <= j < final(organisms)@.len() ==> split_child_of_some(
                final(organisms)@[j],
                old(organisms)@,
            ),
        forall|k: int|
            0 <= k < old(organisms)@.len() && eligible_for_split(#[trigger] old(organisms)@[k])
                && old(organisms)@[k].food.split_chance == PPM && split_always_viable(
                old(organisms)@[k].saturation.max as int,
            ) ==> final(organisms)@[k] == spec_split_parent(old(organisms)@[k]),
        forall|k: int|
            0 <= k < final(organisms)@.len() ==> (#[trigger] final(organisms)@[k]).params_wf(),
{
    let ghost orig = organisms@;
    let n = organisms.len();
    let mut children: Vec<Organism> = Vec::new();
    let mut i: usize = 0;
    while i < n
        invariant
            n == orig.len() < 0x1000_0000,
            organisms@.len() == n,
            0 <= i <= n,
            forall|k: int| 0 <= k < n ==> (#[trigger] orig[k]).params_wf(),
            forall|k: int| 0 <= k < n ==> in_bounds((#[trigger] orig[k]).position, mid_tick_pos_limit()),
            forall|k: int|
                0 <= k < i ==> organisms@[k] == orig[k] || (eligible_for_split(#[trigger] orig[k])
                    && organisms@[k] == spec_split_parent(orig[k])),
            forall|k: int|
                0 <= k < i && !eligible_for_split(#[trigger] orig[k]) ==> organisms@[k] == orig[k],
            forall|k: int| i <= k < n ==> organisms@[k] == orig[k],
            forall|k: int| 0 <= k < n ==> (#[trigger] organisms@[k]).params_wf(),
            forall|k: int| 0 <= k < children@.len() ==> (#[trigger] children@[k]).params_wf(),
            forall|j: int|
                #![trigger children@[j]]
                0 <= j < children@.len() ==> split_child_of_some(children@[j], orig),
            forall|k: int|
                0 <= k < i && eligible_for_split(#[trigger] orig[k]) && orig[k].food.split_chance
                    == PPM && split_always_viable(orig[k].saturation.max as int)
                    ==> organisms@[k] == spec_split_parent(orig[k]),
            children@.len() <= i,
        decreases n - i,
    {
        let o = organisms[i];
        let eligible = !(o.neighbourhood.count > o.food.max_neighbours_for_split
            || o.saturation.current < o.food.min_split_saturation);
        if eligible {
            let draw = rng.range_u64(0, 1_000_000);
            if draw < o.food.split_chance as u64 {
                let factor = rng.range_u64(900, 1100);
                let mut parent = o;
                proof {
                    assert(organisms@[i as int] == orig[i as int]);
                    assert(in_bounds(orig[i as int].position, mid_tick_pos_limit()));
                    assert(orig[i as int].params_wf());
                    if split_always_viable(orig[i as int].saturation.max as int) {
                        lemma_split_always_viable(
                            orig[i as int].saturation.max as int,
                            factor as int,
                        );
                    }
                }
                let spawned = attempt_split(&mut parent, factor, rng);
                match spawned {
                    Some(child) => {
                        organisms.set(i, parent);
                        proof {
                            assert(eligible_for_split(orig[i as int]) && is_split_child(
                                child,
                                orig[i as int],
                            ));
                            assert(split_child_of_some(child, orig));
                        }
                        children.push(child);
                    },
                    None => {},
                }
            }
        }
        i = i + 1;
    }
    let ghost kids = children@;
    organisms.append(&mut children);
    proof {
        assert forall|j: int|
            #![trigger organisms@[j]]
            n <= j < organisms@.len() implies split_child_of_some(organisms@[j], orig) by {
            assert(organisms@[j] == kids[j - n]);
            assert(split_child_of_some(kids[j - n], orig));
        }
    }
}

/// Refreshes the visual radius so it reflects the resource level.
pub fn update_food_radius(o: &mut Organism)
    ensures
        *final(o) == (Organism { radius: old(o).saturation.current, ..*old(o) }),
{
    o.radius = o.saturation.current;
}

} // verus!
