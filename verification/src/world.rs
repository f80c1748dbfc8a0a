//! The simulation world and its tick: the fixed stage order over the whole
//! living set, removal of the previous tick's casualties, and startup
//! configuration.

use vstd::prelude::*;
use crate::age::{spec_update_age, update_age};
use crate::food::{
    count_food_neighbours, food_splitting, is_drawn_velocity, lemma_count_upto_bounds,
    mid_tick_pos_limit, spawn_food, spec_neighbour_count, spec_split_parent, spec_with_count,
    split_child_of_some, eligible_for_split, Food, Neighbourhood, Organism,
};
use crate::interaction_forces::{
    apply_interaction_forces, spec_accum_forces, spec_lookup, ForceParams, InteractionRules,
};
use crate::math::lemma_scaled_bound;
use crate::mortality::{
    check_old_age, check_starvation, remove_died, spec_check_old_age, spec_check_starvation,
    survivors,
};
use crate::movement::{
    clamp_velocity, damp_velocity, in_bounds, spec_clamp_velocity, spec_damp_velocity,
    spec_update_position, spec_update_velocity, update_position, update_rotation, update_velocity,
    Acceleration, Velocity, VelocityDamping,
};
use crate::rng::GameRng;
use crate::saturation::{spec_update_saturation, update_saturation, SaturationChange};
use crate::vec2::Vec2;
use crate::wrapping::{wrap_transforms, spec_wrap_position, WrappingRect};
use crate::{COORD_LIMIT, DT_LIMIT_MS, MILLI, POS_LIMIT, POS_STEP_LIMIT, RECT_LIMIT, VEL_STEP_LIMIT};

verus! {

/// Most organisms a well-formed world holds; splitting can at most double a
/// population within one tick, which keeps every count in range.
pub const POP_LIMIT: usize = 0x80_0000;

/// An organism after the motion stage: acceleration integrated and zeroed,
/// velocity damped and capped where those capabilities are present, position
/// advanced, facing re-derived.
pub open spec fn spec_move_organism(o: Organism, dt_ms: int) -> Organism {
    let v1 = spec_update_velocity(o.velocity.0, o.acceleration.0, dt_ms);
    let v2 = match o.velocity_damping {
        Some(d) => spec_damp_velocity(v1, d.0 as int, dt_ms),
        None => v1,
    };
    let v3 = match o.max_velocity {
        Some(m) => spec_clamp_velocity(v2, m.0 as int),
        None => v2,
    };
    let p = spec_update_position(o.position, v3, dt_ms);
    let h = if v3.len_sq() > 0 {
        v3
    } else {
        o.heading
    };
    Organism {
        velocity: Velocity(v3),
        acceleration: Acceleration(Vec2 { x: 0, y: 0 }),
        position: p,
        heading: h,
        ..o
    }
}

/// Integrates motion for every organism.
pub fn movement_stage(organisms: &mut Vec<Organism>, dt_ms: u64)
    requires
        dt_ms <= DT_LIMIT_MS,
        forall|k: int| 0 <= k < old(organisms)@.len() ==> (#[trigger] old(organisms)@[k]).wf(),
    ensures
        final(organisms)@.len() == old(organisms)@.len(),
        forall|k: int|
            0 <= k < old(organisms)@.len() ==> final(organisms)@[k] == spec_move_organism(
                old(organisms)@[k],
                dt_ms as int,
            ),
        forall|k: int|
            0 <= k < final(organisms)@.len() ==> in_bounds(
                (#[trigger] final(organisms)@[k]).position,
                POS_STEP_LIMIT as int,
            ) && in_bounds(final(organisms)@[k].velocity.0, VEL_STEP_LIMIT as int),
{
    let ghost orig = organisms@;
    let n = organisms.len();
    let mut i: usize = 0;
    while i < n
        invariant
            n == orig.len(),
            organisms@.len() == n,
            0 <= i <= n,
            dt_ms <= DT_LIMIT_MS,
            forall|k: int| 0 <= k < n ==> (#[trigger] orig[k]).wf(),
            forall|k: int|
                0 <= k < i ==> organisms@[k] == spec_move_organism(orig[k], dt_ms as int),
            forall|k: int|
                0 <= k < i ==> in_bounds((#[trigger] organisms@[k]).position, POS_STEP_LIMIT as int)
                    && in_bounds(organisms@[k].velocity.0, VEL_STEP_LIMIT as int),
            forall|k: int| i <= k < n ==> organisms@[k] == orig[k],
        decreases n - i,
    {
        let o = organisms[i];
        proof {
            assert(o == orig[i as int]);
        }
        let mut velocity = o.velocity;
        let mut acceleration = o.acceleration;
        update_velocity(&mut velocity, &mut acceleration, dt_ms);
        match &o.velocity_damping {
            Some(d) => damp_velocity(&mut velocity, d, dt_ms),
            None => {},
        }
        match &o.max_velocity {
            Some(m) => clamp_velocity(&mut velocity, m),
            None => {},
        }
        let mut position = o.position;
        proof {
            lemma_scaled_bound(
                velocity.0.x as int,
                dt_ms as int,
                MILLI as int,
                VEL_STEP_LIMIT as int,
                DT_LIMIT_MS as int,
            );
            lemma_scaled_bound(
                velocity.0.y as int,
                dt_ms as int,
                MILLI as int,
                VEL_STEP_LIMIT as int,
                DT_LIMIT_MS as int,
            );
        }
        update_position(&mut position, &velocity, dt_ms);
        let mut heading = o.heading;
        update_rotation(&mut heading, &velocity);
        let moved = Organism { velocity, acceleration, position, heading, ..o };
        organisms.set(i, moved);
        i = i + 1;
    }
}

/// An organism after the resource-and-age stage: saturation drifted and
/// clamped, age accrued and capped where configured, the visual radius
/// refreshed to the resource level.
pub open spec fn spec_lifecycle(o: Organism, dt_ms: int) -> Organism {
    let s = spec_update_saturation(o.saturation, o.saturation_change.0 as int, dt_ms);
    let a = match o.age {
        Some(age) => Some(spec_update_age(age, o.max_age, dt_ms)),
        None => None,
    };
    Organism { saturation: s, age: a, radius: s.current, ..o }
}

/// Drifts resource and age for every organism and refreshes the visual radii.
pub fn resource_stage(organisms: &mut Vec<Organism>, dt_ms: u64)
    requires
        dt_ms <= DT_LIMIT_MS,
        forall|k: int|
            0 <= k < old(organisms)@.len() ==> (#[trigger] old(organisms)@[k]).params_wf(),
        forall|k: int|
            0 <= k < old(organisms)@.len() ==> match (#[trigger] old(organisms)@[k]).age {
                Some(a) => -POS_LIMIT <= a.current <= POS_LIMIT,
                None => true,
            },
    ensures
        final(organisms)@.len() == old(organisms)@.len(),
        forall|k: int|
            0 <= k < old(organisms)@.len() ==> final(organisms)@[k] == spec_lifecycle(
                old(organisms)@[k],
                dt_ms as int,
            ),
        forall|k: int|
            0 <= k < final(organisms)@.len() ==> (#[trigger] final(organisms)@[k]).saturation.wf(),
{
    let ghost orig = organisms@;
    let n = organisms.len();
    let mut i: usize = 0;
    while i < n
        invariant
            n == orig.len(),
            organisms@.len() == n,
            0 <= i <= n,
            dt_ms <= DT_LIMIT_MS,
            forall|k: int| 0 <= k < n ==> (#[trigger] orig[k]).params_wf(),
            forall|k: int|
                0 <= k < n ==> match (#[trigger] orig[k]).age {
                    Some(a) => -POS_LIMIT <= a.current <= POS_LIMIT,
                    None => true,
                },
            forall|k: int| 0 <= k < i ==> organisms@[k] == spec_lifecycle(orig[k], dt_ms as int),
            forall|k: int|
                0 <= k < i ==> (#[trigger] organisms@[k]).saturation.wf(),
            forall|k: int| i <= k < n ==> organisms@[k] == orig[k],
        decreases n - i,
    {
        let o = organisms[i];
        proof {
            assert(o == orig[i as int]);
        }
        let mut saturation = o.saturation;
        update_saturation(&mut saturation, &o.saturation_change, dt_ms);
        let age = match o.age {
            Some(a) => {
                let mut aged = a;
                update_age(&mut aged, o.max_age.as_ref(), dt_ms);
                Some(aged)
            },
            None => None,
        };
        let radius = saturation.current;
        organisms.set(i, Organism { saturation, age, radius, ..o });
        i = i + 1;
    }
}

/// An organism after mortality detection: starvation checked first, then old
/// age; each sets its own flag and the sticky `died`.
pub open spec fn spec_mortality_checks(o: Organism) -> Organism {
    spec_check_old_age(spec_check_starvation(o))
}

/// Runs both mortality detections on every organism; flags only ever get set.
pub fn mortality_checks(organisms: &mut Vec<Organism>)
    ensures
        final(organisms)@.len() == old(organisms)@.len(),
        forall|k: int|
            0 <= k < old(organisms)@.len() ==> final(organisms)@[k] == spec_mortality_checks(
                old(organisms)@[k],
            ),
        forall|k: int|
            0 <= k < old(organisms)@.len() && (#[trigger] old(organisms)@[k]).died
                ==> final(organisms)@[k].died,
{
    let ghost orig = organisms@;
    let n = organisms.len();
    let mut i: usize = 0;
    while i < n
        invariant
            n == orig.len(),
            organisms@.len() == n,
            0 <= i <= n,
            forall|k: int| 0 <= k < i ==> organisms@[k] == spec_mortality_checks(orig[k]),
            forall|k: int| 0 <= k < i && (#[trigger] orig[k]).died ==> organisms@[k].died,
            forall|k: int| i <= k < n ==> organisms@[k] == orig[k],
        decreases n - i,
    {
        let mut o = organisms[i];
        proof {
            assert(o == orig[i as int]);
        }
        check_starvation(&mut o);
        check_old_age(&mut o);
        organisms.set(i, o);
        i = i + 1;
    }
}

/// The per-index pipeline every surviving organism passes through before
/// reproduction and mortality detection: motion, wrap into the domain, force
/// recomputation, resource and age drift, neighbourhood recount.
pub open spec fn spec_stage_pipeline(
    orgs: Seq<Organism>,
    rect: Option<WrappingRect>,
    rules: Seq<((u8, u8), ForceParams)>,
    dt_ms: int,
) -> Seq<Organism> {
    let moved = Seq::new(orgs.len(), |k: int| spec_move_organism(orgs[k], dt_ms));
    let wrapped = match rect {
        Some(r) => Seq::new(
            moved.len(),
            |k: int| Organism { position: spec_wrap_position(moved[k].position, r), ..moved[k] },
        ),
        None => moved,
    };
    let forced = Seq::new(
        wrapped.len(),
        |k: int|
            Organism {
                acceleration: Acceleration(
                    spec_accum_forces(
                        wrapped,
                        k,
                        rules,
                        rect,
                        wrapped.len() as int,
                        wrapped[k].acceleration.0,
                    ),
                ),
                ..wrapped[k]
            },
    );
    let drifted = Seq::new(forced.len(), |k: int| spec_lifecycle(forced[k], dt_ms));
    Seq::new(
        drifted.len(),
        |k: int| spec_with_count(drifted[k], spec_neighbour_count(drifted, k, rect)),
    )
}

/// Whether `o` is, after mortality detection, the split child of some
/// eligible organism of `orgs`.
pub open spec fn post_check_split_child(o: Organism, orgs: Seq<Organism>) -> bool {
    exists|c: Organism| split_child_of_some(c, orgs) && o == #[trigger] spec_mortality_checks(c)
}

/// The whole simulation: the living set, the optional wrap domain, and the
/// immutable force-rule table.
pub struct World {
    pub organisms: Vec<Organism>,
    pub rect: Option<WrappingRect>,
    pub rules: InteractionRules,
}

impl World {
    /// The world invariant a tick requires at entry: a usable wrap domain and
    /// rule table, a bounded population, every organism well-formed.
    pub open spec fn wf(self) -> bool {
        &&& match self.rect {
            Some(r) => r.wf(),
            None => true,
        }
        &&& self.rules.wf()
        &&& self.organisms@.len() < POP_LIMIT
        &&& forall|k: int| 0 <= k < self.organisms@.len() ==> (#[trigger] self.organisms@[k]).wf()
    }

    /// Decides the world invariant at runtime, so a host can test it before
    /// asking for a tick.
    pub fn wf_check(&self) -> (r: bool)
        ensures
            r == self.wf(),
    {
        let rect_ok = match &self.rect {
            Some(r) => r.check_wf(),
            None => true,
        };
        if !rect_ok {
            return false;
        }
        if !self.rules.check_wf() {
            return false;
        }
        if self.organisms.len() >= POP_LIMIT {
            return false;
        }
        let mut i: usize = 0;
        while i < self.organisms.len()
            invariant
                0 <= i <= self.organisms@.len(),
                forall|k: int| 0 <= k < i ==> (#[trigger] self.organisms@[k]).wf(),
            decreases self.organisms@.len() - i,
        {
            if !self.organisms[i].check_wf() {
                proof {
                    assert(!self.organisms@[i as int].wf());
                }
                return false;
            }
            i = i + 1;
        }
        true
    }

    /// Advances the simulation by one tick of `dt_ms` milliseconds, in the
    /// fixed stage order: remove the previous tick's flagged-and-eligible
    /// casualties (so a fresh corpse stays observable for exactly one tick),
    /// integrate motion, wrap positions into the domain, recompute pairwise
    /// forces for the next tick, drift resource and age, recount
    /// neighbourhoods, evaluate reproduction, and detect new deaths last.
    pub fn tick(&mut self, rng: &mut GameRng, dt_ms: u64)
        requires
            old(self).wf(),
            dt_ms <= DT_LIMIT_MS,
        ensures
            final(self).rect == old(self).rect,
            final(self).rules == old(self).rules,
            final(self).organisms@.len() >= survivors(old(self).organisms@).len(),
            final(self).organisms@.len() <= 2 * survivors(old(self).organisms@).len(),
            forall|k: int|
                #![trigger final(self).organisms@[k]]
                0 <= k < survivors(old(self).organisms@).len() && survivors(
                    old(self).organisms@,
                )[k].died ==> final(self).organisms@[k].died,
            forall|k: int|
                #![trigger final(self).organisms@[k]]
                0 <= k < survivors(old(self).organisms@).len()
                    ==> final(self).organisms@[k].can_die == survivors(
                    old(self).organisms@,
                )[k].can_die,
            forall|k: int|
                0 <= k < final(self).organisms@.len()
                    ==> (#[trigger] final(self).organisms@[k]).saturation.wf(),
            ({
                let pipeline = spec_stage_pipeline(
                    survivors(old(self).organisms@),
                    old(self).rect,
                    old(self).rules.0@,
                    dt_ms as int,
                );
                &&& forall|k: int|
                    #![trigger final(self).organisms@[k]]
                    0 <= k < pipeline.len() ==> (final(self).organisms@[k]
                        == spec_mortality_checks(pipeline[k]) || (eligible_for_split(pipeline[k])
                        && final(self).organisms@[k] == spec_mortality_checks(
                        spec_split_parent(pipeline[k]),
                    )))
                &&& forall|j: int|
                    #![trigger final(self).organisms@[j]]
                    pipeline.len() <= j < final(self).organisms@.len() ==> post_check_split_child(
                        final(self).organisms@[j],
                        pipeline,
                    )
            }),
    {
        let ghost entry = self.organisms@;
        let ghost kept = survivors(entry);

        remove_died(&mut self.organisms);
        let ghost s0 = self.organisms@;
        proof {
            assert(s0 == kept);
            assert forall|k: int| 0 <= k < s0.len() implies (#[trigger] s0[k]).wf() by {
                let w = choose|w: int| 0 <= w < entry.len() && s0[k] == entry[w];
                assert(entry[w].wf());
            }
        }

        movement_stage(&mut self.organisms, dt_ms);
        let ghost s1 = self.organisms@;

        match &self.rect {
            Some(r) => wrap_transforms(&mut self.organisms, r),
            None => {},
        }
        let ghost s2 = self.organisms@;
        proof {
            assert forall|k: int| 0 <= k < s2.len() implies (#[trigger] s2[k]).params_wf()
                && s2[k].died == s0[k].died && (match s2[k].age {
                Some(a) => -POS_LIMIT <= a.current <= POS_LIMIT,
                None => true,
            }) && in_bounds(s2[k].position, COORD_LIMIT as int) by {
                assert(s0[k].wf());
                assert(s1[k] == spec_move_organism(s0[k], dt_ms as int));
            }
        }

        let rect_ref = self.rect.as_ref();
        apply_interaction_forces(&mut self.organisms, &self.rules, rect_ref);
        let ghost s3 = self.organisms@;
        proof {
            assert forall|k: int| 0 <= k < s3.len() implies (#[trigger] s3[k]).params_wf()
                && s3[k].died == s0[k].died && (match s3[k].age {
                Some(a) => -POS_LIMIT <= a.current <= POS_LIMIT,
                None => true,
            }) && in_bounds(s3[k].position, COORD_LIMIT as int) by {
                assert(s2[k].params_wf());
            }
        }

        resource_stage(&mut self.organisms, dt_ms);
        let ghost s4 = self.organisms@;
        proof {
            assert forall|k: int| 0 <= k < s4.len() implies (#[trigger] s4[k]).params_wf()
                && s4[k].died == s0[k].died && s4[k].neighbourhood.radius >= 0 && in_bounds(
                s4[k].position,
                COORD_LIMIT as int,
            ) by {
                assert(s3[k].params_wf());
                assert(s4[k] == spec_lifecycle(s3[k], dt_ms as int));
            }
        }

        let rect_ref2 = self.rect.as_ref();
        count_food_neighbours(&mut self.organisms, rect_ref2);
        let ghost s5 = self.organisms@;
        proof {
            assert forall|k: int| 0 <= k < s5.len() implies (#[trigger] s5[k]).params_wf()
                && s5[k].died == s0[k].died && in_bounds(s5[k].position, mid_tick_pos_limit()) by {
                assert(s4[k].params_wf());
                lemma_count_upto_bounds(s4, k, match self.rect {
                    Some(r) => Some(r),
                    None => None,
                }, s4.len() as int);
            }
        }

        let ghost pipeline = spec_stage_pipeline(s0, self.rect, self.rules.0@, dt_ms as int);
        proof {
            let grect = self.rect;
            let moved = Seq::new(s0.len(), |k: int| spec_move_organism(s0[k], dt_ms as int));
            assert forall|k: int| 0 <= k < s1.len() implies s1[k] == moved[k] by {
                assert(moved[k] == spec_move_organism(s0[k], dt_ms as int));
            }
            assert(s1 =~= moved);
            let wrapped = match grect {
                Some(r) => Seq::new(
                    moved.len(),
                    |k: int|
                        Organism { position: spec_wrap_position(moved[k].position, r), ..moved[k] },
                ),
                None => moved,
            };
            assert forall|k: int| 0 <= k < s2.len() implies s2[k] == wrapped[k] by {
                match grect {
                    Some(r) => {
                        assert(wrapped[k] == (Organism {
                            position: spec_wrap_position(moved[k].position, r),
                            ..moved[k]
                        }));
                    },
                    None => {},
                }
            }
            assert(s2 =~= wrapped);
            let forced = Seq::new(
                wrapped.len(),
                |k: int|
                    Organism {
                        acceleration: Acceleration(
                            spec_accum_forces(
                                wrapped,
                                k,
                                self.rules.0@,
                                grect,
                                wrapped.len() as int,
                                wrapped[k].acceleration.0,
                            ),
                        ),
                        ..wrapped[k]
                    },
            );
            assert forall|k: int| 0 <= k < s3.len() implies s3[k] == forced[k] by {
                assert(forced[k] == (Organism {
                    acceleration: Acceleration(
                        spec_accum_forces(
                            wrapped,
                            k,
                            self.rules.0@,
                            grect,
                            wrapped.len() as int,
                            wrapped[k].acceleration.0,
                        ),
                    ),
                    ..wrapped[k]
                }));
            }
            assert(s3 =~= forced);
            let drifted = Seq::new(forced.len(), |k: int| spec_lifecycle(forced[k], dt_ms as int));
            assert forall|k: int| 0 <= k < s4.len() implies s4[k] == drifted[k] by {
                assert(drifted[k] == spec_lifecycle(forced[k], dt_ms as int));
            }
            assert(s4 =~= drifted);
            let counted = Seq::new(
                drifted.len(),
                |k: int| spec_with_count(drifted[k], spec_neighbour_count(drifted, k, grect)),
            );
            assert forall|k: int| 0 <= k < s5.len() implies s5[k] == counted[k] by {
                assert(counted[k] == spec_with_count(
                    drifted[k],
                    spec_neighbour_count(drifted, k, grect),
                ));
            }
            assert(s5 =~= counted);
            assert(pipeline == counted);
        }

        food_splitting(&mut self.organisms, rng);
        let ghost s6 = self.organisms@;
        proof {
            assert forall|k: int| 0 <= k < s5.len() implies s6[k].died == s0[k].died && s6[k].can_die
                == s0[k].can_die by {
                assert(s6[k] == s5[k] || (eligible_for_split(s5[k]) && s6[k] == spec_split_parent(
                    s5[k],
                )));
            }
        }

        mortality_checks(&mut self.organisms);
        proof {
            assert forall|k: int| 0 <= k < kept.len() && (#[trigger] kept[k]).died implies self
                .organisms@[k].died by {
                assert(s6[k].died == s0[k].died);
            }
            assert forall|k: int| 0 <= k < kept.len() implies (#[trigger] self
                .organisms@[k]).can_die == kept[k].can_die by {
                assert(s6[k].can_die == s0[k].can_die);
                assert(self.organisms@[k] == spec_mortality_checks(s6[k]));
            }
            assert forall|k: int| 0 <= k < self.organisms@.len() implies (#[trigger] self
                .organisms@[k]).saturation.wf() by {
                assert(s6[k].params_wf());
                assert(self.organisms@[k] == spec_mortality_checks(s6[k]));
            }
            assert(pipeline == s5);
            assert forall|k: int|
                #![trigger self.organisms@[k]]
                0 <= k < pipeline.len() implies (self.organisms@[k] == spec_mortality_checks(
                pipeline[k],
            ) || (eligible_for_split(pipeline[k]) && self.organisms@[k] == spec_mortality_checks(
                spec_split_parent(pipeline[k]),
            ))) by {
                assert(self.organisms@[k] == spec_mortality_checks(s6[k]));
                assert(s6[k] == s5[k] || (eligible_for_split(s5[k]) && s6[k] == spec_split_parent(
                    s5[k],
                )));
            }
            assert forall|j: int|
                #![trigger self.organisms@[j]]
                pipeline.len() <= j < self.organisms@.len() implies post_check_split_child(
                self.organisms@[j],
                pipeline,
            ) by {
                assert(split_child_of_some(s6[j], s5));
                assert(self.organisms@[j] == spec_mortality_checks(s6[j]));
            }
        }
    }
}

/// The startup rule table: one rule, for the default group against itself,
/// with an 8-unit attraction out to 128 units and a 64-unit repulsion inside
/// 16 units.
pub fn setup_interaction_rules() -> (r: InteractionRules)
    ensures
        r.wf(),
        spec_lookup(r.0@, (0u8, 0u8)) == Some(
            ForceParams {
                attract_strength: 8000,
                repulse_strength: 64000,
                min_distance: 16000,
                max_distance: 128000,
            },
        ),
        forall|k: (u8, u8)| k != (0u8, 0u8) ==> spec_lookup(r.0@, k) is None,
{
    let mut rules = InteractionRules::new();
    rules.insert(
        0,
        0,
        ForceParams {
            attract_strength: 8000,
            repulse_strength: 64000,
            min_distance: 16000,
            max_distance: 128000,
        },
    );
    rules
}

/// What every freshly seeded organism looks like: a drawn position inside the
/// centred viewport box, a drawn capacity in `[5, 10)` world units, half
/// full, regenerating at half a unit per second, splitting at a thousandth
/// per tick when at most eight neighbours crowd it and it is three quarters
/// full, watching a 64-unit neighbourhood, fully damped, in the default
/// group, with a drawn velocity and clear lifecycle flags.
pub open spec fn is_seeded_organism(o: Organism, width: int, height: int) -> bool {
    &&& -(width / 2) <= o.position.x < width - width / 2
    &&& -(height / 2) <= o.position.y < height - height / 2
    &&& 5000 <= o.saturation.max < 10000
    &&& o.saturation.current == o.saturation.max as int / 2
    &&& o.saturation_change == SaturationChange(500)
    &&& o.food == (Food {
        max_neighbours_for_split: 8,
        min_split_saturation: (o.saturation.max as int * 750 / 1000) as i64,
        split_chance: 1000,
    })
    &&& o.neighbourhood == (Neighbourhood { radius: 64000, count: 0 })
    &&& o.velocity_damping == Some(VelocityDamping(1000))
    &&& is_drawn_velocity(o.velocity.0)
    &&& o.max_velocity is None
    &&& o.age is None
    &&& o.max_age is None
    &&& o.interaction_group == crate::interaction_forces::InteractionGroup(0u8)
    &&& o.acceleration == Acceleration(Vec2 { x: 0, y: 0 })
    &&& o.heading == (Vec2 { x: MILLI, y: 0 })
    &&& o.radius == o.saturation.current
    &&& !o.died && !o.starved && !o.old_age && !o.can_die
}

/// Seeds the starting population: a fixed count of organisms at uniform
/// positions over the viewport, each with a drawn capacity in `[5, 10)` world
/// units, half-full, regenerating, and ready to split when sparse and fed.
pub fn spawn_initial_food(
    organisms: &mut Vec<Organism>,
    width: i64,
    height: i64,
    rng: &mut GameRng,
)
    requires
        0 < width <= RECT_LIMIT,
        0 < height <= RECT_LIMIT,
        old(organisms)@.len() + 32 < POP_LIMIT,
    ensures
        final(organisms)@.len() == old(organisms)@.len() + 32,
        forall|k: int|
            0 <= k < old(organisms)@.len() ==> final(organisms)@[k] == old(organisms)@[k],
        forall|k: int|
            old(organisms)@.len() <= k < final(organisms)@.len()
                ==> (#[trigger] final(organisms)@[k]).wf(),
        forall|k: int|
            old(organisms)@.len() <= k < final(organisms)@.len() ==> is_seeded_organism(
                #[trigger] final(organisms)@[k],
                width as int,
                height as int,
            ),
{
    let ghost orig = organisms@;
    let half_w: i64 = ((width as u64) / 2) as i64;
    let half_h: i64 = ((height as u64) / 2) as i64;
    let mut spawned: usize = 0;
    while spawned < 32
        invariant
            0 <= spawned <= 32,
            organisms@.len() == orig.len() + spawned,
            0 < width <= RECT_LIMIT,
            0 < height <= RECT_LIMIT,
            half_w == width as int / 2,
            half_h == height as int / 2,
            forall|k: int| 0 <= k < orig.len() ==> organisms@[k] == orig[k],
            forall|k: int|
                orig.len() <= k < organisms@.len() ==> (#[trigger] organisms@[k]).wf(),
            forall|k: int|
                orig.len() <= k < organisms@.len() ==> is_seeded_organism(
                    #[trigger] organisms@[k],
                    width as int,
                    height as int,
                ),
        decreases 32 - spawned,
    {
        let x = rng.range_u64(0, width as u64) as i64 - half_w;
        let y = rng.range_u64(0, height as u64) as i64 - half_h;
        let position = Vec2 { x, y };

        let max_saturation = rng.range_u64(5000, 10000) as i64;
        let start_saturation: i64 = ((max_saturation as u64) / 2) as i64;
        let saturation_change: i64 = 500;

        let max_neighbours_for_split: i32 = 8;
        let min_split_saturation = crate::math::mul_div(max_saturation, 750, 1000);
        proof {
            lemma_scaled_bound(max_saturation as int, 750, 1000, 10000, 750);
        }
        let split_chance: u32 = 1000;

        let neighbourhood_radius: i64 = 64000;

        let o = spawn_food(
            position,
            max_saturation,
            start_saturation,
            saturation_change,
            max_neighbours_for_split,
            min_split_saturation,
            split_chance,
            neighbourhood_radius,
            rng,
        );
        organisms.push(o);
        spawned = spawned + 1;
    }
}

} // verus!
