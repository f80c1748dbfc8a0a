//! The mortality state machine: starvation and old age each set a sticky
//! `died` flag; removal takes only organisms that are both flagged and
//! eligible, so a freshly flagged organism stays observable for one tick.

use vstd::prelude::*;
use crate::food::Organism;

verus! {

/// An organism flagged as starved and died when its resource has run dry.
pub open spec fn spec_check_starvation(o: Organism) -> Organism {
    if !o.died && o.saturation.current <= 0 {
        Organism { starved: true, died: true, ..o }
    } else {
        o
    }
}

/// Flags an organism whose resource has hit zero as starved, and dead; the
/// flags are monotonic, never cleared.
pub fn check_starvation(o: &mut Organism)
    ensures
        *final(o) == spec_check_starvation(*old(o)),
        final(o).died == (old(o).died || old(o).saturation.current <= 0),
        old(o).died ==> final(o).died,
        old(o).starved ==> final(o).starved,
{
    if !o.died && o.saturation.current <= 0 {
        o.starved = true;
        o.died = true;
    }
}

/// An organism flagged as dead of old age when it carries an age and a cap
/// and the age has reached the cap. Aging clamps the age to the cap, so the
/// check fires at the cap itself; the clamped value is the oldest an organism
/// ever gets.
pub open spec fn spec_check_old_age(o: Organism) -> Organism {
    match (o.age, o.max_age) {
        (Some(age), Some(cap)) => if !o.died && age.current >= cap.0 {
            Organism { old_age: true, died: true, ..o }
        } else {
            o
        },
        _ => o,
    }
}

/// Flags an organism at or past its age cap as dead of old age; the flags are
/// monotonic, never cleared.
pub fn check_old_age(o: &mut Organism)
    ensures
        *final(o) == spec_check_old_age(*old(o)),
        old(o).died ==> final(o).died,
        old(o).old_age ==> final(o).old_age,
{
    match (o.age, o.max_age) {
        (Some(age), Some(cap)) => {
            if !o.died && age.current >= cap.0 {
                o.old_age = true;
                o.died = true;
            }
        },
        _ => {},
    }
}

/// Removal takes an organism that has died and is eligible for removal.
pub open spec fn removal_due(o: Organism) -> bool {
    o.died && o.can_die
}

/// The organisms that survive removal, in order.
pub open spec fn survivors(orgs: Seq<Organism>) -> Seq<Organism> {
    orgs.filter(|o: Organism| !removal_due(o))
}

/// Destroys every organism that has died and may be removed, keeping all
/// others in order.
pub fn remove_died(organisms: &mut Vec<Organism>)
    ensures
        final(organisms)@ == survivors(old(organisms)@),
        forall|j: int|
            #![trigger final(organisms)@[j]]
            0 <= j < final(organisms)@.len() ==> exists|i: int|
                0 <= i < old(organisms)@.len() && final(organisms)@[j] == old(organisms)@[i],
{
    let ghost orig = organisms@;
    let ghost pred = |o: Organism| !removal_due(o);
    let n = organisms.len();
    let mut kept: Vec<Organism> = Vec::new();
    let mut i: usize = 0;
    proof {
        reveal(Seq::filter);
        assert(orig.take(0) =~= Seq::<Organism>::empty());
        assert(orig.take(0).filter(pred) =~= Seq::<Organism>::empty());
    }
    while i < n
        invariant
            n == orig.len(),
            organisms@ == orig,
            0 <= i <= n,
            kept@ == orig.take(i as int).filter(pred),
            pred == (|o: Organism| !removal_due(o)),
            forall|j: int|
                #![trigger kept@[j]]
                0 <= j < kept@.len() ==> exists|w: int| 0 <= w < i && kept@[j] == orig[w],
        decreases n - i,
    {
        let o = organisms[i];
        proof {
            reveal(Seq::filter);
            assert(orig.take(i as int + 1).drop_last() =~= orig.take(i as int));
            assert(orig.take(i as int + 1).last() == orig[i as int]);
        }
        if !(o.died && o.can_die) {
            kept.push(o);
        }
        i = i + 1;
    }
    proof {
        assert(orig.take(n as int) =~= orig);
    }
    *organisms = kept;
}

} // verus!
