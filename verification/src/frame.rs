use vstd::prelude::*;
use crate::controls::Controls;

verus! {

/// Collisions are counted within consecutive groups of this many particles,
/// one group per worker; particles of different groups are never compared.
pub const COLLISION_GROUP: usize = 50;

/// The movement phase splits the particles among this many workers.
pub const MOVEMENT_THREADS: usize = 5;

/// One phase of a simulation step.
#[derive(Clone, Copy, Debug, PartialEq, Eq, Structural)]
pub enum Phase {
    /// Every particle takes a random step, wrapping around the box.
    Movement,
    /// Every particle falls by one step.
    Gravity,
    /// Every particle drifts with the wind.
    Wind,
    /// Close particles are counted as collisions.
    Collision,
    /// New particles are spawned, one per collision counted so far.
    Growth,
}

/// The phases of one step, in order: movement and collisions always, gravity and
/// wind while switched on, growth in advanced mode.
pub open spec fn phases_of(c: Controls) -> Seq<Phase> {
    seq![Phase::Movement]
        + (if c.gravity { seq![Phase::Gravity] } else { Seq::empty() })
        + (if c.wind { seq![Phase::Wind] } else { Seq::empty() })
        + seq![Phase::Collision]
        + (if c.advanced_render_mode { seq![Phase::Growth] } else { Seq::empty() })
}

/// The phases that one step of the simulation runs, in order.
pub fn frame_phases(c: &Controls) -> (v: Vec<Phase>)
    ensures
        v@ == phases_of(*c),
        v@.last() == Phase::Growth <==> c.advanced_render_mode,
        v@.contains(Phase::Growth) <==> c.advanced_render_mode,
        v@.contains(Phase::Gravity) <==> c.gravity,
        v@.contains(Phase::Wind) <==> c.wind,
{
    let mut v: Vec<Phase> = Vec::new();
    v.push(Phase::Movement);
    if c.gravity {
        v.push(Phase::Gravity);
    }
    if c.wind {
        v.push(Phase::Wind);
    }
    v.push(Phase::Collision);
    if c.advanced_render_mode {
        v.push(Phase::Growth);
    }
    proof {
        lemma_phases_follow_their_switches(*c);
    }
    v
}

/// Every step moves the particles first and counts collisions after all forces.
pub proof fn lemma_every_step_moves_and_collides(c: Controls)
    ensures
        phases_of(c)[0] == Phase::Movement,
        phases_of(c).contains(Phase::Collision),
        forall|i: int|
            0 <= i < phases_of(c).len() && (#[trigger] phases_of(c)[i] == Phase::Gravity
                || phases_of(c)[i] == Phase::Wind) ==> !phases_of(c).subrange(0, i).contains(
                Phase::Collision,
            ),
{
    let s = phases_of(c);
    let k: int = 1 + (if c.gravity { 1int } else { 0int }) + (if c.wind { 1int } else { 0int });
    assert(s[k] == Phase::Collision);
    assert forall|i: int|
        0 <= i < s.len() && (#[trigger] s[i] == Phase::Gravity || s[i] == Phase::Wind) implies !s.subrange(
        0,
        i,
    ).contains(Phase::Collision) by {
        assert(i < k);
        assert forall|j: int| 0 <= j < i implies s.subrange(0, i)[j] != Phase::Collision by {
            assert(s.subrange(0, i)[j] == s[j]);
        }
    }
}

/// Growth comes last in a step exactly when advanced mode is on, whatever the
/// forces; gravity and wind run exactly while switched on.
pub proof fn lemma_phases_follow_their_switches(c: Controls)
    ensures
        phases_of(c).last() == Phase::Growth <==> c.advanced_render_mode,
        phases_of(c).contains(Phase::Growth) <==> c.advanced_render_mode,
        phases_of(c).contains(Phase::Gravity) <==> c.gravity,
        phases_of(c).contains(Phase::Wind) <==> c.wind,
{
    let s = phases_of(c);
    if !c.advanced_render_mode {
        assert(forall|i: int| 0 <= i < s.len() ==> s[i] != Phase::Growth);
    } else {
        assert(s[s.len() - 1] == Phase::Growth);
    }
    if !c.gravity {
        assert(forall|i: int| 0 <= i < s.len() ==> s[i] != Phase::Gravity);
    } else {
        assert(s[1] == Phase::Gravity);
    }
    if !c.wind {
        assert(forall|i: int| 0 <= i < s.len() ==> s[i] != Phase::Wind);
    } else {
        let k: int = if c.gravity { 2 } else { 1 };
        assert(s[k] == Phase::Wind);
    }
}

} // verus!
