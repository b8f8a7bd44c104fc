use vstd::prelude::*;

verus! {

/// How many particles `init` adds when asked for `size`: none for a size of zero
/// or below.
pub open spec fn spawn_count(size: i32) -> nat {
    if size > 0 {
        size as nat
    } else {
        0
    }
}

/// A system of particles of type `P`, with the number of collisions counted so
/// far.
#[derive(Debug, Clone)]
pub struct ParticleSystem<P> {
    pub particle_list: Vec<P>,
    pub collisions: u32,
}

impl<P> ParticleSystem<P> {
    /// An empty system that has counted no collision.
    pub fn new() -> (s: Self)
        ensures
            s.particle_list@ == Seq::<P>::empty(),
            s.collisions == 0,
    {
        ParticleSystem { particle_list: Vec::new(), collisions: 0 }
    }

    /// Appends `size` particles made by `make` (none where `size` is zero or
    /// below), keeping those already there and the collision count.
    pub fn init<F: Fn() -> P>(&mut self, size: i32, make: F)
        requires
            forall|u: ()| #[trigger] make.requires(u),
        ensures
            final(self).particle_list@.len() == old(self).particle_list@.len() + spawn_count(size),
            final(self).particle_list@.subrange(0, old(self).particle_list@.len() as int)
                == old(self).particle_list@,
            forall|k: int|
                old(self).particle_list@.len() <= k < final(self).particle_list@.len()
                    ==> make.ensures((), #[trigger] final(self).particle_list@[k]),
            final(self).collisions == old(self).collisions,
    {
        let ghost start = self.particle_list@;
        let mut id: i32 = 0;
        while id < size
            invariant
                0 <= id,
                size > 0 ==> id <= size,
                size <= 0 ==> id == 0,
                forall|u: ()| #[trigger] make.requires(u),
                self.particle_list@.len() == start.len() + id,
                self.particle_list@.subrange(0, start.len() as int) == start,
                forall|k: int|
                    start.len() <= k < self.particle_list@.len() ==> make.ensures(
                        (),
                        #[trigger] self.particle_list@[k],
                    ),
                self.collisions == old(self).collisions,
            decreases size - id,
        {
            let p = make();
            self.particle_list.push(p);
            id = id + 1;
        }
    }
}

/// The particle count and the request to `init` after a frame in advanced mode:
/// the count grows by the collisions counted so far, and `init` is asked for
/// as many particles, the counter taken as an `i32` (wrapping, as `as` does).
/// `None` where the count would pass `usize::MAX`.
pub open spec fn growth(num_particles: usize, collisions: u32) -> Option<(usize, i32)> {
    if num_particles + collisions <= usize::MAX {
        Some(((num_particles + collisions) as usize, collisions as i32))
    } else {
        None
    }
}

/// In advanced mode, what a frame does to the particle count and what it asks
/// of `init`.
pub fn advanced_growth(num_particles: usize, collisions: u32) -> (r: Option<(usize, i32)>)
    ensures
        r == growth(num_particles, collisions),
        r is None <==> num_particles + collisions > usize::MAX,
        r is Some ==> r.unwrap().0 == num_particles + collisions,
        r is Some && collisions <= i32::MAX ==> r.unwrap().1 == collisions,
{
    let extra = collisions as usize;
    if num_particles > usize::MAX - extra {
        None
    } else {
        Some((num_particles + extra, collisions as i32))
    }
}

/// While the collision counter stays at or below `i32::MAX`, growing keeps the
/// particle list as long as the particle count: `init` adds exactly as many
/// particles as the count grew by.
pub proof fn lemma_growth_keeps_count(num_particles: usize, collisions: u32)
    requires
        collisions <= i32::MAX,
        growth(num_particles, collisions) is Some,
    ensures
        num_particles + spawn_count(growth(num_particles, collisions).unwrap().1)
            == growth(num_particles, collisions).unwrap().0,
{
}

/// Past `i32::MAX` collisions, the request to `init` comes out negative and no
/// particle is added, though the count still grows.
pub proof fn lemma_growth_past_i32_spawns_none(num_particles: usize, collisions: u32)
    requires
        collisions > i32::MAX,
        growth(num_particles, collisions) is Some,
    ensures
        spawn_count(growth(num_particles, collisions).unwrap().1) == 0,
{
    assert((collisions as i32) < 0) by (bit_vector)
        requires
            collisions > 0x7fff_ffffu32,
    ;
}

/// Where it does not overflow, a step in advanced mode grows the particle count
/// by exactly the collisions counted so far, and asks `init` for that many new
/// particles while the counter fits an `i32`.
pub proof fn lemma_growth_is_by_the_collisions(num_particles: usize, collisions: u32)
    ensures
        growth(num_particles, collisions) is Some <==> num_particles + collisions <= usize::MAX,
        growth(num_particles, collisions) is Some ==> growth(num_particles, collisions).unwrap().0
            - num_particles == collisions,
        growth(num_particles, collisions) is Some && collisions <= i32::MAX ==> growth(
            num_particles,
            collisions,
        ).unwrap().1 == collisions,
        growth(num_particles, collisions) is Some && collisions <= i32::MAX ==> spawn_count(
            growth(num_particles, collisions).unwrap().1,
        ) == collisions,
{
}

} // verus!
