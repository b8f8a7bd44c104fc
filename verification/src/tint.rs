use vstd::prelude::*;
use crate::controls::Controls;

verus! {

/// The colour channel a particle is drawn in.
#[derive(Clone, Copy, Debug, PartialEq, Eq, Structural)]
pub enum Channel {
    Red,
    Blue,
}

/// What sets the strength of a particle's colour.
#[derive(Clone, Copy, Debug, PartialEq, Eq, Structural)]
pub enum Shade {
    /// Full strength.
    Full,
    /// The particle's speed.
    Speed,
    /// The distance to the particle's nearest neighbour.
    Proximity,
}

/// How a particle is drawn.
#[derive(Clone, Copy, Debug, PartialEq, Eq, Structural)]
pub struct Tint {
    pub channel: Channel,
    pub shade: Shade,
}

/// The particles that the system started with are red, those spawned later are
/// blue; the strength follows the speed in speed mode, the nearest neighbour in
/// proximity mode, and is full otherwise.
pub open spec fn tint_of(c: Controls, index: usize, original: usize) -> Tint {
    Tint {
        channel: if index < original { Channel::Red } else { Channel::Blue },
        shade: if c.speed_render_mode {
            Shade::Speed
        } else if c.proximity_render_mode {
            Shade::Proximity
        } else {
            Shade::Full
        },
    }
}

/// How to draw particle `index`, where the first `original` particles are those
/// the system started with.
pub fn particle_tint(c: &Controls, index: usize, original: usize) -> (t: Tint)
    ensures
        t == tint_of(*c, index, original),
        t.channel == Channel::Red <==> index < original,
        c.speed_render_mode ==> t.shade == Shade::Speed,
        !c.speed_render_mode && c.proximity_render_mode ==> t.shade == Shade::Proximity,
        !c.speed_render_mode && !c.proximity_render_mode ==> t.shade == Shade::Full,
{
    let channel = if index < original { Channel::Red } else { Channel::Blue };
    let shade = if c.speed_render_mode {
        Shade::Speed
    } else if c.proximity_render_mode {
        Shade::Proximity
    } else {
        Shade::Full
    };
    Tint { channel, shade }
}

/// A particle's channel depends on where it stands in the list alone, never on
/// the switches.
pub proof fn lemma_channel_ignores_controls(a: Controls, b: Controls, index: usize, original: usize)
    ensures
        tint_of(a, index, original).channel == tint_of(b, index, original).channel,
{
}

/// A particle's shade depends on the switches alone, never on where the
/// particle stands in the list or on how many particles the system started with.
pub proof fn lemma_shade_ignores_position(
    c: Controls,
    index_a: usize,
    original_a: usize,
    index_b: usize,
    original_b: usize,
)
    ensures
        tint_of(c, index_a, original_a).shade == tint_of(c, index_b, original_b).shade,
{
}

/// Each tint mode shades every particle, old or new, by its own measure: speed
/// mode by speed, proximity mode by the nearest neighbour, and plain mode at full
/// strength; and a particle is red exactly when it is one of the first
/// `original`.
pub proof fn lemma_mode_picks_every_shade(c: Controls, index: usize, original: usize)
    ensures
        c.speed_render_mode ==> tint_of(c, index, original).shade == Shade::Speed,
        !c.speed_render_mode && c.proximity_render_mode ==> tint_of(c, index, original).shade
            == Shade::Proximity,
        !c.speed_render_mode && !c.proximity_render_mode ==> tint_of(c, index, original).shade
            == Shade::Full,
        (tint_of(c, index, original).channel == Channel::Red) == (index < original),
{
}

} // verus!
