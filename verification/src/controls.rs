use vstd::prelude::*;

verus! {

/// The keys that steer the simulation. Every other key is `Other`.
#[derive(Clone, Copy, Debug, PartialEq, Eq, Structural)]
pub enum Key {
    /// Gravity, while held down.
    G,
    /// Wind, while held down.
    W,
    /// Tint particles by their speed.
    B,
    /// Tint particles by the distance to their nearest neighbour.
    N,
    /// Plain tint.
    V,
    /// Advanced mode: collisions spawn new particles.
    A,
    /// Any other key.
    Other,
}

/// The switches that the keyboard sets.
#[derive(Clone, Copy, Debug, PartialEq, Eq, Structural)]
pub struct Controls {
    pub gravity: bool,
    pub wind: bool,
    pub speed_render_mode: bool,
    pub proximity_render_mode: bool,
    pub advanced_render_mode: bool,
}

impl Controls {
    /// Every switch off.
    pub open spec fn initial() -> Controls {
        Controls {
            gravity: false,
            wind: false,
            speed_render_mode: false,
            proximity_render_mode: false,
            advanced_render_mode: false,
        }
    }

    /// The switches after one keyboard event: gravity and wind are on exactly
    /// while their key is reported pressed and go off on any other key event;
    /// `B`, `N` and `V` pick the tint whether pressed or released; `A` turns
    /// advanced mode on for good.
    pub open spec fn after_key(self, key: Key, pressed: bool) -> Controls {
        Controls {
            gravity: key == Key::G && pressed,
            wind: key == Key::W && pressed,
            speed_render_mode: match key {
                Key::B => true,
                Key::N | Key::V => false,
                _ => self.speed_render_mode,
            },
            proximity_render_mode: match key {
                Key::N => true,
                Key::B | Key::V => false,
                _ => self.proximity_render_mode,
            },
            advanced_render_mode: self.advanced_render_mode || key == Key::A,
        }
    }

    /// At most one of the two tint modes is on.
    pub open spec fn modes_exclusive(self) -> bool {
        !(self.speed_render_mode && self.proximity_render_mode)
    }

    /// All switches off.
    pub fn new() -> (c: Controls)
        ensures
            c == Controls::initial(),
    {
        Controls {
            gravity: false,
            wind: false,
            speed_render_mode: false,
            proximity_render_mode: false,
            advanced_render_mode: false,
        }
    }

    /// Applies one keyboard event: `key`, reported pressed or released.
    pub fn apply_key(&mut self, key: Key, pressed: bool)
        ensures
            *final(self) == old(self).after_key(key, pressed),
            final(self).gravity == (key == Key::G && pressed),
            final(self).wind == (key == Key::W && pressed),
            key == Key::B ==> final(self).speed_render_mode && !final(self).proximity_render_mode,
            key == Key::N ==> !final(self).speed_render_mode && final(self).proximity_render_mode,
            key == Key::V ==> !final(self).speed_render_mode && !final(self).proximity_render_mode,
            final(self).advanced_render_mode == (old(self).advanced_render_mode || key == Key::A),
            key != Key::B && key != Key::N && key != Key::V ==> final(self).speed_render_mode
                == old(self).speed_render_mode && final(self).proximity_render_mode
                == old(self).proximity_render_mode,
    {
        self.gravity = key == Key::G && pressed;
        self.wind = key == Key::W && pressed;
        match key {
            Key::B => {
                self.speed_render_mode = true;
                self.proximity_render_mode = false;
            },
            Key::N => {
                self.proximity_render_mode = true;
                self.speed_render_mode = false;
            },
            Key::V => {
                self.speed_render_mode = false;
                self.proximity_render_mode = false;
            },
            Key::A => {
                self.advanced_render_mode = true;
            },
            _ => {},
        }
    }
}

/// The two tint modes are never on together: no keyboard event turns both on
/// from a state where at most one is on.
pub proof fn lemma_key_keeps_modes_exclusive(c: Controls, key: Key, pressed: bool)
    requires
        c.modes_exclusive(),
    ensures
        c.after_key(key, pressed).modes_exclusive(),
{
}

/// Advanced mode, once on, stays on whatever key comes next.
pub proof fn lemma_advanced_mode_stays_on(c: Controls, key: Key, pressed: bool)
    requires
        c.advanced_render_mode,
    ensures
        c.after_key(key, pressed).advanced_render_mode,
{
}

/// Gravity and wind are never on together.
pub proof fn lemma_gravity_and_wind_exclusive(c: Controls, key: Key, pressed: bool)
    ensures
        !(c.after_key(key, pressed).gravity && c.after_key(key, pressed).wind),
{
}

/// `B`, `N` and `V` pick the tint on every event of theirs, pressed or released:
/// `B` speed, `N` proximity, `V` neither; the same key gives the same tint either
/// way.
pub proof fn lemma_tint_keys_act_on_press_and_release(c: Controls, pressed: bool)
    ensures
        c.after_key(Key::B, pressed).speed_render_mode,
        !c.after_key(Key::B, pressed).proximity_render_mode,
        c.after_key(Key::N, pressed).proximity_render_mode,
        !c.after_key(Key::N, pressed).speed_render_mode,
        !c.after_key(Key::V, pressed).speed_render_mode,
        !c.after_key(Key::V, pressed).proximity_render_mode,
        c.after_key(Key::B, true).speed_render_mode == c.after_key(Key::B, false).speed_render_mode,
        c.after_key(Key::N, true).proximity_render_mode == c.after_key(
            Key::N,
            false,
        ).proximity_render_mode,
{
}

/// Gravity is on after an event exactly when that event is `G` pressed, and wind
/// exactly when it is `W` pressed: any release turns both off.
pub proof fn lemma_forces_follow_the_last_key(c: Controls, key: Key, pressed: bool)
    ensures
        c.after_key(key, pressed).gravity <==> key == Key::G && pressed,
        c.after_key(key, pressed).wind <==> key == Key::W && pressed,
        !c.after_key(key, false).gravity,
        !c.after_key(key, false).wind,
{
}

} // verus!
