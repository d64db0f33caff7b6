//! Bumpers and pins: struck lamps that light up on contact and go dark again
//! once a cooldown has passed without a new hit. Times are in milliseconds
//! since startup; a hit time of zero means "never hit".

use vstd::prelude::*;

verus! {

/// How long a lamp stays lit after its last hit.
pub const COOLDOWN_MS: u64 = 1000;

#[derive(Clone, Copy, Debug, PartialEq, Eq, Structural)]
pub enum LampKind {
    Bumper,
    Pin,
}

#[derive(Clone, Copy, Debug, PartialEq, Eq, Structural)]
pub struct Lamp {
    pub id: u64,
    pub kind: LampKind,
    /// Time of the last hit, zero if never hit.
    pub last_hit_ms: u64,
    /// Showing the light colour rather than the dark one.
    pub lit: bool,
    /// Removed from the table when the end game begins.
    pub despawn_in_end_game: bool,
}

impl Lamp {
    pub open spec fn hit_spec(self, now_ms: u64) -> Lamp {
        Lamp { last_hit_ms: now_ms, lit: true, ..self }
    }

    pub open spec fn cooled_spec(self, now_ms: u64) -> bool {
        self.last_hit_ms > 0 && now_ms - self.last_hit_ms > COOLDOWN_MS
    }

    pub open spec fn cool_down_spec(self, now_ms: u64) -> Lamp {
        if self.cooled_spec(now_ms) {
            Lamp { lit: false, ..self }
        } else {
            self
        }
    }

    /// A dark lamp that was never hit.
    pub fn new(id: u64, kind: LampKind, despawn_in_end_game: bool) -> (r: Lamp)
        ensures
            r == (Lamp { id, kind, last_hit_ms: 0, lit: false, despawn_in_end_game }),
    {
        Lamp { id, kind, last_hit_ms: 0, lit: false, despawn_in_end_game }
    }

    /// A contact began: light up and stamp the hit time.
    pub fn hit(&mut self, now_ms: u64)
        ensures
            *final(self) == old(self).hit_spec(now_ms),
    {
        self.last_hit_ms = now_ms;
        self.lit = true;
    }

    /// Goes dark once more than the cooldown has passed since the last hit.
    pub fn cool_down(&mut self, now_ms: u64)
        ensures
            *final(self) == old(self).cool_down_spec(now_ms),
    {
        if self.last_hit_ms > 0 && now_ms > self.last_hit_ms && now_ms - self.last_hit_ms
            > COOLDOWN_MS {
            self.lit = false;
        }
    }
}

/// After a hit at a nonzero time, with no further hit, a lamp is dark at
/// time `t` exactly when more than the cooldown has passed since the hit.
pub proof fn lemma_lamp_cooldown(lamp: Lamp, hit_ms: u64, t: u64)
    requires
        hit_ms > 0,
    ensures
        lamp.hit_spec(hit_ms).lit,
        lamp.hit_spec(hit_ms).last_hit_ms == hit_ms,
        lamp.hit_spec(hit_ms).cool_down_spec(t).lit <==> t - hit_ms <= COOLDOWN_MS,
{
}

} // verus!
