//! Per-tick actuator controllers: flippers, the launcher plunger, the kicker
//! redirect and the floor-seeking force. Angles are in milliradians, plunger
//! travel in millimetres, velocities in the host's fixed-point units.

use vstd::prelude::*;

verus! {

/// Flipper angle limit, both ways.
pub const FLIPPER_LIMIT: i32 = 300;

/// Angle change per tick while the button is held.
pub const FLIPPER_FAST: i32 = 300;

/// Angle change per tick while the button is released.
pub const FLIPPER_SLOW: i32 = 70;

/// Maximum plunger travel above its rest position.
pub const LAUNCHER_MAX_TRAVEL: u32 = 60;

/// Plunger travel gained per tick while charging.
pub const LAUNCHER_CHARGE: u32 = 30;

/// Plunger travel lost per tick while released.
pub const LAUNCHER_RELEASE: u32 = 20;

pub open spec fn clamp(x: int, lo: int, hi: int) -> int {
    if x < lo {
        lo
    } else if x > hi {
        hi
    } else {
        x
    }
}

#[derive(Clone, Copy, Debug, PartialEq, Eq, Structural)]
pub enum Side {
    Left,
    Right,
}

/// Signed angle change a flipper on `side` asks for in one tick.
pub open spec fn flipper_push(side: Side, pressed: bool) -> int {
    match side {
        Side::Left => if pressed { FLIPPER_FAST as int } else { -FLIPPER_SLOW },
        Side::Right => if pressed { -FLIPPER_FAST } else { FLIPPER_SLOW as int },
    }
}

pub open spec fn next_flipper_angle(side: Side, angle: int, pressed: bool) -> int {
    clamp(angle + flipper_push(side, pressed), -FLIPPER_LIMIT, FLIPPER_LIMIT as int)
}

/// The angle after one tick per entry of `presses`, oldest first.
pub open spec fn flipper_angle_after(side: Side, angle: int, presses: Seq<bool>) -> int
    decreases presses.len(),
{
    if presses.len() == 0 {
        angle
    } else {
        next_flipper_angle(
            side,
            flipper_angle_after(side, angle, presses.drop_last()),
            presses.last(),
        )
    }
}

pub struct Flipper {
    side: Side,
    curr_angle: i32,
}

impl Flipper {
    #[verifier::type_invariant]
    spec fn angle_in_range(self) -> bool {
        -FLIPPER_LIMIT <= self.curr_angle <= FLIPPER_LIMIT
    }

    pub closed spec fn side_spec(self) -> Side {
        self.side
    }

    pub closed spec fn angle_spec(self) -> int {
        self.curr_angle as int
    }

    /// A flipper at rest, at angle zero.
    pub fn new(side: Side) -> (r: Flipper)
        ensures
            r.side_spec() == side,
            r.angle_spec() == 0,
    {
        Flipper { side, curr_angle: 0 }
    }

    pub fn side(&self) -> (r: Side)
        ensures
            r == self.side_spec(),
    {
        self.side
    }

    pub fn angle(&self) -> (r: i32)
        ensures
            r == self.angle_spec(),
            -FLIPPER_LIMIT <= r <= FLIPPER_LIMIT,
    {
        proof {
            use_type_invariant(self);
        }
        self.curr_angle
    }

    /// One tick: moves the angle toward the pressed or the resting limit,
    /// clamped, and returns the rotation to apply about the local up axis.
    pub fn step(&mut self, pressed: bool) -> (delta: i32)
        ensures
            final(self).side_spec() == old(self).side_spec(),
            final(self).angle_spec() == next_flipper_angle(
                old(self).side_spec(),
                old(self).angle_spec(),
                pressed,
            ),
            -FLIPPER_LIMIT <= final(self).angle_spec() <= FLIPPER_LIMIT,
            delta == final(self).angle_spec() - old(self).angle_spec(),
    {
        proof {
            use_type_invariant(&*self);
        }
        let push: i32 = match self.side {
            Side::Left => if pressed { FLIPPER_FAST } else { -FLIPPER_SLOW },
            Side::Right => if pressed { -FLIPPER_FAST } else { FLIPPER_SLOW },
        };
        let raw: i32 = self.curr_angle + push;
        let clamped: i32 = if raw < -FLIPPER_LIMIT {
            -FLIPPER_LIMIT
        } else if raw > FLIPPER_LIMIT {
            FLIPPER_LIMIT
        } else {
            raw
        };
        let delta: i32 = clamped - self.curr_angle;
        self.curr_angle = clamped;
        delta
    }
}

/// Whatever the inputs, a flipper that starts within its limits stays
/// within them after every tick.
pub proof fn lemma_flipper_angle_bounded(side: Side, angle: int, presses: Seq<bool>)
    requires
        -FLIPPER_LIMIT <= angle <= FLIPPER_LIMIT,
    ensures
        -FLIPPER_LIMIT <= flipper_angle_after(side, angle, presses) <= FLIPPER_LIMIT,
    decreases presses.len(),
{
    if presses.len() > 0 {
        lemma_flipper_angle_bounded(side, angle, presses.drop_last());
    }
}

pub open spec fn next_launcher_travel(travel: int, pressed: bool) -> int {
    clamp(
        if pressed { travel + LAUNCHER_CHARGE } else { travel - LAUNCHER_RELEASE },
        0,
        LAUNCHER_MAX_TRAVEL as int,
    )
}

pub struct Launcher {
    travel: u32,
}

impl Launcher {
    #[verifier::type_invariant]
    spec fn travel_in_range(self) -> bool {
        self.travel <= LAUNCHER_MAX_TRAVEL
    }

    pub closed spec fn travel_spec(self) -> int {
        self.travel as int
    }

    /// A plunger at its rest position.
    pub fn new() -> (r: Launcher)
        ensures
            r.travel_spec() == 0,
    {
        Launcher { travel: 0 }
    }

    pub fn travel(&self) -> (r: u32)
        ensures
            r == self.travel_spec(),
            r <= LAUNCHER_MAX_TRAVEL,
    {
        proof {
            use_type_invariant(self);
        }
        self.travel
    }

    /// One tick: charges while held, creeps back to rest otherwise, clamped
    /// to `[0, LAUNCHER_MAX_TRAVEL]`. Returns the new travel.
    pub fn step(&mut self, pressed: bool) -> (r: u32)
        ensures
            final(self).travel_spec() == next_launcher_travel(old(self).travel_spec(), pressed),
            r == final(self).travel_spec(),
            r <= LAUNCHER_MAX_TRAVEL,
    {
        proof {
            use_type_invariant(&*self);
        }
        let next: u32 = if pressed {
            if self.travel + LAUNCHER_CHARGE > LAUNCHER_MAX_TRAVEL {
                LAUNCHER_MAX_TRAVEL
            } else {
                self.travel + LAUNCHER_CHARGE
            }
        } else {
            if self.travel < LAUNCHER_RELEASE {
                0
            } else {
                self.travel - LAUNCHER_RELEASE
            }
        };
        self.travel = next;
        next
    }
}

/// A linear velocity in fixed-point units.
#[derive(Clone, Copy, Debug, PartialEq, Eq, Structural)]
pub struct Velocity {
    pub x: i64,
    pub y: i64,
    pub z: i64,
}

impl Velocity {
    pub open spec fn is_zero_spec(self) -> bool {
        self.x == 0 && self.y == 0 && self.z == 0
    }

    pub fn zero() -> (r: Velocity)
        ensures
            r.is_zero_spec(),
    {
        Velocity { x: 0, y: 0, z: 0 }
    }

    pub fn is_zero(&self) -> (r: bool)
        ensures
            r == self.is_zero_spec(),
    {
        self.x == 0 && self.y == 0 && self.z == 0
    }
}

/// The direction of a kicker impulse: the ball's own heading at separation,
/// or none for a ball at rest, whose heading is undefined.
pub open spec fn kick_direction_spec(v: Velocity) -> Option<Velocity> {
    if v.is_zero_spec() {
        None
    } else {
        Some(v)
    }
}

pub fn kick_direction(v: Velocity) -> (r: Option<Velocity>)
    ensures
        r == kick_direction_spec(v),
{
    if v.is_zero() {
        None
    } else {
        Some(v)
    }
}

/// What the floor-seeking controller applies to a ball this tick.
#[derive(Clone, Copy, Debug, PartialEq, Eq, Structural)]
pub enum FloorForce {
    /// A small constant force toward the floor.
    Settle,
    /// No applied force.
    Release,
}

pub open spec fn floor_force_spec(time_of_impact: Option<u64>) -> FloorForce {
    match time_of_impact {
        Some(t) => if t > 0 { FloorForce::Settle } else { FloorForce::Release },
        None => FloorForce::Release,
    }
}

/// Decides the floor force from a downward shape cast: a hit some distance
/// below means the ball is airborne and is pushed down; resting on the floor
/// or no floor below releases it.
pub fn floor_force(time_of_impact: Option<u64>) -> (r: FloorForce)
    ensures
        r == floor_force_spec(time_of_impact),
{
    match time_of_impact {
        Some(t) => if t > 0 { FloorForce::Settle } else { FloorForce::Release },
        None => FloorForce::Release,
    }
}

} // verus!
