//! The table's game state: balls, lamps (bumpers and pins) and sensor zones,
//! each known by an id the table hands out, plus the end-game latch. Contact
//! events from the physics engine are applied here; what the engine must do
//! in return (spawn, despawn, push a ball) comes back as a list of actions.

pub mod contact;
pub mod drain;
pub mod end_game;

use vstd::prelude::*;
use crate::actuators::Velocity;
use crate::ball::{Ball, MaterialColor, new_ball_spec, spawn_single_ball};
use crate::lamp::{Lamp, LampKind};

verus! {

/// Captured balls it takes to start the end game.
pub const CAPTURE_THRESHOLD: u64 = 5;

/// What a sensor or reactive zone does when a ball touches it.
#[derive(Clone, Copy, Debug, PartialEq, Eq, Structural)]
pub enum ZoneRole {
    /// Above the one-way gate: a ball passing it may no longer go back.
    GateSensor,
    /// Inside the collector box: a ball entering it is captured.
    CollectorSensor,
    /// Stops the ball and sends it toward the star ramp.
    Target,
    /// Below the flippers: a ball reaching it leaves play.
    Drain,
    /// A passive body (a wall, a lid) known to the table only so that the
    /// end game can remove it.
    Fixture,
}

#[derive(Clone, Copy, Debug, PartialEq, Eq, Structural)]
pub struct Zone {
    pub id: u64,
    pub role: ZoneRole,
    /// Removed from the table when the end game begins.
    pub despawn_in_end_game: bool,
}

#[derive(Clone, Copy, Debug, PartialEq, Eq, Structural)]
pub enum ContactKind {
    Started,
    Stopped,
}

/// A contact between two bodies began or ended.
#[derive(Clone, Copy, Debug, PartialEq, Eq, Structural)]
pub struct ContactEvent {
    pub kind: ContactKind,
    pub a: u64,
    pub b: u64,
}

impl ContactEvent {
    pub open spec fn touches(self, id: u64) -> bool {
        self.a == id || self.b == id
    }

    pub open spec fn swapped(self) -> ContactEvent {
        ContactEvent { kind: self.kind, a: self.b, b: self.a }
    }
}

/// What the physics engine is asked to do.
#[derive(Clone, Copy, Debug, PartialEq, Eq, Structural)]
pub enum Action {
    /// Create a ball at the launch position.
    SpawnBall { id: u64, color: MaterialColor },
    /// Remove an entity, with its children.
    Despawn { id: u64 },
    /// Push a ball with a fixed-magnitude impulse along `direction`.
    Kick { ball: u64, direction: Velocity },
    /// Stop a ball and push it diagonally toward the star ramp.
    Redirect { ball: u64 },
}

/// The table as a mathematical value.
pub struct TableView {
    /// Balls in play, in the order they were spawned.
    pub balls: Seq<Ball>,
    /// Bumpers and pins.
    pub lamps: Seq<Lamp>,
    /// Sensors, targets and fixtures.
    pub zones: Seq<Zone>,
    /// The end game has begun: drained balls are no longer replaced.
    pub end_game: bool,
    /// The end-game cleanup has run.
    pub cleaned_up: bool,
    /// Balls the collector has captured.
    pub captured: nat,
    /// The id the next entity gets; every id in use is below it.
    pub next_id: nat,
}

/// Ids are below the counter and name one entity each; the captured count
/// is bounded by the ids handed out; the end game has begun once enough
/// balls were captured, and before any cleanup.
pub open spec fn table_wf(v: TableView) -> bool {
    &&& v.next_id <= u64::MAX
    &&& forall|i: int| 0 <= i < v.balls.len() ==> #[trigger] v.balls[i].id < v.next_id
    &&& forall|i: int| 0 <= i < v.lamps.len() ==> #[trigger] v.lamps[i].id < v.next_id
    &&& forall|i: int| 0 <= i < v.zones.len() ==> #[trigger] v.zones[i].id < v.next_id
    &&& forall|i: int, j: int|
        0 <= i < v.balls.len() && 0 <= j < v.balls.len() && i != j ==> #[trigger] v.balls[i].id
            != #[trigger] v.balls[j].id
    &&& forall|i: int, j: int|
        0 <= i < v.lamps.len() && 0 <= j < v.lamps.len() && i != j ==> #[trigger] v.lamps[i].id
            != #[trigger] v.lamps[j].id
    &&& forall|i: int, j: int|
        0 <= i < v.zones.len() && 0 <= j < v.zones.len() && i != j ==> #[trigger] v.zones[i].id
            != #[trigger] v.zones[j].id
    &&& forall|i: int, j: int|
        0 <= i < v.balls.len() && 0 <= j < v.lamps.len() ==> #[trigger] v.balls[i].id
            != #[trigger] v.lamps[j].id
    &&& forall|i: int, j: int|
        0 <= i < v.balls.len() && 0 <= j < v.zones.len() ==> #[trigger] v.balls[i].id
            != #[trigger] v.zones[j].id
    &&& forall|i: int, j: int|
        0 <= i < v.lamps.len() && 0 <= j < v.zones.len() ==> #[trigger] v.lamps[i].id
            != #[trigger] v.zones[j].id
    &&& v.captured <= v.next_id
    &&& v.captured >= CAPTURE_THRESHOLD ==> v.end_game
    &&& v.cleaned_up ==> v.end_game
}

fn set_velocity_of(balls: &mut Vec<Ball>, id: u64, velocity: Velocity)
    ensures
        final(balls)@ == old(balls)@.map_values(
            |b: Ball| if b.id == id { Ball { velocity, ..b } } else { b },
        ),
{
    let ghost start = balls@;
    let mut i: usize = 0;
    while i < balls.len()
        invariant
            i <= balls@.len(),
            balls@.len() == start.len(),
            forall|j: int|
                0 <= j < i ==> balls@[j] == (if start[j].id == id {
                    Ball { velocity, ..start[j] }
                } else {
                    start[j]
                }),
            forall|j: int| i <= j < balls@.len() ==> balls@[j] == start[j],
        decreases balls@.len() - i,
    {
        let b = balls[i];
        if b.id == id {
            balls.set(i, Ball { id: b.id, groups: b.groups, color: b.color, velocity });
        }
        i += 1;
    }
    assert(balls@ =~= start.map_values(
        |b: Ball| if b.id == id { Ball { velocity, ..b } } else { b },
    ));
}

pub struct Table {
    balls: Vec<Ball>,
    lamps: Vec<Lamp>,
    zones: Vec<Zone>,
    end_game: bool,
    cleaned_up: bool,
    captured: u64,
    next_id: u64,
}

impl View for Table {
    type V = TableView;

    closed spec fn view(&self) -> TableView {
        TableView {
            balls: self.balls@,
            lamps: self.lamps@,
            zones: self.zones@,
            end_game: self.end_game,
            cleaned_up: self.cleaned_up,
            captured: self.captured as nat,
            next_id: self.next_id as nat,
        }
    }
}

impl Table {
    /// An empty table before the game starts.
    pub fn new() -> (r: Table)
        ensures
            table_wf(r@),
            r@.balls.len() == 0,
            r@.lamps.len() == 0,
            r@.zones.len() == 0,
            !r@.end_game,
            !r@.cleaned_up,
            r@.captured == 0,
            r@.next_id == 0,
    {
        Table {
            balls: Vec::new(),
            lamps: Vec::new(),
            zones: Vec::new(),
            end_game: false,
            cleaned_up: false,
            captured: 0,
            next_id: 0,
        }
    }

    pub fn balls(&self) -> (r: &Vec<Ball>)
        ensures
            r@ == self@.balls,
    {
        &self.balls
    }

    pub fn lamps(&self) -> (r: &Vec<Lamp>)
        ensures
            r@ == self@.lamps,
    {
        &self.lamps
    }

    pub fn zones(&self) -> (r: &Vec<Zone>)
        ensures
            r@ == self@.zones,
    {
        &self.zones
    }

    /// The end game has begun: no more balls are spawned from the drain.
    pub fn is_end_game(&self) -> (r: bool)
        ensures
            r == self@.end_game,
    {
        self.end_game
    }

    pub fn is_cleaned_up(&self) -> (r: bool)
        ensures
            r == self@.cleaned_up,
    {
        self.cleaned_up
    }

    pub fn captured(&self) -> (r: u64)
        ensures
            r == self@.captured,
    {
        self.captured
    }

    /// The id the next entity will get.
    pub fn next_id(&self) -> (r: u64)
        ensures
            r == self@.next_id,
    {
        self.next_id
    }

    /// Registers a bumper or pin and returns its id.
    pub fn add_lamp(&mut self, kind: LampKind, despawn_in_end_game: bool) -> (id: u64)
        requires
            table_wf(old(self)@),
            old(self)@.next_id < u64::MAX,
        ensures
            table_wf(final(self)@),
            id == old(self)@.next_id,
            final(self)@ == (TableView {
                lamps: old(self)@.lamps.push(
                    Lamp { id, kind, last_hit_ms: 0, lit: false, despawn_in_end_game },
                ),
                next_id: old(self)@.next_id + 1,
                ..old(self)@
            }),
    {
        let id = self.next_id;
        self.lamps.push(Lamp::new(id, kind, despawn_in_end_game));
        self.next_id = id + 1;
        id
    }

    /// Registers a sensor or target zone and returns its id.
    pub fn add_zone(&mut self, role: ZoneRole, despawn_in_end_game: bool) -> (id: u64)
        requires
            table_wf(old(self)@),
            old(self)@.next_id < u64::MAX,
        ensures
            table_wf(final(self)@),
            id == old(self)@.next_id,
            final(self)@ == (TableView {
                zones: old(self)@.zones.push(Zone { id, role, despawn_in_end_game }),
                next_id: old(self)@.next_id + 1,
                ..old(self)@
            }),
    {
        let id = self.next_id;
        self.zones.push(Zone { id, role, despawn_in_end_game });
        self.next_id = id + 1;
        id
    }

    /// Puts a new ball of colour `color` at the launch position and returns
    /// its id.
    pub fn spawn_ball(&mut self, color: MaterialColor) -> (id: u64)
        requires
            table_wf(old(self)@),
            old(self)@.next_id < u64::MAX,
        ensures
            table_wf(final(self)@),
            id == old(self)@.next_id,
            final(self)@ == spawned(old(self)@, color),
    {
        let id = self.next_id;
        self.balls.push(spawn_single_ball(id, color));
        self.next_id = id + 1;
        id
    }

    /// Records the velocity the physics engine reports for ball `id`.
    pub fn set_ball_velocity(&mut self, id: u64, velocity: Velocity)
        requires
            table_wf(old(self)@),
        ensures
            table_wf(final(self)@),
            final(self)@ == velocity_next(old(self)@, id, velocity),
    {
        let ghost v = self@;
        set_velocity_of(&mut self.balls, id, velocity);
        proof {
            assert forall|i: int, j: int|
                0 <= i < self.balls@.len() && 0 <= j < self.balls@.len() && i != j
                    implies #[trigger] self.balls@[i].id != #[trigger] self.balls@[j].id by {
                assert(self.balls@[i].id == v.balls[i].id);
                assert(self.balls@[j].id == v.balls[j].id);
            }
            assert forall|i: int| 0 <= i < self.balls@.len() implies #[trigger] self.balls@[i].id
                < v.next_id by {
                assert(self.balls@[i].id == v.balls[i].id);
            }
        }
    }


    /// Turns dark every lamp whose last hit is more than the cooldown ago.
    pub fn change_bumper_to_dark_color(&mut self, now_ms: u64)
        requires
            table_wf(old(self)@),
        ensures
            table_wf(final(self)@),
            final(self)@ == cool_down_next(old(self)@, now_ms),
    {
        let ghost v = self@;
        cool_lamps(&mut self.lamps, now_ms);
        proof {
            assert forall|i: int| 0 <= i < self.lamps@.len() implies #[trigger] self.lamps@[i].id
                < v.next_id by {
                assert(self.lamps@[i].id == v.lamps[i].id);
            }
        }
    }
}

pub open spec fn velocity_next(v: TableView, id: u64, velocity: Velocity) -> TableView {
    TableView {
        balls: v.balls.map_values(|b: Ball| if b.id == id { Ball { velocity, ..b } } else { b }),
        ..v
    }
}

pub open spec fn cool_down_next(v: TableView, now_ms: u64) -> TableView {
    TableView { lamps: v.lamps.map_values(|l: Lamp| l.cool_down_spec(now_ms)), ..v }
}

pub open spec fn spawned(v: TableView, color: MaterialColor) -> TableView {
    TableView { balls: v.balls.push(new_ball_spec(v.next_id as u64, color)), next_id: v.next_id + 1, ..v }
}

fn cool_lamps(lamps: &mut Vec<Lamp>, now_ms: u64)
    ensures
        final(lamps)@ == old(lamps)@.map_values(|l: Lamp| l.cool_down_spec(now_ms)),
{
    let ghost start = lamps@;
    let mut i: usize = 0;
    while i < lamps.len()
        invariant
            i <= lamps@.len(),
            lamps@.len() == start.len(),
            forall|j: int| 0 <= j < i ==> lamps@[j] == start[j].cool_down_spec(now_ms),
            forall|j: int| i <= j < lamps@.len() ==> lamps@[j] == start[j],
        decreases lamps@.len() - i,
    {
        let mut l = lamps[i];
        l.cool_down(now_ms);
        lamps.set(i, l);
        i += 1;
    }
    assert(lamps@ =~= start.map_values(|l: Lamp| l.cool_down_spec(now_ms)));
}

} // verus!
