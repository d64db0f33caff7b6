//! Contact events: what a beginning or ending contact between two bodies
//! does to the table, and the actions it asks of the physics engine.

use vstd::prelude::*;
use crate::actuators::{Velocity, kick_direction, kick_direction_spec};
use crate::ball::{Ball, MaterialColor, new_ball_spec, spawn_single_ball};
use crate::groups::{CollisionGroups, GROUP_GATE, GROUP_LID};
use crate::lamp::Lamp;
use super::{Action, CAPTURE_THRESHOLD, ContactEvent, ContactKind, Table, TableView, Zone, ZoneRole, table_wf};

verus! {

pub open spec fn zone_touched(zones: Seq<Zone>, e: ContactEvent, role: ZoneRole) -> bool {
    exists|i: int| 0 <= i < zones.len() && #[trigger] zones[i].role == role && e.touches(zones[i].id)
}

pub open spec fn lamp_touched(lamps: Seq<Lamp>, e: ContactEvent) -> bool {
    exists|i: int| 0 <= i < lamps.len() && e.touches(#[trigger] lamps[i].id)
}

/// Some ball in the contact does not carry the lid bit yet.
pub open spec fn newly_captured(balls: Seq<Ball>, e: ContactEvent) -> bool {
    exists|i: int|
        0 <= i < balls.len() && e.touches(#[trigger] balls[i].id) && balls[i].groups.filters
            & GROUP_LID == 0
}

pub open spec fn lamp_after_start(l: Lamp, e: ContactEvent, now_ms: u64) -> Lamp {
    if e.touches(l.id) {
        l.hit_spec(now_ms)
    } else {
        l
    }
}

/// A ball once a contact has begun: a gate sensor opens the one-way gate
/// to it permanently, the collector shuts its lid over it, a target halts it.
pub open spec fn ball_after_start(
    b: Ball,
    e: ContactEvent,
    gate: bool,
    collector: bool,
    target: bool,
) -> Ball {
    if !e.touches(b.id) {
        b
    } else {
        let f1 = if gate {
            b.groups.filters | GROUP_GATE
        } else {
            b.groups.filters
        };
        let f2 = if collector {
            f1 | GROUP_LID
        } else {
            f1
        };
        Ball {
            groups: CollisionGroups { memberships: b.groups.memberships, filters: f2 },
            velocity: if target {
                Velocity { x: 0, y: 0, z: 0 }
            } else {
                b.velocity
            },
            ..b
        }
    }
}

/// The action one ball in the contact gets: a redirect from a target when
/// the contact begins, a kick when it ends against a lamp.
pub open spec fn ball_action(b: Ball, e: ContactEvent, react: bool) -> Option<Action> {
    if e.touches(b.id) && react {
        match e.kind {
            ContactKind::Started => Some(Action::Redirect { ball: b.id }),
            ContactKind::Stopped => match kick_direction_spec(b.velocity) {
                Some(d) => Some(Action::Kick { ball: b.id, direction: d }),
                None => None,
            },
        }
    } else {
        None
    }
}

pub open spec fn ball_actions(balls: Seq<Ball>, e: ContactEvent, react: bool) -> Seq<Action>
    decreases balls.len(),
{
    if balls.len() == 0 {
        Seq::empty()
    } else {
        let rest = ball_actions(balls.drop_last(), e, react);
        match ball_action(balls.last(), e, react) {
            Some(a) => rest.push(a),
            None => rest,
        }
    }
}

/// Whether the balls in the contact react: to a target when it begins, to a
/// lamp when it ends.
pub open spec fn reacts(v: TableView, e: ContactEvent) -> bool {
    match e.kind {
        ContactKind::Started => zone_touched(v.zones, e, ZoneRole::Target),
        ContactKind::Stopped => lamp_touched(v.lamps, e),
    }
}

/// A contact that begins between the collector and a ball without the lid bit.
pub open spec fn captures(v: TableView, e: ContactEvent) -> bool {
    e.kind == ContactKind::Started && zone_touched(v.zones, e, ZoneRole::CollectorSensor)
        && newly_captured(v.balls, e)
}

pub open spec fn event_next(
    v: TableView,
    e: ContactEvent,
    now_ms: u64,
    color: MaterialColor,
) -> TableView {
    match e.kind {
        ContactKind::Stopped => v,
        ContactKind::Started => {
            let gate = zone_touched(v.zones, e, ZoneRole::GateSensor);
            let collector = zone_touched(v.zones, e, ZoneRole::CollectorSensor);
            let target = zone_touched(v.zones, e, ZoneRole::Target);
            let balls = v.balls.map_values(
                |b: Ball| ball_after_start(b, e, gate, collector, target),
            );
            let lamps = v.lamps.map_values(|l: Lamp| lamp_after_start(l, e, now_ms));
            if captures(v, e) {
                TableView {
                    balls: balls.push(new_ball_spec(v.next_id as u64, color)),
                    lamps,
                    captured: v.captured + 1,
                    next_id: v.next_id + 1,
                    end_game: v.end_game || v.captured + 1 >= CAPTURE_THRESHOLD,
                    ..v
                }
            } else {
                TableView { balls, lamps, ..v }
            }
        },
    }
}

pub open spec fn event_actions(v: TableView, e: ContactEvent, color: MaterialColor) -> Seq<
    Action,
> {
    let acts = ball_actions(v.balls, e, reacts(v, e));
    if captures(v, e) {
        acts.push(Action::SpawnBall { id: v.next_id as u64, color })
    } else {
        acts
    }
}

fn touches(e: &ContactEvent, id: u64) -> (r: bool)
    ensures
        r == e.touches(id),
{
    e.a == id || e.b == id
}

fn any_zone_touched(zones: &Vec<Zone>, e: &ContactEvent, role: ZoneRole) -> (r: bool)
    ensures
        r == zone_touched(zones@, *e, role),
{
    let mut i: usize = 0;
    while i < zones.len()
        invariant
            i <= zones@.len(),
            forall|j: int| 0 <= j < i ==> !(#[trigger] zones@[j].role == role && e.touches(zones@[j].id)),
        decreases zones@.len() - i,
    {
        let z = zones[i];
        if z.role == role && touches(e, z.id) {
            assert(zones@[i as int].role == role && e.touches(zones@[i as int].id));
            return true;
        }
        i += 1;
    }
    false
}

fn any_lamp_touched(lamps: &Vec<Lamp>, e: &ContactEvent) -> (r: bool)
    ensures
        r == lamp_touched(lamps@, *e),
{
    let mut i: usize = 0;
    while i < lamps.len()
        invariant
            i <= lamps@.len(),
            forall|j: int| 0 <= j < i ==> !e.touches(#[trigger] lamps@[j].id),
        decreases lamps@.len() - i,
    {
        if touches(e, lamps[i].id) {
            assert(e.touches(lamps@[i as int].id));
            return true;
        }
        i += 1;
    }
    false
}

fn any_new_capture(balls: &Vec<Ball>, e: &ContactEvent) -> (r: bool)
    ensures
        r == newly_captured(balls@, *e),
{
    let mut i: usize = 0;
    while i < balls.len()
        invariant
            i <= balls@.len(),
            forall|j: int|
                0 <= j < i ==> !(e.touches(#[trigger] balls@[j].id) && balls@[j].groups.filters
                    & GROUP_LID == 0),
        decreases balls@.len() - i,
    {
        let b = balls[i];
        if touches(e, b.id) && b.groups.filters & GROUP_LID == 0 {
            assert(e.touches(balls@[i as int].id) && balls@[i as int].groups.filters & GROUP_LID
                == 0);
            return true;
        }
        i += 1;
    }
    false
}

fn collect_ball_actions(balls: &Vec<Ball>, e: &ContactEvent, react: bool) -> (r: Vec<Action>)
    ensures
        r@ == ball_actions(balls@, *e, react),
{
    let mut acts: Vec<Action> = Vec::new();
    let mut i: usize = 0;
    while i < balls.len()
        invariant
            i <= balls@.len(),
            acts@ == ball_actions(balls@.take(i as int), *e, react),
        decreases balls@.len() - i,
    {
        let b = balls[i];
        proof {
            let s = balls@.take(i as int + 1);
            assert(s.drop_last() =~= balls@.take(i as int));
            assert(s.last() == b);
        }
        if touches(e, b.id) && react {
            match e.kind {
                ContactKind::Started => {
                    acts.push(Action::Redirect { ball: b.id });
                },
                ContactKind::Stopped => {
                    if let Some(direction) = kick_direction(b.velocity) {
                        acts.push(Action::Kick { ball: b.id, direction });
                    }
                },
            }
        }
        i += 1;
    }
    assert(balls@.take(balls@.len() as int) =~= balls@);
    acts
}

fn hit_lamps(lamps: &mut Vec<Lamp>, e: &ContactEvent, now_ms: u64)
    ensures
        final(lamps)@ == old(lamps)@.map_values(|l: Lamp| lamp_after_start(l, *e, now_ms)),
{
    let ghost start = lamps@;
    let mut i: usize = 0;
    while i < lamps.len()
        invariant
            i <= lamps@.len(),
            lamps@.len() == start.len(),
            forall|j: int| 0 <= j < i ==> lamps@[j] == lamp_after_start(start[j], *e, now_ms),
            forall|j: int| i <= j < lamps@.len() ==> lamps@[j] == start[j],
        decreases lamps@.len() - i,
    {
        let mut l = lamps[i];
        if touches(e, l.id) {
            l.hit(now_ms);
        }
        lamps.set(i, l);
        i += 1;
    }
    assert(lamps@ =~= start.map_values(|l: Lamp| lamp_after_start(l, *e, now_ms)));
}

fn start_balls(balls: &mut Vec<Ball>, e: &ContactEvent, gate: bool, collector: bool, target: bool)
    ensures
        final(balls)@ == old(balls)@.map_values(
            |b: Ball| ball_after_start(b, *e, gate, collector, target),
        ),
{
    let ghost start = balls@;
    let mut i: usize = 0;
    while i < balls.len()
        invariant
            i <= balls@.len(),
            balls@.len() == start.len(),
            forall|j: int|
                0 <= j < i ==> balls@[j] == ball_after_start(start[j], *e, gate, collector, target),
            forall|j: int| i <= j < balls@.len() ==> balls@[j] == start[j],
        decreases balls@.len() - i,
    {
        let b = balls[i];
        if touches(e, b.id) {
            let mut groups = b.groups;
            if gate {
                groups = groups.allow(GROUP_GATE);
            }
            if collector {
                groups = groups.allow(GROUP_LID);
            }
            let velocity = if target {
                Velocity::zero()
            } else {
                b.velocity
            };
            balls.set(i, Ball { id: b.id, groups, color: b.color, velocity });
        }
        i += 1;
    }
    assert(balls@ =~= start.map_values(|b: Ball| ball_after_start(b, *e, gate, collector, target)));
}

impl Table {
    /// Applies one contact event, with `color` for the ball the collector
    /// spawns if it captures one.
    pub fn handle_contact_event_with_color(
        &mut self,
        e: &ContactEvent,
        now_ms: u64,
        color: MaterialColor,
    ) -> (r: Vec<Action>)
        requires
            table_wf(old(self)@),
            old(self)@.next_id < u64::MAX,
        ensures
            table_wf(final(self)@),
            final(self)@ == event_next(old(self)@, *e, now_ms, color),
            r@ == event_actions(old(self)@, *e, color),
    {
        let ghost v = self@;
        match e.kind {
            ContactKind::Stopped => {
                let lamp = any_lamp_touched(&self.lamps, e);
                collect_ball_actions(&self.balls, e, lamp)
            },
            ContactKind::Started => {
                let gate = any_zone_touched(&self.zones, e, ZoneRole::GateSensor);
                let collector = any_zone_touched(&self.zones, e, ZoneRole::CollectorSensor);
                let target = any_zone_touched(&self.zones, e, ZoneRole::Target);
                let mut acts = collect_ball_actions(&self.balls, e, target);
                let capture = collector && any_new_capture(&self.balls, e);
                hit_lamps(&mut self.lamps, e, now_ms);
                start_balls(&mut self.balls, e, gate, collector, target);
                proof {
                    assert forall|i: int, j: int|
                        0 <= i < self.balls@.len() && 0 <= j < self.balls@.len() && i != j
                            implies #[trigger] self.balls@[i].id != #[trigger] self.balls@[j].id by {
                        assert(self.balls@[i].id == v.balls[i].id);
                        assert(self.balls@[j].id == v.balls[j].id);
                    }
                    assert forall|i: int| 0 <= i < self.balls@.len() implies #[trigger] self.balls@[i].id
                        < v.next_id by {
                        assert(self.balls@[i].id == v.balls[i].id);
                    }
                    assert forall|i: int| 0 <= i < self.lamps@.len() implies #[trigger] self.lamps@[i].id
                        < v.next_id by {
                        assert(self.lamps@[i].id == v.lamps[i].id);
                    }
                }
                if capture {
                    let id = self.next_id;
                    self.balls.push(spawn_single_ball(id, color));
                    self.next_id = id + 1;
                    self.captured = self.captured + 1;
                    if self.captured >= CAPTURE_THRESHOLD {
                        self.end_game = true;
                    }
                    acts.push(Action::SpawnBall { id, color });
                }
                acts
            },
        }
    }

    /// Applies one contact event; a ball the collector spawns gets a colour
    /// drawn at random from the palette.
    pub fn handle_contact_event(&mut self, e: &ContactEvent, now_ms: u64) -> (r: Vec<Action>)
        requires
            table_wf(old(self)@),
            old(self)@.next_id < u64::MAX,
        ensures
            table_wf(final(self)@),
            exists|i: u8|
                i < crate::ball::PALETTE_SIZE && final(self)@ == event_next(
                    old(self)@,
                    *e,
                    now_ms,
                    crate::ball::palette_spec(i),
                ) && r@ == event_actions(old(self)@, *e, crate::ball::palette_spec(i)),
    {
        let color = crate::ball::random_palette_color();
        self.handle_contact_event_with_color(e, now_ms, color)
    }
}


/// Applies `events` in order; `colors[k]` colours the ball that event `k`
/// spawns, if any.
pub open spec fn events_next(
    v: TableView,
    events: Seq<ContactEvent>,
    now_ms: u64,
    colors: Seq<MaterialColor>,
) -> TableView
    decreases events.len(),
{
    if events.len() == 0 {
        v
    } else {
        let n = (events.len() - 1) as int;
        event_next(events_next(v, events.drop_last(), now_ms, colors), events[n], now_ms, colors[n])
    }
}

pub open spec fn events_actions(
    v: TableView,
    events: Seq<ContactEvent>,
    now_ms: u64,
    colors: Seq<MaterialColor>,
) -> Seq<Action>
    decreases events.len(),
{
    if events.len() == 0 {
        Seq::empty()
    } else {
        let n = (events.len() - 1) as int;
        events_actions(v, events.drop_last(), now_ms, colors) + event_actions(
            events_next(v, events.drop_last(), now_ms, colors),
            events[n],
            colors[n],
        )
    }
}

pub open spec fn in_palette(colors: Seq<MaterialColor>) -> bool {
    forall|k: int|
        0 <= k < colors.len() ==> exists|i: u8|
            i < crate::ball::PALETTE_SIZE && #[trigger] colors[k] == crate::ball::palette_spec(i)
}

proof fn lemma_events_prefix(
    v: TableView,
    events: Seq<ContactEvent>,
    now_ms: u64,
    colors: Seq<MaterialColor>,
    more: MaterialColor,
)
    requires
        colors.len() == events.len(),
    ensures
        events_next(v, events, now_ms, colors.push(more)) == events_next(v, events, now_ms, colors),
        events_actions(v, events, now_ms, colors.push(more)) == events_actions(
            v,
            events,
            now_ms,
            colors,
        ),
    decreases events.len(),
{
    if events.len() > 0 {
        let c2 = colors.drop_last();
        assert(colors.push(more).drop_last() =~= colors);
        lemma_events_prefix(v, events.drop_last(), now_ms, c2, colors.last());
        assert(c2.push(colors.last()) =~= colors);
        lemma_events_prefix(v, events.drop_last(), now_ms, c2, more);
        lemma_events_prefix_eq(v, events.drop_last(), now_ms, colors.push(more), colors);
    }
}

proof fn lemma_events_prefix_eq(
    v: TableView,
    events: Seq<ContactEvent>,
    now_ms: u64,
    c1: Seq<MaterialColor>,
    c2: Seq<MaterialColor>,
)
    requires
        c1.len() >= events.len(),
        c2.len() >= events.len(),
        forall|k: int| 0 <= k < events.len() ==> c1[k] == c2[k],
    ensures
        events_next(v, events, now_ms, c1) == events_next(v, events, now_ms, c2),
        events_actions(v, events, now_ms, c1) == events_actions(v, events, now_ms, c2),
    decreases events.len(),
{
    if events.len() > 0 {
        lemma_events_prefix_eq(v, events.drop_last(), now_ms, c1, c2);
    }
}

impl Table {
    /// Applies a tick's batch of contact events in order. Each ball the
    /// collector spawns gets a colour drawn at random from the palette.
    pub fn handle_contact_events(&mut self, events: &Vec<ContactEvent>, now_ms: u64) -> (r: Vec<
        Action,
    >)
        requires
            table_wf(old(self)@),
            old(self)@.next_id + events@.len() <= u64::MAX,
        ensures
            table_wf(final(self)@),
            exists|colors: Seq<MaterialColor>|
                colors.len() == events@.len() && in_palette(colors) && final(self)@ == events_next(
                    old(self)@,
                    events@,
                    now_ms,
                    colors,
                ) && r@ == events_actions(old(self)@, events@, now_ms, colors),
    {
        let ghost v = self@;
        let ghost mut colors: Seq<MaterialColor> = Seq::empty();
        let mut acts: Vec<Action> = Vec::new();
        let mut i: usize = 0;
        while i < events.len()
            invariant
                i <= events@.len(),
                table_wf(self@),
                colors.len() == i,
                in_palette(colors),
                self@ == events_next(v, events@.take(i as int), now_ms, colors),
                acts@ == events_actions(v, events@.take(i as int), now_ms, colors),
                self@.next_id <= v.next_id + i,
                v.next_id + events@.len() <= u64::MAX,
            decreases events@.len() - i,
        {
            let e = events[i];
            let color = crate::ball::random_palette_color();
            let ghost before = self@;
            let mut step = self.handle_contact_event_with_color(&e, now_ms, color);
            acts.append(&mut step);
            proof {
                let s = events@.take(i as int + 1);
                assert(s.drop_last() =~= events@.take(i as int));
                lemma_events_prefix(v, events@.take(i as int), now_ms, colors, color);
                colors = colors.push(color);
                assert(in_palette(colors)) by {
                    assert forall|k: int| 0 <= k < colors.len() implies exists|j: u8|
                        j < crate::ball::PALETTE_SIZE && #[trigger] colors[k]
                            == crate::ball::palette_spec(j) by {
                        if k < i {
                            assert(colors[k] == colors.drop_last()[k]);
                        }
                    }
                }
            }
            i += 1;
        }
        assert(events@.take(events@.len() as int) =~= events@);
        acts
    }
}

} // verus!
