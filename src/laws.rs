//! Properties of the table's state machine that hold across operations.

use vstd::prelude::*;
use crate::actuators::Velocity;
use crate::ball::{MaterialColor, new_ball_spec};
use crate::groups::{bits_include, lemma_or_includes, lemma_include_trans, lemma_include_refl, GROUP_LID};
use crate::table::{
    Action, CAPTURE_THRESHOLD, ContactEvent, ContactKind, TableView, ZoneRole, cool_down_next,
    spawned, table_wf, velocity_next,
};
use crate::table::contact::{
    ball_action, ball_actions, ball_after_start, captures, event_actions, event_next,
    lamp_after_start, lamp_touched, newly_captured, reacts, zone_touched,
};
use crate::table::drain::{ball_index, drain_step, has_ball};
use crate::table::end_game::{cleanup_actions, cleanup_fires, cleanup_next};

verus! {

/// One operation on the table, as the host drives it tick after tick.
pub enum TableOp {
    Contact { event: ContactEvent, now_ms: u64, color: MaterialColor },
    Drain { id: u64 },
    SetVelocity { id: u64, velocity: Velocity },
    CoolDown { now_ms: u64 },
    Spawn { color: MaterialColor },
    Cleanup,
}

pub open spec fn op_next(v: TableView, op: TableOp) -> TableView {
    match op {
        TableOp::Contact { event, now_ms, color } => event_next(v, event, now_ms, color),
        TableOp::Drain { id } => drain_step(v, id),
        TableOp::SetVelocity { id, velocity } => velocity_next(v, id, velocity),
        TableOp::CoolDown { now_ms } => cool_down_next(v, now_ms),
        TableOp::Spawn { color } => spawned(v, color),
        TableOp::Cleanup => cleanup_next(v),
    }
}

/// Some ball of `v` has the id of `b` and a filter that `b`'s filter includes.
pub open spec fn grown_from(v: TableView, b: crate::ball::Ball) -> bool {
    exists|i: int|
        0 <= i < v.balls.len() && #[trigger] v.balls[i].id == b.id && bits_include(
            b.groups.filters,
            v.balls[i].groups.filters,
        )
}

/// Outside the end-game cleanup, a ball's collision filter only gains bits:
/// after any other operation, every ball that was already on the table
/// carries at least the bits it had before.
pub proof fn lemma_filters_only_grow(v: TableView, op: TableOp)
    requires
        table_wf(v),
        !(op is Cleanup),
    ensures
        forall|j: int|
            0 <= j < op_next(v, op).balls.len() && op_next(v, op).balls[j].id < v.next_id
                ==> grown_from(v, #[trigger] op_next(v, op).balls[j]),
{
    let w = op_next(v, op);
    assert forall|j: int| 0 <= j < w.balls.len() && w.balls[j].id < v.next_id implies grown_from(
        v,
        #[trigger] w.balls[j],
    ) by {
        match op {
            TableOp::Contact { event, now_ms, color } => {
                if j < v.balls.len() {
                    let b = v.balls[j];
                    let f = b.groups.filters;
                    lemma_include_refl(f);
                    lemma_or_includes(f, crate::groups::GROUP_GATE);
                    lemma_or_includes(f, GROUP_LID);
                    lemma_or_includes(f | crate::groups::GROUP_GATE, GROUP_LID);
                    lemma_include_trans(
                        (f | crate::groups::GROUP_GATE) | GROUP_LID,
                        f | crate::groups::GROUP_GATE,
                        f,
                    );
                    assert(w.balls[j].id == b.id);
                    assert(bits_include(w.balls[j].groups.filters, f));
                }
            },
            TableOp::Drain { id } => {
                if has_ball(v.balls, id) {
                    let k = ball_index(v.balls, id);
                    v.balls.remove_ensures(k);
                    let i0 = if j < k { j } else { j + 1 };
                    if j < v.balls.len() - 1 {
                        assert(w.balls[j] == v.balls[i0]);
                        lemma_include_refl(v.balls[i0].groups.filters);
                    }
                } else {
                    lemma_include_refl(v.balls[j].groups.filters);
                }
            },
            _ => {
                if j < v.balls.len() {
                    assert(w.balls[j].id == v.balls[j].id);
                    assert(w.balls[j].groups == v.balls[j].groups);
                    lemma_include_refl(v.balls[j].groups.filters);
                }
            },
        }
    }
}

/// The end-game cleanup clears the lid bit from every ball and nothing else
/// of it, and fires at most once: once it has run, it stays done whatever
/// happens next, and running it again changes nothing.
pub proof fn lemma_cleanup_once(v: TableView, op: TableOp)
    requires
        table_wf(v),
    ensures
        cleanup_fires(v) ==> {
            let w = cleanup_next(v);
            &&& w.cleaned_up
            &&& w.balls.len() == v.balls.len()
            &&& forall|j: int|
                0 <= j < v.balls.len() ==> (#[trigger] w.balls[j]).id == v.balls[j].id
                    && w.balls[j].groups.filters == v.balls[j].groups.filters & !GROUP_LID
        },
        v.cleaned_up ==> op_next(v, op).cleaned_up,
        v.cleaned_up ==> cleanup_next(v) == v && cleanup_actions(v).len() == 0,
{
}

/// The end game is a one-way latch: once on it stays on, and it is on as soon
/// as the captured count reaches the threshold. The captured count never
/// goes down.
pub proof fn lemma_end_game_latch(v: TableView, op: TableOp)
    requires
        table_wf(v),
    ensures
        v.end_game ==> op_next(v, op).end_game,
        op_next(v, op).captured >= v.captured,
        op_next(v, op).captured >= CAPTURE_THRESHOLD ==> op_next(v, op).end_game,
{
}

pub open spec fn spawn_count(s: Seq<Action>) -> nat
    decreases s.len(),
{
    if s.len() == 0 {
        0
    } else {
        spawn_count(s.drop_last()) + if s.last() is SpawnBall {
            1nat
        } else {
            0nat
        }
    }
}

proof fn lemma_ball_actions_spawn_nothing(balls: Seq<crate::ball::Ball>, e: ContactEvent, react: bool)
    ensures
        spawn_count(ball_actions(balls, e, react)) == 0,
    decreases balls.len(),
{
    if balls.len() > 0 {
        lemma_ball_actions_spawn_nothing(balls.drop_last(), e, react);
        let rest = ball_actions(balls.drop_last(), e, react);
        match ball_action(balls.last(), e, react) {
            Some(a) => {
                assert(rest.push(a).drop_last() =~= rest);
            },
            None => {},
        }
    }
}

/// A contact that begins between the collector and a ball: if the ball does
/// not carry the lid bit yet, exactly one new ball is spawned and the
/// captured count goes up by one; if it does, nothing is spawned and the
/// count stays.
pub proof fn lemma_collector_capture(
    v: TableView,
    e: ContactEvent,
    now_ms: u64,
    color: MaterialColor,
)
    requires
        table_wf(v),
        e.kind == ContactKind::Started,
        zone_touched(v.zones, e, ZoneRole::CollectorSensor),
    ensures
        newly_captured(v.balls, e) ==> {
            let w = event_next(v, e, now_ms, color);
            &&& w.balls.len() == v.balls.len() + 1
            &&& w.balls.last() == new_ball_spec(v.next_id as u64, color)
            &&& w.captured == v.captured + 1
            &&& spawn_count(event_actions(v, e, color)) == 1
        },
        !newly_captured(v.balls, e) ==> {
            let w = event_next(v, e, now_ms, color);
            &&& w.balls.len() == v.balls.len()
            &&& w.captured == v.captured
            &&& spawn_count(event_actions(v, e, color)) == 0
        },
{
    let acts = ball_actions(v.balls, e, reacts(v, e));
    lemma_ball_actions_spawn_nothing(v.balls, e, reacts(v, e));
    let a = Action::SpawnBall { id: v.next_id as u64, color };
    assert(acts.push(a).drop_last() =~= acts);
}

/// Every kick goes along the velocity of a ball in the contact, and a ball
/// at rest is never kicked.
pub proof fn lemma_kicks_follow_velocity(v: TableView, e: ContactEvent, color: MaterialColor)
    ensures
        forall|k: int|
            0 <= k < event_actions(v, e, color).len() ==> match #[trigger] event_actions(
                v,
                e,
                color,
            )[k] {
                Action::Kick { ball, direction } => exists|i: int|
                    0 <= i < v.balls.len() && #[trigger] v.balls[i].id == ball && e.touches(ball)
                        && direction == v.balls[i].velocity && !direction.is_zero_spec(),
                _ => true,
            },
{
    lemma_ball_actions_kicks(v.balls, e, reacts(v, e));
    let acts = ball_actions(v.balls, e, reacts(v, e));
    if captures(v, e) {
        let a = Action::SpawnBall { id: v.next_id as u64, color };
        assert forall|k: int| 0 <= k < acts.len() implies #[trigger] acts.push(a)[k] == acts[k] by {}
    }
}

proof fn lemma_ball_actions_kicks(balls: Seq<crate::ball::Ball>, e: ContactEvent, react: bool)
    ensures
        forall|k: int|
            0 <= k < ball_actions(balls, e, react).len() ==> match #[trigger] ball_actions(
                balls,
                e,
                react,
            )[k] {
                Action::Kick { ball, direction } => exists|i: int|
                    0 <= i < balls.len() && #[trigger] balls[i].id == ball && e.touches(ball)
                        && direction == balls[i].velocity && !direction.is_zero_spec(),
                _ => true,
            },
    decreases balls.len(),
{
    if balls.len() > 0 {
        let pre = balls.drop_last();
        lemma_ball_actions_kicks(pre, e, react);
        let rest = ball_actions(pre, e, react);
        let n = balls.len() - 1;
        assert forall|k: int| 0 <= k < ball_actions(balls, e, react).len() implies match #[trigger] ball_actions(
            balls,
            e,
            react,
        )[k] {
            Action::Kick { ball, direction } => exists|i: int|
                0 <= i < balls.len() && #[trigger] balls[i].id == ball && e.touches(ball)
                    && direction == balls[i].velocity && !direction.is_zero_spec(),
            _ => true,
        } by {
            if k < rest.len() {
                assert(ball_actions(balls, e, react)[k] == rest[k]);
                match rest[k] {
                    Action::Kick { ball, direction } => {
                        let i = choose|i: int|
                            0 <= i < pre.len() && #[trigger] pre[i].id == ball && e.touches(ball)
                                && direction == pre[i].velocity && !direction.is_zero_spec();
                        assert(balls[i] == pre[i]);
                    },
                    _ => {},
                }
            } else {
                assert(balls[n] == balls.last());
            }
        }
    }
}

proof fn lemma_ball_actions_symmetric(balls: Seq<crate::ball::Ball>, e: ContactEvent, react: bool)
    ensures
        ball_actions(balls, e.swapped(), react) == ball_actions(balls, e, react),
    decreases balls.len(),
{
    if balls.len() > 0 {
        lemma_ball_actions_symmetric(balls.drop_last(), e, react);
    }
}

/// Handlers do not care which body of a contact comes first: swapping the
/// two bodies gives the same table and the same actions.
pub proof fn lemma_event_symmetric(v: TableView, e: ContactEvent, now_ms: u64, color: MaterialColor)
    ensures
        event_next(v, e.swapped(), now_ms, color) == event_next(v, e, now_ms, color),
        event_actions(v, e.swapped(), color) == event_actions(v, e, color),
{
    let s = e.swapped();
    assert(forall|id: u64| #[trigger] s.touches(id) == e.touches(id));
    assert forall|role: ZoneRole| #[trigger] zone_touched(v.zones, s, role) == zone_touched(v.zones, e, role) by {
        if zone_touched(v.zones, e, role) {
            let i = choose|i: int| 0 <= i < v.zones.len() && #[trigger] v.zones[i].role == role && e.touches(v.zones[i].id);
            assert(s.touches(v.zones[i].id));
        }
        if zone_touched(v.zones, s, role) {
            let i = choose|i: int| 0 <= i < v.zones.len() && #[trigger] v.zones[i].role == role && s.touches(v.zones[i].id);
            assert(e.touches(v.zones[i].id));
        }
    }
    assert(lamp_touched(v.lamps, s) == lamp_touched(v.lamps, e)) by {
        if lamp_touched(v.lamps, e) {
            let i = choose|i: int| 0 <= i < v.lamps.len() && e.touches(#[trigger] v.lamps[i].id);
            assert(s.touches(v.lamps[i].id));
        }
        if lamp_touched(v.lamps, s) {
            let i = choose|i: int| 0 <= i < v.lamps.len() && s.touches(#[trigger] v.lamps[i].id);
            assert(e.touches(v.lamps[i].id));
        }
    }
    assert(newly_captured(v.balls, s) == newly_captured(v.balls, e)) by {
        if newly_captured(v.balls, e) {
            let i = choose|i: int| 0 <= i < v.balls.len() && e.touches(#[trigger] v.balls[i].id) && v.balls[i].groups.filters & GROUP_LID == 0;
            assert(s.touches(v.balls[i].id));
        }
        if newly_captured(v.balls, s) {
            let i = choose|i: int| 0 <= i < v.balls.len() && s.touches(#[trigger] v.balls[i].id) && v.balls[i].groups.filters & GROUP_LID == 0;
            assert(e.touches(v.balls[i].id));
        }
    }
    lemma_ball_actions_symmetric(v.balls, e, reacts(v, e));
    let gate = zone_touched(v.zones, e, ZoneRole::GateSensor);
    let collector = zone_touched(v.zones, e, ZoneRole::CollectorSensor);
    let target = zone_touched(v.zones, e, ZoneRole::Target);
    assert(v.balls.map_values(|b: crate::ball::Ball| ball_after_start(b, s, gate, collector, target))
        =~= v.balls.map_values(|b: crate::ball::Ball| ball_after_start(b, e, gate, collector, target)));
    assert(v.lamps.map_values(|l: crate::lamp::Lamp| lamp_after_start(l, s, now_ms))
        =~= v.lamps.map_values(|l: crate::lamp::Lamp| lamp_after_start(l, e, now_ms)));
}

proof fn lemma_ball_action_listed(balls: Seq<crate::ball::Ball>, e: ContactEvent, react: bool, i: int)
    requires
        0 <= i < balls.len(),
        ball_action(balls[i], e, react) is Some,
    ensures
        exists|k: int|
            0 <= k < ball_actions(balls, e, react).len() && ball_actions(balls, e, react)[k]
                == ball_action(balls[i], e, react)->0,
    decreases balls.len(),
{
    let pre = balls.drop_last();
    let rest = ball_actions(pre, e, react);
    if i == balls.len() - 1 {
        let a = ball_action(balls[i], e, react)->0;
        assert(ball_actions(balls, e, react) == rest.push(a));
        assert(ball_actions(balls, e, react)[rest.len() as int] == a);
    } else {
        assert(pre[i] == balls[i]);
        lemma_ball_action_listed(pre, e, react, i);
        let k = choose|k: int| 0 <= k < rest.len() && rest[k] == ball_action(balls[i], e, react)->0;
        match ball_action(balls.last(), e, react) {
            Some(a) => {
                assert(ball_actions(balls, e, react) == rest.push(a));
                assert(ball_actions(balls, e, react)[k] == rest[k]);
            },
            None => {
                assert(ball_actions(balls, e, react) == rest);
                assert(ball_actions(balls, e, react)[k] == rest[k]);
            },
        }
    }
}

/// A contact that ends between a lamp and a moving ball kicks that ball
/// along its velocity.
pub proof fn lemma_moving_ball_is_kicked(v: TableView, e: ContactEvent, color: MaterialColor, i: int)
    requires
        e.kind == ContactKind::Stopped,
        lamp_touched(v.lamps, e),
        0 <= i < v.balls.len(),
        e.touches(v.balls[i].id),
        !v.balls[i].velocity.is_zero_spec(),
    ensures
        exists|k: int|
            0 <= k < event_actions(v, e, color).len() && event_actions(v, e, color)[k]
                == (Action::Kick { ball: v.balls[i].id, direction: v.balls[i].velocity }),
{
    assert(reacts(v, e));
    assert(!captures(v, e));
    assert(event_actions(v, e, color) == ball_actions(v.balls, e, true));
    lemma_ball_action_listed(v.balls, e, true, i);
}

} // verus!
