use pinball3d::actuators::Velocity;
use pinball3d::ball::MaterialColor;
use pinball3d::groups::{BALL_BASE_FILTER, GROUP_GATE, GROUP_LID};
use pinball3d::lamp::LampKind;
use pinball3d::table::{Action, ContactEvent, ContactKind, Table, ZoneRole};

struct Layout {
    table: Table,
    bumper: u64,
    extra_bumper: u64,
    gate: u64,
    collector: u64,
    target: u64,
    drain: u64,
    box_walls: u64,
}

fn layout() -> Layout {
    let mut table = Table::new();
    let bumper = table.add_lamp(LampKind::Bumper, false);
    let extra_bumper = table.add_lamp(LampKind::Bumper, true);
    let gate = table.add_zone(ZoneRole::GateSensor, false);
    let collector = table.add_zone(ZoneRole::CollectorSensor, true);
    let target = table.add_zone(ZoneRole::Target, false);
    let drain = table.add_zone(ZoneRole::Drain, false);
    let box_walls = table.add_zone(ZoneRole::Fixture, true);
    Layout { table, bumper, extra_bumper, gate, collector, target, drain, box_walls }
}

fn started(a: u64, b: u64) -> ContactEvent {
    ContactEvent { kind: ContactKind::Started, a, b }
}

fn stopped(a: u64, b: u64) -> ContactEvent {
    ContactEvent { kind: ContactKind::Stopped, a, b }
}

fn filters_of(t: &Table, id: u64) -> u32 {
    t.balls().iter().find(|b| b.id == id).unwrap().groups.filters
}

#[test]
fn ids_are_handed_out_in_order() {
    let l = layout();
    assert_eq!(
        vec![l.bumper, l.extra_bumper, l.gate, l.collector, l.target, l.drain, l.box_walls],
        vec![0, 1, 2, 3, 4, 5, 6]
    );
    assert_eq!(l.table.next_id(), 7);
    assert_eq!(l.table.lamps().len(), 2);
    assert_eq!(l.table.zones().len(), 5);
}

#[test]
fn gate_sensor_lets_ball_past_for_good() {
    let mut l = layout();
    let ball = l.table.spawn_ball(MaterialColor::OrangeRed);
    assert_eq!(filters_of(&l.table, ball), BALL_BASE_FILTER);
    let acts = l.table.handle_contact_event_with_color(&started(l.gate, ball), 10, MaterialColor::Pink);
    assert!(acts.is_empty());
    assert_eq!(filters_of(&l.table, ball), BALL_BASE_FILTER | GROUP_GATE);
    l.table.handle_contact_event_with_color(&stopped(l.gate, ball), 20, MaterialColor::Pink);
    assert_eq!(filters_of(&l.table, ball), BALL_BASE_FILTER | GROUP_GATE);
}

#[test]
fn collector_capture_spawns_exactly_one_ball() {
    let mut l = layout();
    let ball = l.table.spawn_ball(MaterialColor::OrangeRed);
    let acts =
        l.table.handle_contact_event_with_color(&started(ball, l.collector), 10, MaterialColor::Green);
    assert_eq!(acts, vec![Action::SpawnBall { id: 8, color: MaterialColor::Green }]);
    assert_eq!(l.table.captured(), 1);
    assert_eq!(l.table.balls().len(), 2);
    assert_eq!(filters_of(&l.table, ball) & GROUP_LID, GROUP_LID);
    let fresh = l.table.balls()[1];
    assert_eq!(fresh.id, 8);
    assert_eq!(fresh.color, MaterialColor::Green);
    assert_eq!(fresh.groups.filters, BALL_BASE_FILTER);
}

#[test]
fn collector_ignores_ball_already_captured() {
    let mut l = layout();
    let ball = l.table.spawn_ball(MaterialColor::OrangeRed);
    l.table.handle_contact_event_with_color(&started(l.collector, ball), 10, MaterialColor::Green);
    let again =
        l.table.handle_contact_event_with_color(&started(l.collector, ball), 11, MaterialColor::Pink);
    assert!(again.is_empty());
    assert_eq!(l.table.captured(), 1);
    assert_eq!(l.table.balls().len(), 2);
}

#[test]
fn fifth_capture_starts_end_game_and_cleanup_runs_once() {
    let mut l = layout();
    let mut ball = l.table.spawn_ball(MaterialColor::OrangeRed);
    for n in 1..=5u64 {
        assert!(!l.table.is_end_game());
        let acts = l.table.handle_contact_event(&started(l.collector, ball), 100 * n);
        assert_eq!(acts.len(), 1);
        ball = match acts[0] {
            Action::SpawnBall { id, .. } => id,
            _ => panic!("expected a spawned ball"),
        };
        assert_eq!(l.table.captured(), n);
    }
    assert!(l.table.is_end_game());
    assert_eq!(l.table.balls().len(), 6);

    let cleanup = l.table.despawn_collector_when_endgame();
    assert_eq!(
        cleanup,
        vec![
            Action::Despawn { id: l.extra_bumper },
            Action::Despawn { id: l.collector },
            Action::Despawn { id: l.box_walls }
        ]
    );
    assert!(l.table.is_cleaned_up());
    assert_eq!(l.table.lamps().len(), 1);
    assert_eq!(l.table.zones().len(), 3);
    for b in l.table.balls() {
        assert_eq!(b.groups.filters & GROUP_LID, 0);
    }
    let before: Vec<u32> = l.table.balls().iter().map(|b| b.groups.filters).collect();
    assert!(l.table.despawn_collector_when_endgame().is_empty());
    let after: Vec<u32> = l.table.balls().iter().map(|b| b.groups.filters).collect();
    assert_eq!(before, after);
    assert!(l.table.is_end_game());
}

#[test]
fn cleanup_waits_for_end_game() {
    let mut l = layout();
    l.table.spawn_ball(MaterialColor::OrangeRed);
    assert!(l.table.despawn_collector_when_endgame().is_empty());
    assert!(!l.table.is_cleaned_up());
    assert_eq!(l.table.zones().len(), 5);
}

#[test]
fn drained_ball_is_replaced_with_same_colour() {
    let mut l = layout();
    let ball = l.table.spawn_ball(MaterialColor::YellowGreen);
    let acts = l.table.handle_ball_intersections_with_bottom_wall(&vec![ball]);
    assert_eq!(
        acts,
        vec![
            Action::Despawn { id: ball },
            Action::SpawnBall { id: 8, color: MaterialColor::YellowGreen }
        ]
    );
    assert_eq!(l.table.balls().len(), 1);
    let fresh = l.table.balls()[0];
    assert_eq!(fresh.id, 8);
    assert_eq!(fresh.color, MaterialColor::YellowGreen);
    assert_eq!(fresh.velocity, Velocity::zero());
    assert_eq!(fresh.groups.filters, BALL_BASE_FILTER);
}

#[test]
fn several_drained_balls_each_get_a_replacement() {
    let mut l = layout();
    let a = l.table.spawn_ball(MaterialColor::Yellow);
    let b = l.table.spawn_ball(MaterialColor::Pink);
    let acts = l.table.handle_ball_intersections_with_bottom_wall(&vec![a, b, 99]);
    assert_eq!(
        acts,
        vec![
            Action::Despawn { id: a },
            Action::SpawnBall { id: 9, color: MaterialColor::Yellow },
            Action::Despawn { id: b },
            Action::SpawnBall { id: 10, color: MaterialColor::Pink }
        ]
    );
    assert_eq!(l.table.balls().len(), 2);
}

#[test]
fn no_replacement_in_end_game() {
    let mut l = layout();
    let mut ball = l.table.spawn_ball(MaterialColor::OrangeRed);
    for n in 0..5u64 {
        let acts = l.table.handle_contact_event_with_color(&started(l.collector, ball), n + 1, MaterialColor::Orange);
        ball = match acts[0] {
            Action::SpawnBall { id, .. } => id,
            _ => panic!("expected a spawned ball"),
        };
    }
    assert!(l.table.is_end_game());
    let acts = l.table.handle_ball_intersections_with_bottom_wall(&vec![ball]);
    assert_eq!(acts, vec![Action::Despawn { id: ball }]);
    assert_eq!(l.table.balls().len(), 5);
}

#[test]
fn bumper_lights_then_goes_dark() {
    let mut l = layout();
    let ball = l.table.spawn_ball(MaterialColor::OrangeRed);
    l.table.handle_contact_event_with_color(&started(ball, l.bumper), 4000, MaterialColor::Pink);
    assert!(l.table.lamps()[0].lit);
    assert_eq!(l.table.lamps()[0].last_hit_ms, 4000);
    assert!(!l.table.lamps()[1].lit);
    l.table.change_bumper_to_dark_color(5000);
    assert!(l.table.lamps()[0].lit);
    l.table.change_bumper_to_dark_color(5001);
    assert!(!l.table.lamps()[0].lit);
}

#[test]
fn bumper_kicks_along_velocity_on_separation() {
    let mut l = layout();
    let ball = l.table.spawn_ball(MaterialColor::OrangeRed);
    let v = Velocity { x: 120, y: -35, z: 0 };
    l.table.set_ball_velocity(ball, v);
    assert_eq!(l.table.balls()[0].velocity, v);
    let acts = l.table.handle_contact_event_with_color(&stopped(l.bumper, ball), 10, MaterialColor::Pink);
    assert_eq!(acts, vec![Action::Kick { ball, direction: v }]);
}

#[test]
fn ball_at_rest_gets_no_kick() {
    let mut l = layout();
    let ball = l.table.spawn_ball(MaterialColor::OrangeRed);
    let acts = l.table.handle_contact_event_with_color(&stopped(ball, l.bumper), 10, MaterialColor::Pink);
    assert!(acts.is_empty());
}

#[test]
fn target_stops_ball_and_redirects() {
    let mut l = layout();
    let ball = l.table.spawn_ball(MaterialColor::OrangeRed);
    l.table.set_ball_velocity(ball, Velocity { x: 1, y: 2, z: 3 });
    let acts = l.table.handle_contact_event_with_color(&started(l.target, ball), 10, MaterialColor::Pink);
    assert_eq!(acts, vec![Action::Redirect { ball }]);
    assert_eq!(l.table.balls()[0].velocity, Velocity::zero());
}

#[test]
fn swapping_bodies_changes_nothing() {
    let events = [
        (l_started as fn(&Layout, u64) -> ContactEvent, l_started_swapped as fn(&Layout, u64) -> ContactEvent),
        (l_stopped, l_stopped_swapped),
    ];
    for (fwd, back) in events {
        let mut x = layout();
        let mut y = layout();
        let bx = x.table.spawn_ball(MaterialColor::Yellow);
        let by = y.table.spawn_ball(MaterialColor::Yellow);
        x.table.set_ball_velocity(bx, Velocity { x: 5, y: 0, z: 0 });
        y.table.set_ball_velocity(by, Velocity { x: 5, y: 0, z: 0 });
        let ex = fwd(&x, bx);
        let ey = back(&y, by);
        let ax = x.table.handle_contact_event_with_color(&ex, 7, MaterialColor::Green);
        let ay = y.table.handle_contact_event_with_color(&ey, 7, MaterialColor::Green);
        assert_eq!(ax, ay);
        assert_eq!(x.table.balls(), y.table.balls());
        assert_eq!(x.table.lamps(), y.table.lamps());
        assert_eq!(x.table.captured(), y.table.captured());
    }
}

fn l_started(l: &Layout, ball: u64) -> ContactEvent {
    started(l.collector, ball)
}

fn l_started_swapped(l: &Layout, ball: u64) -> ContactEvent {
    started(ball, l.collector)
}

fn l_stopped(l: &Layout, ball: u64) -> ContactEvent {
    stopped(l.bumper, ball)
}

fn l_stopped_swapped(l: &Layout, ball: u64) -> ContactEvent {
    stopped(ball, l.bumper)
}

#[test]
fn batch_of_events_applies_in_order() {
    let mut l = layout();
    let ball = l.table.spawn_ball(MaterialColor::OrangeRed);
    let events = vec![started(l.gate, ball), started(ball, l.collector), started(ball, l.collector)];
    let acts = l.table.handle_contact_events(&events, 50);
    assert_eq!(acts.len(), 1);
    assert!(matches!(acts[0], Action::SpawnBall { id: 8, .. }));
    assert_eq!(filters_of(&l.table, ball), BALL_BASE_FILTER | GROUP_GATE | GROUP_LID);
    assert_eq!(l.table.captured(), 1);
}

#[test]
fn launch_drain_respawn_scenario() {
    let mut l = layout();
    let ball = l.table.spawn_ball(MaterialColor::OrangeRed);
    let first = l.table.balls()[0];
    assert_eq!(first.velocity, Velocity::zero());
    l.table.set_ball_velocity(ball, Velocity { x: 0, y: -900, z: 0 });
    assert!(!l.table.is_end_game());
    let acts = l.table.handle_ball_intersections_with_bottom_wall(&vec![ball]);
    assert_eq!(acts.len(), 2);
    assert_eq!(acts[0], Action::Despawn { id: ball });
    match acts[1] {
        Action::SpawnBall { id, color } => {
            assert_eq!(color, MaterialColor::OrangeRed);
            assert_eq!(l.table.balls().len(), 1);
            assert_eq!(l.table.balls()[0].id, id);
            assert_eq!(l.table.balls()[0].velocity, Velocity::zero());
        }
        _ => panic!("expected a replacement ball"),
    }
}
