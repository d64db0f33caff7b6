use pinball3d::actuators::{
    floor_force, kick_direction, FloorForce, Flipper, Launcher, Side, Velocity, FLIPPER_LIMIT,
    LAUNCHER_MAX_TRAVEL,
};
use pinball3d::ball::{palette, random_palette_color, spawn_single_ball, MaterialColor, PALETTE_SIZE};
use pinball3d::groups::{
    CollisionGroups, BALL_BASE_FILTER, GROUP_BALL, GROUP_FLOOR, GROUP_GATE, GROUP_LID,
    GROUP_STRUCTURE,
};
use pinball3d::lamp::{Lamp, LampKind, COOLDOWN_MS};

#[test]
fn left_flipper_presses_then_relaxes() {
    let mut f = Flipper::new(Side::Left);
    assert_eq!(f.angle(), 0);
    assert_eq!(f.step(true), 300);
    assert_eq!(f.angle(), 300);
    assert_eq!(f.step(true), 0);
    assert_eq!(f.angle(), 300);
    assert_eq!(f.step(false), -70);
    assert_eq!(f.angle(), 230);
}

#[test]
fn right_flipper_is_mirrored() {
    let mut f = Flipper::new(Side::Right);
    assert_eq!(f.step(true), -300);
    assert_eq!(f.angle(), -300);
    assert_eq!(f.step(false), 70);
    assert_eq!(f.angle(), -230);
    assert_eq!(f.side(), Side::Right);
}

#[test]
fn flipper_angle_stays_clamped_for_any_input_run() {
    for side in [Side::Left, Side::Right] {
        let mut f = Flipper::new(side);
        for tick in 0..500u32 {
            let pressed = (tick / 7) % 3 != 0 || tick % 11 == 0;
            f.step(pressed);
            assert!(f.angle() >= -FLIPPER_LIMIT && f.angle() <= FLIPPER_LIMIT);
        }
        for _ in 0..20 {
            f.step(false);
        }
        let rest = if side == Side::Left { -FLIPPER_LIMIT } else { FLIPPER_LIMIT };
        assert_eq!(f.angle(), rest);
    }
}

#[test]
fn launcher_charges_and_creeps_back() {
    let mut l = Launcher::new();
    assert_eq!(l.step(true), 30);
    assert_eq!(l.step(true), 60);
    assert_eq!(l.step(true), LAUNCHER_MAX_TRAVEL);
    assert_eq!(l.step(false), 40);
    assert_eq!(l.step(false), 20);
    assert_eq!(l.step(false), 0);
    assert_eq!(l.step(false), 0);
    assert_eq!(l.travel(), 0);
}

#[test]
fn kick_follows_velocity_and_skips_rest() {
    let v = Velocity { x: 3, y: -4, z: 0 };
    assert_eq!(kick_direction(v), Some(v));
    assert_eq!(kick_direction(Velocity::zero()), None);
    assert!(Velocity::zero().is_zero());
    assert!(!Velocity { x: 0, y: 0, z: 1 }.is_zero());
}

#[test]
fn floor_force_decision() {
    assert_eq!(floor_force(Some(12)), FloorForce::Settle);
    assert_eq!(floor_force(Some(0)), FloorForce::Release);
    assert_eq!(floor_force(None), FloorForce::Release);
}

#[test]
fn group_bits_and_interaction() {
    let ball = CollisionGroups::ball_default();
    assert_eq!(ball.memberships, GROUP_BALL);
    assert_eq!(ball.filters, GROUP_FLOOR | GROUP_STRUCTURE | GROUP_BALL);
    let gate = CollisionGroups { memberships: GROUP_GATE, filters: GROUP_BALL };
    let wall = CollisionGroups { memberships: GROUP_STRUCTURE, filters: GROUP_BALL };
    assert!(ball.interacts(&wall));
    assert!(!ball.interacts(&gate));
    let passed = ball.allow(GROUP_GATE);
    assert_eq!(passed.filters, 15);
    assert!(passed.interacts(&gate));
    assert!(passed.filters_include(BALL_BASE_FILTER));
    let lidded = passed.allow(GROUP_LID);
    assert_eq!(lidded.filters, 31);
    assert_eq!(lidded.forbid(GROUP_LID).filters, 15);
    assert_eq!(ball.forbid(GROUP_LID).filters, 7);
}

#[test]
fn lamp_goes_dark_only_after_cooldown() {
    let mut l = Lamp::new(4, LampKind::Bumper, false);
    assert!(!l.lit);
    l.cool_down(5000);
    assert!(!l.lit);
    l.hit(2000);
    assert!(l.lit);
    assert_eq!(l.last_hit_ms, 2000);
    l.cool_down(2500);
    assert!(l.lit);
    l.cool_down(2000 + COOLDOWN_MS);
    assert!(l.lit);
    l.cool_down(2001 + COOLDOWN_MS);
    assert!(!l.lit);
}

#[test]
fn palette_holds_five_colours() {
    let all: Vec<MaterialColor> = (0..PALETTE_SIZE).map(palette).collect();
    assert_eq!(
        all,
        vec![
            MaterialColor::Yellow,
            MaterialColor::Orange,
            MaterialColor::YellowGreen,
            MaterialColor::Green,
            MaterialColor::Pink
        ]
    );
}

#[test]
fn random_colours_come_from_the_palette_and_vary() {
    let all: Vec<MaterialColor> = (0..PALETTE_SIZE).map(palette).collect();
    let mut seen = Vec::new();
    for _ in 0..300 {
        let c = random_palette_color();
        assert!(all.contains(&c));
        if !seen.contains(&c) {
            seen.push(c);
        }
    }
    assert!(seen.len() > 1);
}

#[test]
fn new_ball_is_at_rest_with_base_groups() {
    let b = spawn_single_ball(9, MaterialColor::OrangeRed);
    assert_eq!(b.id, 9);
    assert_eq!(b.color, MaterialColor::OrangeRed);
    assert_eq!(b.velocity, Velocity::zero());
    assert_eq!(b.groups, CollisionGroups { memberships: GROUP_BALL, filters: BALL_BASE_FILTER });
}
