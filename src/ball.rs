//! Balls: spawned at the launch position with a colour, zero velocity and the
//! base collision groups.

use vstd::prelude::*;
use rand::Rng;
use crate::actuators::Velocity;
use crate::groups::{CollisionGroups, GROUP_BALL, BALL_BASE_FILTER};

verus! {

/// Display colours a ball can have.
#[derive(Clone, Copy, Debug, PartialEq, Eq, Structural)]
pub enum MaterialColor {
    OrangeRed,
    Yellow,
    Orange,
    YellowGreen,
    Green,
    Pink,
}

/// Number of colours a ball spawned by the collector draws from.
pub const PALETTE_SIZE: u8 = 5;

pub open spec fn palette_spec(index: u8) -> MaterialColor {
    if index == 0 {
        MaterialColor::Yellow
    } else if index == 1 {
        MaterialColor::Orange
    } else if index == 2 {
        MaterialColor::YellowGreen
    } else if index == 3 {
        MaterialColor::Green
    } else {
        MaterialColor::Pink
    }
}

/// The colour at `index` of the collector's palette.
pub fn palette(index: u8) -> (r: MaterialColor)
    requires
        index < PALETTE_SIZE,
    ensures
        r == palette_spec(index),
{
    if index == 0 {
        MaterialColor::Yellow
    } else if index == 1 {
        MaterialColor::Orange
    } else if index == 2 {
        MaterialColor::YellowGreen
    } else if index == 3 {
        MaterialColor::Green
    } else {
        MaterialColor::Pink
    }
}

/// Relies on rand::thread_rng and Rng::gen_range: a uniform draw from the
/// non-empty range `0..n` lies in that range.
#[verifier::external_body]
pub(crate) fn draw_below(n: u8) -> (r: u8)
    requires
        n > 0,
    ensures
        r < n,
{
    rand::thread_rng().gen_range(0..n)
}

/// A colour drawn at random from the collector's palette.
pub fn random_palette_color() -> (r: MaterialColor)
    ensures
        exists|i: u8| i < PALETTE_SIZE && r == palette_spec(i),
{
    let i = draw_below(PALETTE_SIZE);
    palette(i)
}

#[derive(Clone, Copy, Debug, PartialEq, Eq, Structural)]
pub struct Ball {
    pub id: u64,
    pub groups: CollisionGroups,
    pub color: MaterialColor,
    pub velocity: Velocity,
}

pub open spec fn new_ball_spec(id: u64, color: MaterialColor) -> Ball {
    Ball {
        id,
        groups: CollisionGroups { memberships: GROUP_BALL, filters: BALL_BASE_FILTER },
        color,
        velocity: Velocity { x: 0, y: 0, z: 0 },
    }
}

/// A ball at rest with the base collision groups.
pub fn spawn_single_ball(id: u64, color: MaterialColor) -> (r: Ball)
    ensures
        r == new_ball_spec(id, color),
{
    Ball { id, groups: CollisionGroups::ball_default(), color, velocity: Velocity::zero() }
}

} // verus!
