//! Gameplay core of a 3D pinball table: actuators, collision-group routing,
//! ball lifecycle, lamp cooldowns and the event-driven capture / end-game
//! state machine. Physics, rendering and input polling stay with the host
//! engine; this crate decides what happens to the game state.

pub mod groups;
pub mod actuators;
pub mod lamp;
pub mod ball;
pub mod table;
pub mod laws;
