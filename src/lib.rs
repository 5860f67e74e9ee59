//! Session engine of a timed target-shooting arcade game: pseudo-random
//! number generation, collision-free placement, target lifecycle, scoring
//! and the countdown-driven session state machine.

pub mod constants;
pub mod random;
pub mod shooter;
pub mod seven_segment;
pub mod placement;
pub mod score;
pub mod registry;
pub mod game;
pub mod renderer;
