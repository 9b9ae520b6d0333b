//! Rules of an asteroid-dodging arcade game, stated and proved over
//! fixed-point integers: shape generation, spawning, collisions,
//! fragmentation and clean-up.

pub mod components;
pub mod events;
pub mod math;
pub mod random;
pub mod resources;
pub mod sequences;
pub mod shapes;
pub mod systems;
