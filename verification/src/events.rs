//! What the systems are told and what they announce.

use crate::components::AsteroidSize;
use crate::math::Vec2;
use vstd::prelude::*;

verus! {

/// Two bodies have started to touch. The physics engine names them in no
/// particular order.
#[derive(Clone, Copy, Debug, PartialEq, Eq, Structural)]
pub struct CollisionStart {
    pub body1: u64,
    pub body2: u64,
}

/// A sound to be played.
#[derive(Clone, Copy, Debug, PartialEq, Eq, Structural)]
pub enum PlaySoundEvent {
    Explosion,
    Bonk,
    Laser,
    GameStart,
    GameOver,
    MenuBoop,
}

/// What has hurt the player.
#[derive(Clone, Copy, Debug, PartialEq, Eq, Structural)]
pub enum DamageSource {
    AsteroidEntity(AsteroidSize),
}

impl DamageSource {
    pub open spec fn spec_damage(self) -> nat {
        match self {
            DamageSource::AsteroidEntity(size) => size.spec_damage(),
        }
    }

    /// The hit points this source takes away.
    pub fn damage(&self) -> (r: u32)
        ensures
            r == self.spec_damage(),
    {
        match self {
            DamageSource::AsteroidEntity(size) => size.damage(),
        }
    }
}

/// The player has been hurt.
#[derive(Clone, Copy, Debug, PartialEq, Eq, Structural)]
pub struct DamageEvent {
    pub player: u64,
    pub source_type: DamageSource,
    /// Where it happened.
    pub position: Vec2,
}

/// The player has run out of hit points.
#[derive(Clone, Copy, Debug, PartialEq, Eq, Structural)]
pub struct DeathEvent {
    pub player: u64,
    /// Where it happened.
    pub position: Vec2,
}

} // verus!
