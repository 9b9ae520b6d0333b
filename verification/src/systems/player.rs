//! The ship: what the keys do to its thrusters, where it may go, and how it
//! fires.

use crate::components::{Health, Player, Velocity};
use crate::math::{lemma_scaled_within, Vec2, COORD_MAX};
use crate::resources::PhysicsConfig;
use crate::systems::projectile::Lifetime;
use vstd::prelude::*;

verus! {

/// The ship stays between these bounds, in sub-units.
pub const MIN_X: i64 = -385_000;

pub const MAX_X: i64 = 385_000;

pub const MIN_Y: i64 = -285_000;

pub const MAX_Y: i64 = 285_000;

/// A projectile appears this far in front of the ship, in sub-units, clear
/// of its hull.
pub const MUZZLE_DISTANCE: i64 = 30_000;

/// `value`, or the nearer of the two bounds if it lies outside them.
pub open spec fn clamped(value: int, low: int, high: int) -> int {
    if value < low {
        low
    } else if value > high {
        high
    } else {
        value
    }
}

/// Brings the ship back inside the screen.
pub fn constrain_player_position(position: Vec2) -> (inside: Vec2)
    ensures
        inside.x == clamped(position.x as int, MIN_X as int, MAX_X as int),
        inside.y == clamped(position.y as int, MIN_Y as int, MAX_Y as int),
{
    let x: i64 = if position.x < MIN_X {
        MIN_X
    } else if position.x > MAX_X {
        MAX_X
    } else {
        position.x
    };
    let y: i64 = if position.y < MIN_Y {
        MIN_Y
    } else if position.y > MAX_Y {
        MAX_Y
    } else {
        position.y
    };
    Vec2 { x, y }
}

/// Hit points of a new ship.
pub const PLAYER_HEALTH: u32 = 100;

/// Mass of the ship, as handed to the physics engine.
pub const PLAYER_MASS: u32 = 15;

/// Creates the ship: at rest, with full health.
pub fn spawn_player(config: &PhysicsConfig) -> (ship: Player)
    ensures
        ship.health.points() == PLAYER_HEALTH,
        ship.health.capacity() == PLAYER_HEALTH,
        ship.velocity.value == (Vec2 { x: 0, y: 0 }),
        ship.mass == PLAYER_MASS,
        ship.hull == (
            Vec2 { x: 0, y: 20_000 },
            Vec2 { x: -20_000i64, y: -15_000i64 },
            Vec2 { x: 20_000, y: -15_000i64 },
        ),
        ship.linear_damping == config.drag,
        ship.angular_damping == config.angular_drag,
{
    Player {
        health: Health::new(PLAYER_HEALTH),
        velocity: Velocity::new(0, 0),
        mass: PLAYER_MASS,
        hull: (Vec2::new(0, 20_000), Vec2::new(-20_000, -15_000), Vec2::new(20_000, -15_000)),
        linear_damping: config.drag,
        angular_damping: config.angular_drag,
    }
}

/// The steering keys that are held down.
#[derive(Clone, Copy, Debug, PartialEq, Eq, Structural)]
pub struct SteeringInput {
    pub left: bool,
    pub right: bool,
    pub up: bool,
    pub down: bool,
}

/// The side of the ship a thruster sits on.
#[derive(Clone, Copy, Debug, PartialEq, Eq, Structural)]
pub enum Thruster {
    Left,
    Right,
}

/// The way a thruster pushes.
#[derive(Clone, Copy, Debug, PartialEq, Eq, Structural)]
pub enum ThrusterType {
    Main,
    Reverse,
}

impl SteeringInput {
    /// The left main thruster fires for a right turn and for going ahead.
    pub open spec fn left_main(self) -> bool {
        self.right || self.up
    }

    /// The right main thruster fires for a left turn and for going ahead.
    pub open spec fn right_main(self) -> bool {
        self.left || self.up
    }

    /// The reverse thrusters fire for going back.
    pub open spec fn reverse(self) -> bool {
        self.down
    }

    /// Whether the given thruster fires.
    pub open spec fn fires(self, thruster: Thruster, kind: ThrusterType) -> bool {
        match (thruster, kind) {
            (Thruster::Left, ThrusterType::Main) => self.left_main(),
            (Thruster::Right, ThrusterType::Main) => self.right_main(),
            (Thruster::Left, ThrusterType::Reverse) => self.reverse(),
            (Thruster::Right, ThrusterType::Reverse) => self.reverse(),
        }
    }

    /// Any thruster fires.
    pub open spec fn thrusting(self) -> bool {
        self.left || self.right || self.up || self.down
    }
}

/// Tells whether the flame of a thruster is to be shown.
pub fn update_thruster_visuals(
    input: SteeringInput,
    thruster: Thruster,
    kind: ThrusterType,
) -> (visible: bool)
    ensures
        visible == input.fires(thruster, kind),
{
    match (thruster, kind) {
        (Thruster::Left, ThrusterType::Main) => input.right || input.up,
        (Thruster::Right, ThrusterType::Main) => input.left || input.up,
        (Thruster::Left, ThrusterType::Reverse) => input.down,
        (Thruster::Right, ThrusterType::Reverse) => input.down,
    }
}

/// What to do with the sound of the thrusters.
#[derive(Clone, Copy, Debug, PartialEq, Eq, Structural)]
pub enum AudioAction {
    Play,
    Pause,
}

/// The sound of the thrusters plays exactly while a thruster fires: it is
/// started if it is paused and one fires, paused if it plays and none does.
pub fn update_thruster_audio(input: SteeringInput, paused: bool) -> (action: Option<AudioAction>)
    ensures
        action == if input.thrusting() && paused {
            Some(AudioAction::Play)
        } else if !input.thrusting() && !paused {
            Some(AudioAction::Pause)
        } else {
            None
        },
{
    let thrusting: bool = input.up || input.down || input.left || input.right;
    if thrusting {
        if paused {
            Some(AudioAction::Play)
        } else {
            None
        }
    } else {
        if !paused {
            Some(AudioAction::Pause)
        } else {
            None
        }
    }
}

/// The force and the torque that the thrusters put on the ship.
#[derive(Clone, Copy, Debug, PartialEq, Eq, Structural)]
pub struct Thrust {
    pub force: Vec2,
    pub torque: i64,
}

/// `value` if the condition holds, else nothing.
pub open spec fn when(condition: bool, value: int) -> int {
    if condition {
        value
    } else {
        0
    }
}

/// The thrust for the keys held down. Each main thruster that fires pushes
/// ahead and turns the ship, the left one clockwise, the right one
/// counter-clockwise; the reverse thrusters push back.
pub open spec fn spec_thrust(input: SteeringInput, forward: Vec2, config: PhysicsConfig) -> Thrust {
    let ahead = forward.scaled_by(config.thruster_force as int, 1000);
    let back = forward.scaled_by(config.reverse_thrust_force as int, 1000);
    Thrust {
        force: Vec2 {
            x: (when(input.left_main(), ahead.x as int) + when(input.right_main(), ahead.x as int)
                - when(input.reverse(), back.x as int)) as i64,
            y: (when(input.left_main(), ahead.y as int) + when(input.right_main(), ahead.y as int)
                - when(input.reverse(), back.y as int)) as i64,
        },
        torque: (when(input.right_main(), config.rotation_torque as int) - when(
            input.left_main(),
            config.rotation_torque as int,
        )) as i64,
    }
}

/// Works out the thrust on the ship from the keys held down. `forward` is
/// the way the ship points, a vector of length one thousand.
pub fn player_movement(input: SteeringInput, forward: Vec2, config: &PhysicsConfig) -> (thrust:
    Thrust)
    requires
        forward.within(1000),
        0 <= config.thruster_force <= COORD_MAX,
        0 <= config.reverse_thrust_force <= COORD_MAX,
        -COORD_MAX <= config.rotation_torque <= COORD_MAX,
    ensures
        thrust == spec_thrust(input, forward, *config),
{
    proof {
        lemma_scaled_within(
            forward,
            1000,
            config.thruster_force as int,
            1000,
            config.thruster_force as int,
        );
        lemma_scaled_within(
            forward,
            1000,
            config.reverse_thrust_force as int,
            1000,
            config.reverse_thrust_force as int,
        );
    }
    let ahead = forward.scaled(config.thruster_force, 1000);
    let back = forward.scaled(config.reverse_thrust_force, 1000);
    let mut force = Vec2::zero();
    let mut torque: i64 = 0;
    let left_thruster_active: bool = input.right || input.up;
    let right_thruster_active: bool = input.left || input.up;
    if left_thruster_active {
        force = force.plus(ahead);
        torque = torque - config.rotation_torque;
    }
    if right_thruster_active {
        force = force.plus(ahead);
        torque = torque + config.rotation_torque;
    }
    if input.down {
        force = force.minus(back);
    }
    Thrust { force, torque }
}

/// A projectile about to be created.
#[derive(Clone, Copy, Debug, PartialEq, Eq, Structural)]
pub struct Shot {
    /// Where it appears: in front of the ship.
    pub position: Vec2,
    /// The way it flies: the way the ship points.
    pub forward: Vec2,
    pub lifetime: Lifetime,
}

/// The shot a ship at `position`, pointing `forward`, fires.
pub open spec fn spec_shot(position: Vec2, forward: Vec2, config: PhysicsConfig) -> Shot {
    Shot {
        position: position.sum(forward.scaled_by(MUZZLE_DISTANCE as int, 1000)),
        forward,
        lifetime: Lifetime { remaining: config.projectile_lifetime },
    }
}

/// Fires a projectile if the fire key has just been pressed and there is a
/// ship to fire it. `ship` is where the ship is and the way it points, a
/// vector of length one thousand.
pub fn player_fire(fire_pressed: bool, ship: Option<(Vec2, Vec2)>, config: &PhysicsConfig) -> (shot:
    Option<Shot>)
    requires
        ship matches Some((position, forward)) ==> position.bounded() && forward.within(1000),
    ensures
        shot == match ship {
            Some((position, forward)) if fire_pressed => Some(
                spec_shot(position, forward, *config),
            ),
            _ => None,
        },
{
    if !fire_pressed {
        return None;
    }
    match ship {
        None => None,
        Some((position, forward)) => {
            proof {
                lemma_scaled_within(forward, 1000, MUZZLE_DISTANCE as int, 1000, 30_000);
            }
            let offset = forward.scaled(MUZZLE_DISTANCE, 1000);
            Some(
                Shot {
                    position: position.plus(offset),
                    forward,
                    lifetime: Lifetime::new(config.projectile_lifetime),
                },
            )
        },
    }
}

/// The hit points to show: those of the player while there is one, none
/// once the game is over, and nothing new otherwise.
pub fn update_health_display(health: Option<u32>, is_game_over: bool) -> (shown: Option<u32>)
    ensures
        shown == match health {
            Some(points) => Some(points),
            None => if is_game_over {
                Some(0u32)
            } else {
                None
            },
        },
{
    match health {
        Some(points) => Some(points),
        None => if is_game_over {
            Some(0)
        } else {
            None
        },
    }
}

} // verus!
