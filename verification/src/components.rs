//! The data attached to the things in play: velocity, health, the size classes
//! of asteroids and the polygon an asteroid is drawn and collided with.

use crate::math::{floor_sqrt, isqrt, Vec2};
use vstd::prelude::*;

verus! {

/// A linear velocity, in sub-units per second.
#[derive(Clone, Copy, Debug, PartialEq, Eq, Structural)]
pub struct Velocity {
    pub value: Vec2,
}

impl Velocity {
    pub fn new(x: i64, y: i64) -> (v: Velocity)
        ensures
            v.value.x == x,
            v.value.y == y,
    {
        Velocity { value: Vec2::new(x, y) }
    }

    /// The speed: the length of the velocity vector, rounded down.
    pub fn magnitude(&self) -> (r: u64)
        ensures
            r == floor_sqrt(self.value.norm_squared()),
    {
        let root: u128 = isqrt(self.value.length_squared());
        root as u64
    }
}

/// Hit points: a current value that never exceeds the maximum it started from
/// and never drops below zero.
#[derive(Clone, Copy, Debug)]
pub struct Health {
    current: u32,
    max: u32,
}

impl Health {
    #[verifier::type_invariant]
    spec fn within_max(self) -> bool {
        self.current <= self.max
    }

    /// The hit points left.
    pub closed spec fn points(self) -> nat {
        self.current as nat
    }

    /// The hit points a fresh value started with.
    pub closed spec fn capacity(self) -> nat {
        self.max as nat
    }

    /// The hit points left after `amount` of damage: never below zero.
    pub open spec fn after_damage(points: nat, amount: nat) -> nat {
        if amount >= points {
            0
        } else {
            (points - amount) as nat
        }
    }

    /// Damage of `amount` ends a life that was not over yet: it brings
    /// hit points from above zero to zero.
    pub open spec fn kills(points: nat, amount: nat) -> bool {
        points > 0 && Health::after_damage(points, amount) == 0
    }

    pub fn new(max: u32) -> (h: Health)
        ensures
            h.points() == max,
            h.capacity() == max,
    {
        Health { current: max, max }
    }

    pub fn current(&self) -> (r: u32)
        ensures
            r == self.points(),
            r <= self.capacity(),
    {
        proof {
            use_type_invariant(self);
        }
        self.current
    }

    /// Takes `amount` hit points away, stopping at zero.
    pub fn damage(&mut self, amount: u32)
        ensures
            final(self).points() == Health::after_damage(old(self).points(), amount as nat),
            final(self).capacity() == old(self).capacity(),
    {
        proof {
            use_type_invariant(&*self);
        }
        self.current = self.current.saturating_sub(amount);
    }

    pub fn is_dead(&self) -> (r: bool)
        ensures
            r <==> self.points() == 0,
    {
        self.current == 0
    }

    /// The hit points left as a whole percentage of the maximum, rounded down.
    pub fn percent(&self) -> (r: u32)
        requires
            self.capacity() > 0,
        ensures
            r == (100 * self.points()) / self.capacity(),
            r <= 100,
    {
        proof {
            use_type_invariant(self);
        }
        let scaled: u64 = 100 * (self.current as u64);
        let q: u64 = scaled / (self.max as u64);
        assert(q <= 100) by (nonlinear_arith)
            requires
                q == scaled / (self.max as u64),
                scaled == 100 * self.current,
                self.current <= self.max,
                self.max > 0,
        ;
        q as u32
    }
}

/// The three size classes of asteroids, from the smallest up. The class alone
/// fixes an asteroid's radius, mass, number of vertices and the damage it
/// deals.
#[derive(Clone, Copy, Debug, PartialEq, Eq, PartialOrd, Ord, Hash, Structural)]
pub enum AsteroidSize {
    Small,
    Medium,
    Large,
}

impl AsteroidSize {
    pub open spec fn spec_radius(self) -> int {
        match self {
            AsteroidSize::Small => 15_000,
            AsteroidSize::Medium => 30_000,
            AsteroidSize::Large => 45_000,
        }
    }

    pub open spec fn spec_mass(self) -> int {
        match self {
            AsteroidSize::Small => 1,
            AsteroidSize::Medium => 3,
            AsteroidSize::Large => 7,
        }
    }

    pub open spec fn spec_vertex_count(self) -> nat {
        match self {
            AsteroidSize::Small => 10,
            AsteroidSize::Medium => 17,
            AsteroidSize::Large => 27,
        }
    }

    pub open spec fn spec_damage(self) -> nat {
        match self {
            AsteroidSize::Small => 10,
            AsteroidSize::Medium => 20,
            AsteroidSize::Large => 30,
        }
    }

    /// The radius, in sub-units.
    pub fn radius(&self) -> (r: i64)
        ensures
            r == self.spec_radius(),
    {
        match self {
            AsteroidSize::Small => 15_000,
            AsteroidSize::Medium => 30_000,
            AsteroidSize::Large => 45_000,
        }
    }

    /// The mass handed to the physics engine.
    pub fn mass(&self) -> (r: u32)
        ensures
            r == self.spec_mass(),
    {
        match self {
            AsteroidSize::Small => 1,
            AsteroidSize::Medium => 3,
            AsteroidSize::Large => 7,
        }
    }

    /// The number of vertices of the polygon.
    pub fn vertex_count(&self) -> (r: usize)
        ensures
            r == self.spec_vertex_count(),
    {
        match self {
            AsteroidSize::Small => 10,
            AsteroidSize::Medium => 17,
            AsteroidSize::Large => 27,
        }
    }

    /// The hit points a collision with the player takes away.
    pub fn damage(&self) -> (r: u32)
        ensures
            r == self.spec_damage(),
    {
        match self {
            AsteroidSize::Small => 10,
            AsteroidSize::Medium => 20,
            AsteroidSize::Large => 30,
        }
    }
}

/// The outline of an asteroid: the vertices of its polygon, in order.
#[derive(Clone, Debug)]
pub struct PolygonMesh {
    pub vertices: Vec<Vec2>,
}

impl PolygonMesh {
    pub fn new(vertices: Vec<Vec2>) -> (m: PolygonMesh)
        ensures
            m.vertices == vertices,
    {
        PolygonMesh { vertices }
    }
}

/// The ship as it enters the game.
#[derive(Clone, Copy, Debug)]
pub struct Player {
    pub health: Health,
    pub velocity: Velocity,
    pub mass: u32,
    /// The corners of the triangle the ship collides with: nose, left, right.
    pub hull: (Vec2, Vec2, Vec2),
    /// Linear damping, in thousandths.
    pub linear_damping: i64,
    /// Angular damping, in thousandths.
    pub angular_damping: i64,
}

/// The role an entity plays.
#[derive(Clone, Copy, Debug, PartialEq, Eq, Structural)]
pub enum EntityKind {
    Player,
    Asteroid(AsteroidSize),
    Projectile,
}

/// An entity as the physics engine knows it at the start of a frame: its
/// role, where it is and how it moves.
#[derive(Clone, Copy, Debug, PartialEq, Eq, Structural)]
pub struct Body {
    pub entity: u64,
    pub kind: EntityKind,
    pub position: Vec2,
    pub velocity: Vec2,
}

/// An asteroid, ready to be handed to the physics engine and the renderer.
#[derive(Clone, Debug)]
pub struct Asteroid {
    pub size: AsteroidSize,
    pub position: Vec2,
    /// Linear velocity, in sub-units per second.
    pub velocity: Vec2,
    /// Spin, in thousandths of a radian per second.
    pub angular_velocity: i64,
    pub mass: u32,
    /// Bounciness, in thousandths.
    pub restitution: u32,
    /// The outline, in counter-clockwise order, no two neighbours too close
    /// together.
    pub mesh: PolygonMesh,
}

} // verus!
