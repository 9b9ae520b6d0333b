//! Projectiles: how they fly and when they expire.

use crate::math::{div_toward_zero, lemma_trunc_div_bound, trunc_div, Vec2, COORD_MAX};
use crate::resources::{PhysicsConfig, MAX_FRAME};
use crate::sequences::{lemma_take_ends, lemma_take_step};
use vstd::prelude::*;

verus! {

/// A countdown: the time left before something expires, in microseconds.
#[derive(Clone, Copy, Debug, PartialEq, Eq, Structural)]
pub struct Lifetime {
    pub remaining: u64,
}

impl Lifetime {
    /// The time left after `delta` more has passed: never less than none.
    pub open spec fn after(self, delta: int) -> Lifetime {
        Lifetime {
            remaining: if delta >= self.remaining {
                0
            } else {
                (self.remaining - delta) as u64
            },
        }
    }

    pub fn new(duration: u64) -> (l: Lifetime)
        ensures
            l.remaining == duration,
    {
        Lifetime { remaining: duration }
    }

    /// Lets time `delta` pass.
    pub fn tick(&mut self, delta: u64)
        ensures
            *final(self) == old(self).after(delta as int),
    {
        self.remaining = self.remaining.saturating_sub(delta);
    }

    /// Whether the time has run out.
    pub fn is_finished(&self) -> (r: bool)
        ensures
            r <==> self.remaining == 0,
    {
        self.remaining == 0
    }
}

/// A projectile in flight.
#[derive(Clone, Copy, Debug, PartialEq, Eq, Structural)]
pub struct Projectile {
    pub entity: u64,
    pub position: Vec2,
    /// The direction it was fired in, a vector of length one thousand.
    pub forward: Vec2,
}

/// Something that expires.
#[derive(Clone, Copy, Debug, PartialEq, Eq, Structural)]
pub struct Expiring {
    pub entity: u64,
    pub lifetime: Lifetime,
}

/// The way a projectile travels in `delta` microseconds at `speed` in the
/// direction `forward`, each coordinate rounded toward zero.
pub open spec fn travel(forward: Vec2, speed: int, delta: int) -> Vec2 {
    Vec2 {
        x: trunc_div(forward.x * speed * delta, 1_000_000_000) as i64,
        y: trunc_div(forward.y * speed * delta, 1_000_000_000) as i64,
    }
}

/// The projectile after `delta` microseconds of flight.
pub open spec fn moved(projectile: Projectile, speed: int, delta: int) -> Projectile {
    Projectile {
        entity: projectile.entity,
        position: projectile.position.sum(travel(projectile.forward, speed, delta)),
        forward: projectile.forward,
    }
}

/// The projectiles are where, and the speed and the frame are such that, the
/// arithmetic can follow them.
pub open spec fn flight_bounded(projectiles: Seq<Projectile>, speed: int, delta: int) -> bool {
    &&& 0 <= speed <= COORD_MAX
    &&& 0 <= delta <= MAX_FRAME
    &&& forall|i: int|
        0 <= i < projectiles.len() ==> (#[trigger] projectiles[i]).position.bounded()
            && projectiles[i].forward.within(1000)
}

/// One coordinate of the way travelled.
fn travel_along(forward: i64, speed: i64, delta: u64) -> (r: i64)
    requires
        -1000 <= forward <= 1000,
        0 <= speed <= COORD_MAX,
        0 <= delta <= MAX_FRAME,
    ensures
        r == trunc_div(forward * speed * delta, 1_000_000_000),
        -1_000_000_000_000 <= r <= 1_000_000_000_000,
{
    assert(-1_000_000_000_000 <= forward * speed <= 1_000_000_000_000) by (nonlinear_arith)
        requires
            -1000 <= forward <= 1000,
            0 <= speed <= 1_000_000_000,
    ;
    let per_second: i128 = (forward as i128) * (speed as i128);
    assert(-(1_000_000_000_000 * 1_000_000_000) <= per_second * delta <= 1_000_000_000_000
        * 1_000_000_000) by (nonlinear_arith)
        requires
            -1_000_000_000_000 <= per_second <= 1_000_000_000_000,
            0 <= delta <= 1_000_000_000,
    ;
    proof {
        lemma_trunc_div_bound(per_second * delta, 1_000_000_000, 1_000_000_000_000);
    }
    let way: i128 = div_toward_zero(per_second * (delta as i128), 1_000_000_000);
    way as i64
}

/// Moves every projectile the way it travels in `delta` microseconds.
pub fn move_projectiles(projectiles: &mut Vec<Projectile>, delta: u64, config: &PhysicsConfig)
    requires
        flight_bounded(old(projectiles)@, config.projectile_speed as int, delta as int),
    ensures
        final(projectiles).len() == old(projectiles).len(),
        forall|i: int|
            0 <= i < old(projectiles).len() ==> #[trigger] final(projectiles)[i] == moved(
                old(projectiles)[i],
                config.projectile_speed as int,
                delta as int,
            ),
{
    let n: usize = projectiles.len();
    let mut i: usize = 0;
    while i < n
        invariant
            i <= n,
            n == projectiles.len(),
            n == old(projectiles).len(),
            flight_bounded(old(projectiles)@, config.projectile_speed as int, delta as int),
            forall|k: int|
                0 <= k < i ==> #[trigger] projectiles[k] == moved(
                    old(projectiles)[k],
                    config.projectile_speed as int,
                    delta as int,
                ),
            forall|k: int| i <= k < n ==> #[trigger] projectiles[k] == old(projectiles)[k],
        decreases n - i,
    {
        let projectile: Projectile = projectiles[i];
        let way = Vec2::new(
            travel_along(projectile.forward.x, config.projectile_speed, delta),
            travel_along(projectile.forward.y, config.projectile_speed, delta),
        );
        assert(way == travel(projectile.forward, config.projectile_speed as int, delta as int));
        projectiles.set(
            i,
            Projectile {
                entity: projectile.entity,
                position: projectile.position.plus(way),
                forward: projectile.forward,
            },
        );
        i += 1;
    }
}

/// The entities of `items` whose time has run out, in order.
pub open spec fn expired(items: Seq<Expiring>) -> Seq<u64>
    decreases items.len(),
{
    if items.len() == 0 {
        Seq::empty()
    } else {
        let earlier = expired(items.drop_last());
        if items.last().lifetime.remaining == 0 {
            earlier.push(items.last().entity)
        } else {
            earlier
        }
    }
}

/// The items after `delta` more microseconds have passed.
pub open spec fn aged(items: Seq<Expiring>, delta: int) -> Seq<Expiring> {
    Seq::new(
        items.len(),
        |i: int| Expiring { entity: items[i].entity, lifetime: items[i].lifetime.after(delta) },
    )
}

/// Lets `delta` microseconds pass for everything that expires, and names
/// what has expired, for removal.
pub fn cleanup_projectiles(items: &mut Vec<Expiring>, delta: u64) -> (gone: Vec<u64>)
    ensures
        final(items)@ == aged(old(items)@, delta as int),
        gone@ == expired(final(items)@),
{
    let n: usize = items.len();
    let mut gone: Vec<u64> = Vec::new();
    let mut i: usize = 0;
    proof {
        lemma_take_ends(items@);
    }
    while i < n
        invariant
            i <= n,
            n == items.len(),
            n == old(items).len(),
            forall|k: int|
                0 <= k < i ==> #[trigger] items[k] == aged(old(items)@, delta as int)[k],
            forall|k: int| i <= k < n ==> #[trigger] items[k] == old(items)[k],
            gone@ == expired(items@.take(i as int)),
        decreases n - i,
    {
        let mut item: Expiring = items[i];
        item.lifetime.tick(delta);
        let ghost before = items@;
        items.set(i, item);
        proof {
            assert(items@.take(i as int) =~= before.take(i as int));
            lemma_take_step(items@, i as int);
        }
        if item.lifetime.is_finished() {
            gone.push(item.entity);
        }
        i += 1;
    }
    proof {
        lemma_take_ends(items@);
    }
    assert(items@ =~= aged(old(items)@, delta as int));
    gone
}

} // verus!
