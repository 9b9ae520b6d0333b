//! What a collision does: a projectile destroys an asteroid, scores, and
//! splits it into two smaller ones; an asteroid hurts the player.

use crate::components::{Asteroid, AsteroidSize, Body, EntityKind, Health};
use crate::events::CollisionStart;
use crate::math::{lemma_scaled_within, lemma_unit_dir_within, trunc_div, Vec2, COORD_MAX};
use crate::resources::{AppState, GameData};
use crate::systems::asteroid::spawn_asteroid_entity;
use crate::sequences::{lemma_take_ends, lemma_take_step};
use rand::rngs::StdRng;
use vstd::prelude::*;

verus! {

/// Speed at which the two halves of a split asteroid part, in sub-units per second.
pub const SPLIT_SPEED: i64 = 100_000;

/// Gap left between the two halves of a split asteroid, in sub-units.
pub const SPLIT_PADDING: i64 = 5_000;

/// Square of the speed, in sub-units per second, above which a projectile's
/// own velocity gives the direction of impact.
pub const IMPACT_SPEED_SQUARED: i64 = 1_000_000;

/// One of the two asteroids that a destroyed asteroid leaves behind.
#[derive(Clone, Copy, Debug, PartialEq, Eq, Structural)]
pub struct Fragment {
    pub size: AsteroidSize,
    pub position: Vec2,
    pub velocity: Vec2,
}

/// A projectile has destroyed an asteroid.
#[derive(Clone, Copy, Debug, PartialEq, Eq)]
pub struct ProjectileHit {
    /// The projectile, which is destroyed.
    pub projectile: u64,
    /// The asteroid, which is destroyed.
    pub asteroid: u64,
    /// The points awarded.
    pub score: u32,
    /// Where the asteroid was, and the explosion is shown.
    pub explosion_at: Vec2,
    /// The two asteroids to create in its place, if any.
    pub fragments: Option<(Fragment, Fragment)>,
}

/// The points for destroying an asteroid: the smaller the target, the more.
pub open spec fn spec_score_value(size: AsteroidSize) -> nat {
    match size {
        AsteroidSize::Small => 100,
        AsteroidSize::Medium => 50,
        AsteroidSize::Large => 20,
    }
}

pub fn score_value(size: AsteroidSize) -> (r: u32)
    ensures
        r == spec_score_value(size),
{
    match size {
        AsteroidSize::Small => 100,
        AsteroidSize::Medium => 50,
        AsteroidSize::Large => 20,
    }
}

/// The sizes of the two asteroids a destroyed one splits into. A small
/// asteroid leaves nothing.
pub open spec fn spec_children_sizes(size: AsteroidSize) -> Option<(AsteroidSize, AsteroidSize)> {
    match size {
        AsteroidSize::Large => Some((AsteroidSize::Medium, AsteroidSize::Small)),
        AsteroidSize::Medium => Some((AsteroidSize::Small, AsteroidSize::Small)),
        AsteroidSize::Small => None,
    }
}

pub fn children_sizes(size: AsteroidSize) -> (r: Option<(AsteroidSize, AsteroidSize)>)
    ensures
        r == spec_children_sizes(size),
{
    match size {
        AsteroidSize::Large => Some((AsteroidSize::Medium, AsteroidSize::Small)),
        AsteroidSize::Medium => Some((AsteroidSize::Small, AsteroidSize::Small)),
        AsteroidSize::Small => None,
    }
}

/// What an asteroid splits into is smaller than the asteroid, so that
/// splitting comes to an end.
pub proof fn lemma_children_smaller(size: AsteroidSize)
    ensures
        spec_children_sizes(size) matches Some((first, second)) ==> first.spec_radius()
            < size.spec_radius() && second.spec_radius() < size.spec_radius(),
{
}

/// The direction of impact, as a vector of length one thousand: that of the
/// projectile's velocity if it moves faster than one unit per second, else
/// that from the projectile to the asteroid.
pub open spec fn impact_direction(
    projectile_velocity: Vec2,
    asteroid_position: Vec2,
    projectile_position: Vec2,
) -> Vec2 {
    if projectile_velocity.norm_squared() > IMPACT_SPEED_SQUARED {
        projectile_velocity.unit_dir()
    } else {
        asteroid_position.diff(projectile_position).unit_dir()
    }
}

/// The velocity both halves share: that of the asteroid plus two fifths of
/// the projectile's.
pub open spec fn base_velocity(asteroid_velocity: Vec2, projectile_velocity: Vec2) -> Vec2 {
    asteroid_velocity.sum(projectile_velocity.scaled_by(2, 5))
}

/// The two asteroids which an asteroid of class `size` at `position` splits
/// into when a projectile destroys it. They part along the axis at right
/// angles to the direction of impact.
pub open spec fn spec_fragment(
    size: AsteroidSize,
    position: Vec2,
    asteroid_velocity: Vec2,
    projectile_velocity: Vec2,
    projectile_position: Vec2,
) -> Option<(Fragment, Fragment)> {
    match spec_children_sizes(size) {
        None => None,
        Some((size1, size2)) => {
            let axis = impact_direction(
                projectile_velocity,
                position,
                projectile_position,
            ).quarter_turned();
            let base = base_velocity(asteroid_velocity, projectile_velocity);
            let push = axis.times(SPLIT_SPEED / 1000);
            let half_gap = (size1.spec_radius() + size2.spec_radius() + SPLIT_PADDING) / 2;
            let offset = axis.scaled_by(half_gap, 1000);
            Some(
                (
                    Fragment {
                        size: size1,
                        position: position.sum(offset),
                        velocity: base.sum(push),
                    },
                    Fragment {
                        size: size2,
                        position: position.diff(offset),
                        velocity: base.diff(push),
                    },
                ),
            )
        },
    }
}

/// Splits a destroyed asteroid in two.
pub fn fragment(
    size: AsteroidSize,
    position: Vec2,
    asteroid_velocity: Vec2,
    projectile_velocity: Vec2,
    projectile_position: Vec2,
) -> (children: Option<(Fragment, Fragment)>)
    requires
        position.bounded(),
        asteroid_velocity.bounded(),
        projectile_velocity.bounded(),
        projectile_position.bounded(),
    ensures
        children == spec_fragment(
            size,
            position,
            asteroid_velocity,
            projectile_velocity,
            projectile_position,
        ),
{
    match children_sizes(size) {
        None => None,
        Some((size1, size2)) => {
            proof {
                lemma_scaled_within(projectile_velocity, COORD_MAX as int, 2, 5, COORD_MAX as int);
            }
            let impulse = projectile_velocity.scaled(2, 5);
            let base = asteroid_velocity.plus(impulse);
            let impact = if projectile_velocity.length_squared() > IMPACT_SPEED_SQUARED as u128 {
                projectile_velocity.normalize_or_zero()
            } else {
                position.minus(projectile_position).normalize_or_zero()
            };
            let axis = impact.perp();
            let push = axis.scale(SPLIT_SPEED / 1000);
            let half_gap: i64 = (size1.radius() + size2.radius() + SPLIT_PADDING) / 2;
            proof {
                lemma_scaled_within(axis, 1000, half_gap as int, 1000, 1_000_000);
            }
            let offset = axis.scaled(half_gap, 1000);
            Some(
                (
                    Fragment {
                        size: size1,
                        position: position.plus(offset),
                        velocity: base.plus(push),
                    },
                    Fragment {
                        size: size2,
                        position: position.minus(offset),
                        velocity: base.minus(push),
                    },
                ),
            )
        },
    }
}

/// A large asteroid splits into a medium and a small one, a medium one into
/// two small ones, and a small one into nothing. The two halves lie and move
/// evenly about the asteroid they come from: their velocities average to the
/// asteroid's velocity plus two fifths of the projectile's, their places to
/// the place of the asteroid.
pub proof fn lemma_fragment_balanced(
    size: AsteroidSize,
    position: Vec2,
    asteroid_velocity: Vec2,
    projectile_velocity: Vec2,
    projectile_position: Vec2,
)
    requires
        position.bounded(),
        asteroid_velocity.bounded(),
        projectile_velocity.bounded(),
        projectile_position.bounded(),
    ensures
        ({
            let children = spec_fragment(
                size,
                position,
                asteroid_velocity,
                projectile_velocity,
                projectile_position,
            );
            let base = base_velocity(asteroid_velocity, projectile_velocity);
            &&& size == AsteroidSize::Small <==> children is None
            &&& size == AsteroidSize::Large ==> children->Some_0.0.size == AsteroidSize::Medium
                && children->Some_0.1.size == AsteroidSize::Small
            &&& size == AsteroidSize::Medium ==> children->Some_0.0.size == AsteroidSize::Small
                && children->Some_0.1.size == AsteroidSize::Small
            &&& base.x == asteroid_velocity.x + trunc_div(projectile_velocity.x * 2, 5)
            &&& base.y == asteroid_velocity.y + trunc_div(projectile_velocity.y * 2, 5)
            &&& children matches Some((first, second)) ==> {
                &&& first.velocity.x + second.velocity.x == 2 * base.x
                &&& first.velocity.y + second.velocity.y == 2 * base.y
                &&& first.position.x + second.position.x == 2 * position.x
                &&& first.position.y + second.position.y == 2 * position.y
            }
        }),
{
    lemma_scaled_within(projectile_velocity, COORD_MAX as int, 2, 5, COORD_MAX as int);
    match spec_children_sizes(size) {
        None => {},
        Some((size1, size2)) => {
            lemma_unit_dir_within(projectile_velocity);
            lemma_unit_dir_within(position.diff(projectile_position));
            let axis = impact_direction(
                projectile_velocity,
                position,
                projectile_position,
            ).quarter_turned();
            let half_gap = (size1.spec_radius() + size2.spec_radius() + SPLIT_PADDING) / 2;
            lemma_scaled_within(axis, 1000, half_gap, 1000, 1_000_000);
        },
    }
}

/// The body that goes by the name `entity`: the first of `bodies` to do so.
pub open spec fn find_body(bodies: Seq<Body>, entity: u64) -> Option<Body>
    decreases bodies.len(),
{
    if bodies.len() == 0 {
        None
    } else if bodies[0].entity == entity {
        Some(bodies[0])
    } else {
        find_body(bodies.skip(1), entity)
    }
}

/// Every body is where, and moves as fast as, the arithmetic can follow.
pub open spec fn bodies_bounded(bodies: Seq<Body>) -> bool {
    forall|i: int|
        0 <= i < bodies.len() ==> (#[trigger] bodies[i]).position.bounded()
            && bodies[i].velocity.bounded()
}

/// A body that is found has the name asked for and is one of the bodies.
pub proof fn lemma_find_body_member(bodies: Seq<Body>, entity: u64)
    ensures
        find_body(bodies, entity) matches Some(body) ==> body.entity == entity && bodies.contains(
            body,
        ),
        find_body(bodies, entity) is None ==> forall|i: int|
            0 <= i < bodies.len() ==> (#[trigger] bodies[i]).entity != entity,
    decreases bodies.len(),
{
    if bodies.len() > 0 {
        if bodies[0].entity == entity {
            assert(bodies[0] == bodies[0]);
        } else {
            let rest = bodies.skip(1);
            lemma_find_body_member(rest, entity);
            match find_body(rest, entity) {
                Some(body) => {
                    let i = choose|i: int| 0 <= i < rest.len() && rest[i] == body;
                    assert(bodies[i + 1] == body);
                },
                None => {
                    assert forall|i: int| 0 <= i < bodies.len() implies (
                    #[trigger] bodies[i]).entity != entity by {
                        if i > 0 {
                            assert(rest[i - 1] == bodies[i]);
                        }
                    }
                },
            }
        }
    }
}

/// Looks a body up by the name of its entity.
pub fn lookup(bodies: &Vec<Body>, entity: u64) -> (found: Option<Body>)
    ensures
        found == find_body(bodies@, entity),
        found matches Some(body) ==> body.entity == entity && bodies@.contains(body),
{
    let mut i: usize = 0;
    assert(bodies@.skip(0) =~= bodies@);
    proof {
        lemma_find_body_member(bodies@, entity);
    }
    while i < bodies.len()
        invariant
            i <= bodies.len(),
            find_body(bodies@, entity) == find_body(bodies@.skip(i as int), entity),
            find_body(bodies@, entity) matches Some(body) ==> body.entity == entity
                && bodies@.contains(body),
        decreases bodies.len() - i,
    {
        let body: Body = bodies[i];
        assert(bodies@.skip(i as int)[0] == body);
        if body.entity == entity {
            return Some(body);
        }
        assert(bodies@.skip(i as int).skip(1) =~= bodies@.skip(i as int + 1));
        i += 1;
    }
    None
}

/// What the hit of `projectile` on `asteroid`, of class `size`, brings about.
pub open spec fn hit_of(projectile: Body, asteroid: Body, size: AsteroidSize) -> ProjectileHit {
    ProjectileHit {
        projectile: projectile.entity,
        asteroid: asteroid.entity,
        score: spec_score_value(size) as u32,
        explosion_at: asteroid.position,
        fragments: spec_fragment(
            size,
            asteroid.position,
            asteroid.velocity,
            projectile.velocity,
            projectile.position,
        ),
    }
}

/// What a collision brings about if one of the two bodies is a projectile and
/// the other an asteroid, whichever is named first. Any other pair of bodies,
/// and a name that no body goes by, bring about nothing.
pub open spec fn spec_projectile_hit(bodies: Seq<Body>, event: CollisionStart) -> Option<
    ProjectileHit,
> {
    match (find_body(bodies, event.body1), find_body(bodies, event.body2)) {
        (Some(first), Some(second)) => match (first.kind, second.kind) {
            (EntityKind::Projectile, EntityKind::Asteroid(size)) => Some(
                hit_of(first, second, size),
            ),
            (EntityKind::Asteroid(size), EntityKind::Projectile) => Some(
                hit_of(second, first, size),
            ),
            _ => None,
        },
        _ => None,
    }
}

/// Tells what one collision brings about between a projectile and an asteroid.
pub fn projectile_hit(bodies: &Vec<Body>, event: CollisionStart) -> (hit: Option<ProjectileHit>)
    requires
        bodies_bounded(bodies@),
    ensures
        hit == spec_projectile_hit(bodies@, event),
{
    let first = lookup(bodies, event.body1);
    let second = lookup(bodies, event.body2);
    match (first, second) {
        (Some(first), Some(second)) => {
            match (first.kind, second.kind) {
                (EntityKind::Projectile, EntityKind::Asteroid(size)) => Some(
                    ProjectileHit {
                        projectile: first.entity,
                        asteroid: second.entity,
                        score: score_value(size),
                        explosion_at: second.position,
                        fragments: fragment(
                            size,
                            second.position,
                            second.velocity,
                            first.velocity,
                            first.position,
                        ),
                    },
                ),
                (EntityKind::Asteroid(size), EntityKind::Projectile) => Some(
                    ProjectileHit {
                        projectile: second.entity,
                        asteroid: first.entity,
                        score: score_value(size),
                        explosion_at: first.position,
                        fragments: fragment(
                            size,
                            first.position,
                            first.velocity,
                            second.velocity,
                            second.position,
                        ),
                    },
                ),
                _ => None,
            }
        },
        _ => None,
    }
}

/// What the collisions of one frame bring about between projectiles and
/// asteroids, in the order of the events.
pub open spec fn spec_projectile_hits(bodies: Seq<Body>, events: Seq<CollisionStart>) -> Seq<
    ProjectileHit,
>
    decreases events.len(),
{
    if events.len() == 0 {
        Seq::empty()
    } else {
        let earlier = spec_projectile_hits(bodies, events.drop_last());
        match spec_projectile_hit(bodies, events.last()) {
            Some(hit) => earlier.push(hit),
            None => earlier,
        }
    }
}

/// The points that `hits` award together.
pub open spec fn total_score(hits: Seq<ProjectileHit>) -> int
    decreases hits.len(),
{
    if hits.len() == 0 {
        0
    } else {
        total_score(hits.drop_last()) + hits.last().score
    }
}

/// A hit together with the asteroids created in place of the one destroyed.
#[derive(Clone, Debug)]
pub struct HitOutcome {
    pub hit: ProjectileHit,
    /// The new asteroids: none, or one for each fragment.
    pub children: Vec<Asteroid>,
}

impl HitOutcome {
    /// The children are what the hit asks for: none where it names no
    /// fragments, else two, each a well-formed instance of its fragment.
    pub open spec fn realised(self) -> bool {
        match self.hit.fragments {
            None => self.children.len() == 0,
            Some((first, second)) => {
                &&& self.children.len() == 2
                &&& self.children[0].instance_of(first.position, first.velocity, first.size)
                &&& self.children[0].well_formed()
                &&& self.children[1].instance_of(second.position, second.velocity, second.size)
                &&& self.children[1].well_formed()
            },
        }
    }
}

/// The hits of a frame award what the hits of all its events but the last
/// award, and what the last one awards if it is a hit.
pub proof fn lemma_score_step(bodies: Seq<Body>, events: Seq<CollisionStart>)
    requires
        events.len() > 0,
    ensures
        total_score(spec_projectile_hits(bodies, events)) == total_score(
            spec_projectile_hits(bodies, events.drop_last()),
        ) + match spec_projectile_hit(bodies, events.last()) {
            Some(hit) => hit.score as int,
            None => 0,
        },
{
    let earlier = spec_projectile_hits(bodies, events.drop_last());
    match spec_projectile_hit(bodies, events.last()) {
        Some(hit) => {
            assert(earlier.push(hit).drop_last() =~= earlier);
        },
        None => {},
    }
}

/// The first `n` events award no more points than all of them.
pub proof fn lemma_score_grows(bodies: Seq<Body>, events: Seq<CollisionStart>, n: int)
    requires
        0 <= n <= events.len(),
    ensures
        0 <= total_score(spec_projectile_hits(bodies, events.take(n))) <= total_score(
            spec_projectile_hits(bodies, events),
        ),
    decreases events.len() - n,
{
    if n == events.len() {
        lemma_take_ends(events);
        lemma_score_not_negative(spec_projectile_hits(bodies, events));
    } else {
        lemma_score_grows(bodies, events, n + 1);
        lemma_take_step(events, n);
        lemma_score_step(bodies, events.take(n + 1));
        lemma_score_not_negative(spec_projectile_hits(bodies, events.take(n)));
    }
}

/// No hit awards more than a hundred points, so the hits of a frame award
/// no more than a hundred for each event.
pub proof fn lemma_score_at_most_hundred_each(bodies: Seq<Body>, events: Seq<CollisionStart>)
    ensures
        total_score(spec_projectile_hits(bodies, events)) <= 100 * events.len(),
    decreases events.len(),
{
    if events.len() > 0 {
        lemma_score_at_most_hundred_each(bodies, events.drop_last());
        lemma_score_step(bodies, events);
    }
}

/// Points are never taken away.
pub proof fn lemma_score_not_negative(hits: Seq<ProjectileHit>)
    ensures
        total_score(hits) >= 0,
    decreases hits.len(),
{
    if hits.len() > 0 {
        lemma_score_not_negative(hits.drop_last());
    }
}

/// Handles the collisions of one frame between projectiles and asteroids.
/// For each, the projectile and the asteroid are to be removed, the score
/// grows by what the asteroid is worth, and the asteroids it splits into are
/// created.
pub fn handle_projectile_collisions(
    events: &Vec<CollisionStart>,
    game_state: &mut GameData,
    bodies: &Vec<Body>,
    rng: &mut StdRng,
) -> (outcomes: Vec<HitOutcome>)
    requires
        bodies_bounded(bodies@),
        old(game_state).score + total_score(spec_projectile_hits(bodies@, events@)) <= u32::MAX,
    ensures
        outcomes.len() == spec_projectile_hits(bodies@, events@).len(),
        forall|i: int|
            0 <= i < outcomes.len() ==> (#[trigger] outcomes[i]).hit == spec_projectile_hits(
                bodies@,
                events@,
            )[i],
        forall|i: int| 0 <= i < outcomes.len() ==> (#[trigger] outcomes[i]).realised(),
        final(game_state).score == old(game_state).score + total_score(
            spec_projectile_hits(bodies@, events@),
        ),
        final(game_state).is_game_over == old(game_state).is_game_over,
{
    let mut outcomes: Vec<HitOutcome> = Vec::new();
    let mut i: usize = 0;
    proof {
        lemma_take_ends(events@);
    }
    while i < events.len()
        invariant
            i <= events.len(),
            bodies_bounded(bodies@),
            old(game_state).score + total_score(spec_projectile_hits(bodies@, events@))
                <= u32::MAX,
            outcomes.len() == spec_projectile_hits(bodies@, events@.take(i as int)).len(),
            forall|k: int|
                0 <= k < outcomes.len() ==> (#[trigger] outcomes[k]).hit == spec_projectile_hits(
                    bodies@,
                    events@.take(i as int),
                )[k],
            forall|k: int| 0 <= k < outcomes.len() ==> (#[trigger] outcomes[k]).realised(),
            game_state.score == old(game_state).score + total_score(
                spec_projectile_hits(bodies@, events@.take(i as int)),
            ),
            game_state.is_game_over == old(game_state).is_game_over,
        decreases events.len() - i,
    {
        let event: CollisionStart = events[i];
        proof {
            lemma_take_step(events@, i as int);
            lemma_score_grows(bodies@, events@, i as int + 1);
            lemma_score_step(bodies@, events@.take(i as int + 1));
        }
        match projectile_hit(bodies, event) {
            None => {},
            Some(hit) => {
                game_state.score = game_state.score + hit.score;
                let mut children: Vec<Asteroid> = Vec::new();
                match hit.fragments {
                    None => {},
                    Some((first, second)) => {
                        children.push(
                            spawn_asteroid_entity(first.position, first.velocity, first.size, rng),
                        );
                        children.push(
                            spawn_asteroid_entity(
                                second.position,
                                second.velocity,
                                second.size,
                                rng,
                            ),
                        );
                    },
                }
                let outcome = HitOutcome { hit, children };
                assert(outcome.realised());
                outcomes.push(outcome);
            },
        }
        i += 1;
    }
    outcomes
}

/// It makes no difference which of the two bodies a collision names first.
pub proof fn lemma_projectile_hit_symmetric(bodies: Seq<Body>, a: u64, b: u64)
    ensures
        spec_projectile_hit(bodies, CollisionStart { body1: a, body2: b }) == spec_projectile_hit(
            bodies,
            CollisionStart { body1: b, body2: a },
        ),
{
}

/// A frame with a single collision has a single hit, that of the collision,
/// or none, and awards the points of that hit.
pub proof fn lemma_single_event(bodies: Seq<Body>, event: CollisionStart)
    ensures
        spec_projectile_hits(bodies, seq![event]) == match spec_projectile_hit(bodies, event) {
            Some(hit) => seq![hit],
            None => Seq::<ProjectileHit>::empty(),
        },
        total_score(spec_projectile_hits(bodies, seq![event])) == match spec_projectile_hit(
            bodies,
            event,
        ) {
            Some(hit) => hit.score as int,
            None => 0,
        },
{
    let events = seq![event];
    assert(events.drop_last() =~= Seq::<CollisionStart>::empty());
    assert(events.last() == event);
    let none = Seq::<ProjectileHit>::empty();
    assert(spec_projectile_hits(bodies, events.drop_last()) == none);
    lemma_score_step(bodies, events);
    match spec_projectile_hit(bodies, event) {
        Some(hit) => {
            assert(none.push(hit) =~= seq![hit]);
        },
        None => {},
    }
}

/// What a hit leaves of the asteroid: a small one leaves nothing, a large
/// one a medium and a small one, a medium one two small ones. The two move
/// evenly about the velocity they share, that of the asteroid plus two
/// fifths of the projectile's, and lie evenly about the place of the
/// asteroid. It makes no difference which of the two bodies the collision
/// names first.
pub proof fn lemma_hit_fragments(bodies: Seq<Body>, event: CollisionStart)
    requires
        bodies_bounded(bodies),
        spec_projectile_hit(bodies, event) is Some,
    ensures
        ({
            let hit = spec_projectile_hit(bodies, event)->Some_0;
            let projectile = find_body(bodies, hit.projectile)->Some_0;
            let asteroid = find_body(bodies, hit.asteroid)->Some_0;
            let base = base_velocity(asteroid.velocity, projectile.velocity);
            &&& asteroid.kind matches EntityKind::Asteroid(size)
            &&& size == AsteroidSize::Small <==> hit.fragments is None
            &&& size == AsteroidSize::Large ==> hit.fragments->Some_0.0.size == AsteroidSize::Medium
                && hit.fragments->Some_0.1.size == AsteroidSize::Small
            &&& size == AsteroidSize::Medium ==> hit.fragments->Some_0.0.size == AsteroidSize::Small
                && hit.fragments->Some_0.1.size == AsteroidSize::Small
            &&& hit.fragments matches Some((first, second)) ==> {
                &&& first.velocity.x + second.velocity.x == 2 * base.x
                &&& first.velocity.y + second.velocity.y == 2 * base.y
                &&& first.position.x + second.position.x == 2 * asteroid.position.x
                &&& first.position.y + second.position.y == 2 * asteroid.position.y
            }
            &&& spec_projectile_hit(
                bodies,
                CollisionStart { body1: event.body2, body2: event.body1 },
            ) == Some(hit)
        }),
{
    lemma_find_body_member(bodies, event.body1);
    lemma_find_body_member(bodies, event.body2);
    let hit = spec_projectile_hit(bodies, event)->Some_0;
    let projectile = find_body(bodies, hit.projectile)->Some_0;
    let asteroid = find_body(bodies, hit.asteroid)->Some_0;
    assert(bodies.contains(projectile) && bodies.contains(asteroid));
    match asteroid.kind {
        EntityKind::Asteroid(size) => {
            lemma_fragment_balanced(
                size,
                asteroid.position,
                asteroid.velocity,
                projectile.velocity,
                projectile.position,
            );
        },
        _ => {},
    }
}

/// A hit removes exactly one projectile and one asteroid, the two bodies of
/// the collision, and awards the points that the asteroid's size class is
/// worth.
pub proof fn lemma_projectile_hit_removes_pair(bodies: Seq<Body>, event: CollisionStart)
    requires
        spec_projectile_hit(bodies, event) is Some,
    ensures
        ({
            let hit = spec_projectile_hit(bodies, event)->Some_0;
            &&& find_body(bodies, hit.projectile) matches Some(projectile)
            &&& projectile.kind is Projectile
            &&& find_body(bodies, hit.asteroid) matches Some(asteroid)
            &&& asteroid.kind matches EntityKind::Asteroid(size)
            &&& hit.score == spec_score_value(size)
            &&& hit.projectile != hit.asteroid
            &&& (hit.projectile == event.body1 && hit.asteroid == event.body2) || (hit.projectile
                == event.body2 && hit.asteroid == event.body1)
        }),
{
    lemma_find_body_member(bodies, event.body1);
    lemma_find_body_member(bodies, event.body2);
}

/// An asteroid has run into the player.
#[derive(Clone, Copy, Debug, PartialEq, Eq, Structural)]
pub struct PlayerAsteroidCollision {
    pub player_entity: u64,
    /// The hit points the asteroid takes away.
    pub damage: u32,
}

/// The collision of the player with an asteroid, if that is what the two
/// entities are, whichever is named first.
pub open spec fn spec_player_asteroid_collision(
    bodies: Seq<Body>,
    entity1: u64,
    entity2: u64,
) -> Option<PlayerAsteroidCollision> {
    match (find_body(bodies, entity1), find_body(bodies, entity2)) {
        (Some(first), Some(second)) => match (first.kind, second.kind) {
            (EntityKind::Player, EntityKind::Asteroid(size)) => Some(
                PlayerAsteroidCollision {
                    player_entity: first.entity,
                    damage: size.spec_damage() as u32,
                },
            ),
            (EntityKind::Asteroid(size), EntityKind::Player) => Some(
                PlayerAsteroidCollision {
                    player_entity: second.entity,
                    damage: size.spec_damage() as u32,
                },
            ),
            _ => None,
        },
        _ => None,
    }
}

/// Tells whether two entities are the player and an asteroid, and if so what
/// the asteroid does to the player.
pub fn check_player_asteroid_collision(entity1: u64, entity2: u64, bodies: &Vec<Body>) -> (found:
    Option<PlayerAsteroidCollision>)
    ensures
        found == spec_player_asteroid_collision(bodies@, entity1, entity2),
{
    let first = lookup(bodies, entity1);
    let second = lookup(bodies, entity2);
    match (first, second) {
        (Some(first), Some(second)) => {
            match (first.kind, second.kind) {
                (EntityKind::Player, EntityKind::Asteroid(size)) => Some(
                    PlayerAsteroidCollision { player_entity: first.entity, damage: size.damage() },
                ),
                (EntityKind::Asteroid(size), EntityKind::Player) => Some(
                    PlayerAsteroidCollision { player_entity: second.entity, damage: size.damage() },
                ),
                _ => None,
            }
        },
        _ => None,
    }
}

/// Applies the damage of one collision to the player. The collision that
/// brings the hit points from above zero to zero is the player's death: the
/// player is to be removed, which the result says, and the game is over. A
/// collision with a player whose hit points are gone already changes
/// nothing. The asteroid stays.
pub fn handle_collision(
    collision: PlayerAsteroidCollision,
    health: &mut Health,
    next_state: &mut AppState,
) -> (despawned: Option<u64>)
    ensures
        final(health).points() == Health::after_damage(
            old(health).points(),
            collision.damage as nat,
        ),
        final(health).capacity() == old(health).capacity(),
        Health::kills(old(health).points(), collision.damage as nat) ==> despawned == Some(
            collision.player_entity,
        ) && *final(next_state) == AppState::GameOver,
        !Health::kills(old(health).points(), collision.damage as nat) ==> despawned is None
            && *final(next_state) == *old(next_state),
{
    let alive: bool = !health.is_dead();
    health.damage(collision.damage);
    if alive && health.is_dead() {
        *next_state = AppState::GameOver;
        Some(collision.player_entity)
    } else {
        None
    }
}

/// The hit points left of `points` after the collisions of `events`.
pub open spec fn points_after(bodies: Seq<Body>, events: Seq<CollisionStart>, points: nat) -> nat
    decreases events.len(),
{
    if events.len() == 0 {
        points
    } else {
        let before = points_after(bodies, events.drop_last(), points);
        match spec_player_asteroid_collision(bodies, events.last().body1, events.last().body2) {
            Some(collision) => Health::after_damage(before, collision.damage as nat),
            None => before,
        }
    }
}

/// The player's death among the collisions of `events`, if there is one:
/// the player of the collision that brings the hit points from above zero to
/// zero. There is at most one such collision; what follows it changes
/// nothing.
pub open spec fn lethal_collision(
    bodies: Seq<Body>,
    events: Seq<CollisionStart>,
    points: nat,
) -> Option<u64>
    decreases events.len(),
{
    if events.len() == 0 {
        None
    } else {
        let earlier = lethal_collision(bodies, events.drop_last(), points);
        let before = points_after(bodies, events.drop_last(), points);
        match spec_player_asteroid_collision(bodies, events.last().body1, events.last().body2) {
            Some(collision) => if Health::kills(before, collision.damage as nat) {
                Some(collision.player_entity)
            } else {
                earlier
            },
            None => earlier,
        }
    }
}

/// The damage that the collisions of `events` do to the player, added up.
pub open spec fn total_damage(bodies: Seq<Body>, events: Seq<CollisionStart>) -> nat
    decreases events.len(),
{
    if events.len() == 0 {
        0
    } else {
        let before = total_damage(bodies, events.drop_last());
        match spec_player_asteroid_collision(bodies, events.last().body1, events.last().body2) {
            Some(collision) => before + collision.damage as nat,
            None => before,
        }
    }
}

/// Handles the collisions of one frame between the player and asteroids. Each
/// takes hit points away; the asteroids stay. If one of them is the player's
/// death, the player is to be removed, which the result says, once, and the
/// game is over.
pub fn handle_collisions_simple(
    events: &Vec<CollisionStart>,
    bodies: &Vec<Body>,
    health: &mut Health,
    next_state: &mut AppState,
) -> (despawned: Option<u64>)
    ensures
        final(health).points() == points_after(bodies@, events@, old(health).points()),
        final(health).capacity() == old(health).capacity(),
        despawned == lethal_collision(bodies@, events@, old(health).points()),
        *final(next_state) == if despawned is Some {
            AppState::GameOver
        } else {
            *old(next_state)
        },
{
    let mut despawned: Option<u64> = None;
    let mut i: usize = 0;
    proof {
        lemma_take_ends(events@);
    }
    while i < events.len()
        invariant
            i <= events.len(),
            health.points() == points_after(bodies@, events@.take(i as int), old(health).points()),
            health.capacity() == old(health).capacity(),
            despawned == lethal_collision(bodies@, events@.take(i as int), old(health).points()),
            *next_state == if despawned is Some {
                AppState::GameOver
            } else {
                *old(next_state)
            },
        decreases events.len() - i,
    {
        let event: CollisionStart = events[i];
        proof {
            lemma_take_step(events@, i as int);
        }
        match check_player_asteroid_collision(event.body1, event.body2, bodies) {
            Some(collision) => {
                match handle_collision(collision, health, next_state) {
                    Some(entity) => {
                        despawned = Some(entity);
                    },
                    None => {},
                }
            },
            None => {},
        }
        i += 1;
    }
    despawned
}

/// The player dies in a frame exactly if there were hit points before it
/// and there are none after it.
pub proof fn lemma_lethal_collision(bodies: Seq<Body>, events: Seq<CollisionStart>, points: nat)
    ensures
        lethal_collision(bodies, events, points) is Some <==> points > 0 && points_after(
            bodies,
            events,
            points,
        ) == 0,
        points_after(bodies, events, points) <= points,
    decreases events.len(),
{
    if events.len() > 0 {
        lemma_lethal_collision(bodies, events.drop_last(), points);
    }
}

/// It makes no difference which of the two entities is named first.
pub proof fn lemma_player_collision_symmetric(bodies: Seq<Body>, a: u64, b: u64)
    ensures
        spec_player_asteroid_collision(bodies, a, b) == spec_player_asteroid_collision(
            bodies,
            b,
            a,
        ),
{
}

/// Damage adds up: the hit points left after a frame's collisions are those
/// left after their total damage, and so never below zero nor above what
/// there was.
pub proof fn lemma_points_after_total(bodies: Seq<Body>, events: Seq<CollisionStart>, points: nat)
    ensures
        points_after(bodies, events, points) == Health::after_damage(
            points,
            total_damage(bodies, events),
        ),
        points_after(bodies, events, points) <= points,
    decreases events.len(),
{
    if events.len() > 0 {
        lemma_points_after_total(bodies, events.drop_last(), points);
    }
}

} // verus!
