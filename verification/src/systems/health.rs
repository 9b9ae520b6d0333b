//! Damage and death of the player, told through events.

use crate::components::Health;
use crate::events::{DamageEvent, DeathEvent, PlaySoundEvent};
use crate::math::Vec2;
use crate::resources::AppState;
use crate::sequences::{lemma_take_ends, lemma_take_step};
use vstd::prelude::*;

verus! {

/// The damage of `events`, added up.
pub open spec fn damage_sum(events: Seq<DamageEvent>) -> nat
    decreases events.len(),
{
    if events.len() == 0 {
        0
    } else {
        damage_sum(events.drop_last()) + events.last().source_type.spec_damage()
    }
}

/// The sound of a blow: that of the end of the game if it leaves no hit
/// points, else a bonk.
pub open spec fn sound_of_blow(points_left: nat) -> PlaySoundEvent {
    if points_left == 0 {
        PlaySoundEvent::GameOver
    } else {
        PlaySoundEvent::Bonk
    }
}

/// The death that `events` cause to a player with `points` hit points, if
/// they cause one: that of the blow which brings the hit points from above
/// zero to zero.
pub open spec fn death_of(events: Seq<DamageEvent>, points: nat) -> Option<DeathEvent>
    decreases events.len(),
{
    if events.len() == 0 {
        None
    } else {
        let before = Health::after_damage(points, damage_sum(events.drop_last()));
        if Health::kills(before, events.last().source_type.spec_damage()) {
            Some(DeathEvent { player: events.last().player, position: events.last().position })
        } else {
            death_of(events.drop_last(), points)
        }
    }
}

/// The sounds that `events` make on a player with `points` hit points: one
/// for each blow that finds the player alive.
pub open spec fn sounds_of(events: Seq<DamageEvent>, points: nat) -> Seq<PlaySoundEvent>
    decreases events.len(),
{
    if events.len() == 0 {
        Seq::empty()
    } else {
        let earlier = sounds_of(events.drop_last(), points);
        let before = Health::after_damage(points, damage_sum(events.drop_last()));
        if before > 0 {
            earlier.push(sound_of_blow(Health::after_damage(points, damage_sum(events))))
        } else {
            earlier
        }
    }
}

/// What the blows of one frame lead to.
#[derive(Clone, Debug)]
pub struct HealthReport {
    /// The player's death, if one of the blows was it.
    pub death: Option<DeathEvent>,
    /// One for each blow that found the player alive.
    pub sounds: Vec<PlaySoundEvent>,
}

/// Applies the blows of one frame to the player's health, one after the
/// other. Each blow that finds the player alive makes a sound; the one that
/// leaves no hit points announces the player's death. Blows after that
/// change nothing.
pub fn handle_health_message(events: &Vec<DamageEvent>, health: &mut Health) -> (report:
    HealthReport)
    ensures
        final(health).points() == Health::after_damage(old(health).points(), damage_sum(events@)),
        final(health).capacity() == old(health).capacity(),
        report.death == death_of(events@, old(health).points()),
        report.sounds@ == sounds_of(events@, old(health).points()),
{
    let mut death: Option<DeathEvent> = None;
    let mut sounds: Vec<PlaySoundEvent> = Vec::new();
    let mut i: usize = 0;
    proof {
        lemma_take_ends(events@);
    }
    while i < events.len()
        invariant
            i <= events.len(),
            health.points() == Health::after_damage(
                old(health).points(),
                damage_sum(events@.take(i as int)),
            ),
            health.capacity() == old(health).capacity(),
            death == death_of(events@.take(i as int), old(health).points()),
            sounds@ == sounds_of(events@.take(i as int), old(health).points()),
        decreases events.len() - i,
    {
        let event: DamageEvent = events[i];
        proof {
            lemma_take_step(events@, i as int);
        }
        let alive: bool = !health.is_dead();
        health.damage(event.source_type.damage());
        if alive {
            if health.is_dead() {
                sounds.push(PlaySoundEvent::GameOver);
                death = Some(DeathEvent { player: event.player, position: event.position });
            } else {
                sounds.push(PlaySoundEvent::Bonk);
            }
        }
        i += 1;
    }
    HealthReport { death, sounds }
}

/// A player dies of the blows of a frame exactly if there were hit points
/// before them and there are none after them.
pub proof fn lemma_death_of(events: Seq<DamageEvent>, points: nat)
    ensures
        death_of(events, points) is Some <==> points > 0 && Health::after_damage(
            points,
            damage_sum(events),
        ) == 0,
        sounds_of(events, points).len() <= events.len(),
    decreases events.len(),
{
    if events.len() > 0 {
        lemma_death_of(events.drop_last(), points);
    }
}

/// What is to be done about one death: the player is removed and an
/// explosion shown where the player was.
#[derive(Clone, Copy, Debug, PartialEq, Eq, Structural)]
pub struct DeathResponse {
    pub despawn: u64,
    pub explosion_at: Vec2,
}

/// Answers the deaths of one frame. Any death ends the game.
pub fn handle_death_message(events: &Vec<DeathEvent>, next_state: &mut AppState) -> (responses: Vec<
    DeathResponse,
>)
    ensures
        responses.len() == events.len(),
        forall|i: int|
            0 <= i < events.len() ==> #[trigger] responses[i] == (DeathResponse {
                despawn: events[i].player,
                explosion_at: events[i].position,
            }),
        *final(next_state) == if events.len() > 0 {
            AppState::GameOver
        } else {
            *old(next_state)
        },
{
    let mut responses: Vec<DeathResponse> = Vec::new();
    let mut i: usize = 0;
    while i < events.len()
        invariant
            i <= events.len(),
            responses.len() == i,
            forall|k: int|
                0 <= k < i ==> #[trigger] responses[k] == (DeathResponse {
                    despawn: events[k].player,
                    explosion_at: events[k].position,
                }),
            *next_state == if i > 0 {
                AppState::GameOver
            } else {
                *old(next_state)
            },
        decreases events.len() - i,
    {
        let event: DeathEvent = events[i];
        responses.push(DeathResponse { despawn: event.player, explosion_at: event.position });
        *next_state = AppState::GameOver;
        i += 1;
    }
    responses
}

} // verus!
