use asteroid_dodge::components::{AsteroidSize, Health};
use asteroid_dodge::events::{DamageEvent, DamageSource, DeathEvent, PlaySoundEvent};
use asteroid_dodge::math::Vec2;
use asteroid_dodge::resources::{update_score_display, AppState, GameData, PhysicsConfig};
use asteroid_dodge::systems::camera::{
    apply_camera_position, settle, shake_magnitude, trigger_screen_shake, update_screen_shake,
    CameraTarget, ScreenShake,
};
use asteroid_dodge::systems::game_over::handle_game_over_input;
use asteroid_dodge::systems::health::{handle_death_message, handle_health_message, DeathResponse};
use asteroid_dodge::systems::loading::check_loading;
use asteroid_dodge::systems::menu::handle_menu_input;
use asteroid_dodge::systems::player::{
    constrain_player_position, player_fire, player_movement, spawn_player, update_health_display,
    update_thruster_audio, update_thruster_visuals, AudioAction, Shot, SteeringInput, Thrust,
    Thruster, ThrusterType,
};
use asteroid_dodge::systems::projectile::{
    cleanup_projectiles, move_projectiles, Expiring, Lifetime, Projectile,
};
use rand::rngs::StdRng;
use rand::SeedableRng;

fn keys(left: bool, right: bool, up: bool, down: bool) -> SteeringInput {
    SteeringInput { left, right, up, down }
}

#[test]
fn the_screens_follow_one_another() {
    let mut state = AppState::default();
    assert_eq!(state, AppState::Loading);
    check_loading(&vec![true, false, true], &mut state);
    assert_eq!(state, AppState::Loading);
    check_loading(&vec![true, true, true], &mut state);
    assert_eq!(state, AppState::Menu);

    assert_eq!(handle_menu_input(false, &mut state), vec![]);
    assert_eq!(state, AppState::Menu);
    assert_eq!(
        handle_menu_input(true, &mut state),
        vec![PlaySoundEvent::MenuBoop, PlaySoundEvent::GameStart]
    );
    assert_eq!(state, AppState::Playing);

    let death = DeathEvent { player: 1, position: Vec2::new(5, 6) };
    assert_eq!(
        handle_death_message(&vec![death], &mut state),
        vec![DeathResponse { despawn: 1, explosion_at: Vec2::new(5, 6) }]
    );
    assert_eq!(state, AppState::GameOver);

    assert_eq!(handle_game_over_input(false, &mut state), None);
    assert_eq!(state, AppState::GameOver);
    assert_eq!(handle_game_over_input(true, &mut state), Some(PlaySoundEvent::MenuBoop));
    assert_eq!(state, AppState::Menu);
}

#[test]
fn keys_do_nothing_on_the_wrong_screen() {
    for start in [AppState::Loading, AppState::Playing, AppState::Paused, AppState::GameOver] {
        let mut state = start;
        assert_eq!(handle_menu_input(true, &mut state), vec![]);
        assert_eq!(state, start);
    }
    for start in [AppState::Loading, AppState::Menu, AppState::Playing, AppState::Paused] {
        let mut state = start;
        assert_eq!(handle_game_over_input(true, &mut state), None);
        assert_eq!(state, start);
    }
    for start in [AppState::Menu, AppState::Playing, AppState::Paused, AppState::GameOver] {
        let mut state = start;
        check_loading(&vec![true], &mut state);
        assert_eq!(state, start);
    }
}

#[test]
fn with_nothing_to_load_loading_is_done() {
    let mut state = AppState::Loading;
    check_loading(&vec![], &mut state);
    assert_eq!(state, AppState::Menu);
}

#[test]
fn no_death_no_game_over() {
    let mut state = AppState::Playing;
    assert_eq!(handle_death_message(&vec![], &mut state), vec![]);
    assert_eq!(state, AppState::Playing);
}

fn blow(size: AsteroidSize) -> DamageEvent {
    DamageEvent {
        player: 1,
        source_type: DamageSource::AsteroidEntity(size),
        position: Vec2::new(10, 20),
    }
}

#[test]
fn each_blow_makes_a_sound_and_the_last_one_kills() {
    let mut health = Health::new(100);
    let events = vec![
        blow(AsteroidSize::Large),
        blow(AsteroidSize::Large),
        blow(AsteroidSize::Large),
        blow(AsteroidSize::Large),
    ];
    let report = handle_health_message(&events, &mut health);
    assert_eq!(health.current(), 0);
    assert_eq!(
        report.sounds,
        vec![
            PlaySoundEvent::Bonk,
            PlaySoundEvent::Bonk,
            PlaySoundEvent::Bonk,
            PlaySoundEvent::GameOver
        ]
    );
    assert_eq!(report.death, Some(DeathEvent { player: 1, position: Vec2::new(10, 20) }));
}

#[test]
fn blows_after_death_change_nothing() {
    let mut health = Health::new(30);
    let events = vec![
        blow(AsteroidSize::Medium),
        blow(AsteroidSize::Small),
        blow(AsteroidSize::Large),
        blow(AsteroidSize::Small),
    ];
    let report = handle_health_message(&events, &mut health);
    assert_eq!(health.current(), 0);
    assert_eq!(report.sounds, vec![PlaySoundEvent::Bonk, PlaySoundEvent::GameOver]);
    assert_eq!(report.death, Some(DeathEvent { player: 1, position: Vec2::new(10, 20) }));

    let report = handle_health_message(&events, &mut health);
    assert_eq!(health.current(), 0);
    assert!(report.sounds.is_empty());
    assert_eq!(report.death, None);
}

#[test]
fn a_light_blow_only_bonks() {
    let mut health = Health::new(100);
    let report = handle_health_message(&vec![blow(AsteroidSize::Small)], &mut health);
    assert_eq!(health.current(), 90);
    assert_eq!(report.sounds, vec![PlaySoundEvent::Bonk]);
    assert_eq!(report.death, None);
    let report = handle_health_message(&vec![], &mut health);
    assert_eq!(health.current(), 90);
    assert!(report.sounds.is_empty());
    assert_eq!(report.death, None);
}

#[test]
fn the_ship_stays_on_the_screen() {
    assert_eq!(constrain_player_position(Vec2::new(0, 0)), Vec2::new(0, 0));
    assert_eq!(constrain_player_position(Vec2::new(385_000, -285_000)), Vec2::new(385_000, -285_000));
    assert_eq!(constrain_player_position(Vec2::new(385_001, -285_001)), Vec2::new(385_000, -285_000));
    assert_eq!(constrain_player_position(Vec2::new(-999_999, 999_999)), Vec2::new(-385_000, 285_000));
    assert_eq!(constrain_player_position(Vec2::new(i64::MIN, i64::MAX)), Vec2::new(-385_000, 285_000));
}

#[test]
fn a_new_ship_is_at_rest_with_full_health() {
    let ship = spawn_player(&PhysicsConfig::default());
    assert_eq!(ship.health.current(), 100);
    assert!(!ship.health.is_dead());
    assert_eq!(ship.velocity.value, Vec2::new(0, 0));
    assert_eq!(ship.mass, 15);
    assert_eq!(
        ship.hull,
        (Vec2::new(0, 20_000), Vec2::new(-20_000, -15_000), Vec2::new(20_000, -15_000))
    );
    assert_eq!(ship.linear_damping, 1000);
    assert_eq!(ship.angular_damping, 1000);
}

#[test]
fn each_key_fires_its_thrusters() {
    let none = keys(false, false, false, false);
    let left = keys(true, false, false, false);
    let right = keys(false, true, false, false);
    let up = keys(false, false, true, false);
    let down = keys(false, false, false, true);
    let all = [
        (Thruster::Left, ThrusterType::Main),
        (Thruster::Right, ThrusterType::Main),
        (Thruster::Left, ThrusterType::Reverse),
        (Thruster::Right, ThrusterType::Reverse),
    ];
    let shown = |input: SteeringInput| -> Vec<bool> {
        all.iter().map(|(t, k)| update_thruster_visuals(input, *t, *k)).collect()
    };
    assert_eq!(shown(none), vec![false, false, false, false]);
    assert_eq!(shown(left), vec![false, true, false, false]);
    assert_eq!(shown(right), vec![true, false, false, false]);
    assert_eq!(shown(up), vec![true, true, false, false]);
    assert_eq!(shown(down), vec![false, false, true, true]);
    assert_eq!(shown(keys(true, true, true, true)), vec![true, true, true, true]);
}

#[test]
fn the_thruster_sound_follows_the_keys() {
    let none = keys(false, false, false, false);
    let some = keys(false, false, false, true);
    assert_eq!(update_thruster_audio(some, true), Some(AudioAction::Play));
    assert_eq!(update_thruster_audio(some, false), None);
    assert_eq!(update_thruster_audio(none, false), Some(AudioAction::Pause));
    assert_eq!(update_thruster_audio(none, true), None);
    for input in [keys(true, false, false, false), keys(false, true, false, false), keys(false, false, true, false)] {
        assert_eq!(update_thruster_audio(input, true), Some(AudioAction::Play));
    }
}

#[test]
fn thrusters_push_and_turn_the_ship() {
    let config = PhysicsConfig::default();
    let forward = Vec2::new(0, 1000);
    let thrust = |input: SteeringInput| player_movement(input, forward, &config);
    assert_eq!(
        thrust(keys(false, false, false, false)),
        Thrust { force: Vec2::new(0, 0), torque: 0 }
    );
    assert_eq!(
        thrust(keys(false, false, true, false)),
        Thrust { force: Vec2::new(0, 6_000_000), torque: 0 }
    );
    assert_eq!(
        thrust(keys(true, false, false, false)),
        Thrust { force: Vec2::new(0, 3_000_000), torque: 30_000_000 }
    );
    assert_eq!(
        thrust(keys(false, true, false, false)),
        Thrust { force: Vec2::new(0, 3_000_000), torque: -30_000_000 }
    );
    assert_eq!(
        thrust(keys(false, false, false, true)),
        Thrust { force: Vec2::new(0, -3_000_000), torque: 0 }
    );
    assert_eq!(
        thrust(keys(true, true, true, true)),
        Thrust { force: Vec2::new(0, 3_000_000), torque: 0 }
    );
    assert_eq!(
        player_movement(keys(false, false, true, false), Vec2::new(600, -800), &config),
        Thrust { force: Vec2::new(3_600_000, -4_800_000), torque: 0 }
    );
}

#[test]
fn the_ship_fires_from_its_nose() {
    let config = PhysicsConfig::default();
    let ship = Some((Vec2::new(1_000, 2_000), Vec2::new(600, -800)));
    assert_eq!(
        player_fire(true, ship, &config),
        Some(Shot {
            position: Vec2::new(19_000, -22_000),
            forward: Vec2::new(600, -800),
            lifetime: Lifetime { remaining: 2_000_000 },
        })
    );
    assert_eq!(player_fire(false, ship, &config), None);
    assert_eq!(player_fire(true, None, &config), None);
}

#[test]
fn the_health_shown() {
    assert_eq!(update_health_display(Some(70), false), Some(70));
    assert_eq!(update_health_display(Some(70), true), Some(70));
    assert_eq!(update_health_display(None, true), Some(0));
    assert_eq!(update_health_display(None, false), None);
}

#[test]
fn projectiles_fly_the_way_they_point() {
    let config = PhysicsConfig::default();
    let mut projectiles = vec![
        Projectile { entity: 1, position: Vec2::new(0, 0), forward: Vec2::new(0, 1000) },
        Projectile { entity: 2, position: Vec2::new(100, 200), forward: Vec2::new(-600, -800) },
        Projectile { entity: 3, position: Vec2::new(7, 7), forward: Vec2::new(0, 0) },
    ];
    move_projectiles(&mut projectiles, 16_667, &config);
    assert_eq!(
        projectiles,
        vec![
            Projectile { entity: 1, position: Vec2::new(0, 8_333), forward: Vec2::new(0, 1000) },
            Projectile {
                entity: 2,
                position: Vec2::new(100 - 5_000, 200 - 6_666),
                forward: Vec2::new(-600, -800)
            },
            Projectile { entity: 3, position: Vec2::new(7, 7), forward: Vec2::new(0, 0) },
        ]
    );
    move_projectiles(&mut projectiles, 0, &config);
    assert_eq!(projectiles[0].position, Vec2::new(0, 8_333));
    move_projectiles(&mut projectiles, 1_000_000, &config);
    assert_eq!(projectiles[0].position, Vec2::new(0, 508_333));
}

#[test]
fn a_lifetime_counts_down_to_zero() {
    let mut lifetime = Lifetime::new(2_000_000);
    assert!(!lifetime.is_finished());
    lifetime.tick(1_999_999);
    assert_eq!(lifetime.remaining, 1);
    assert!(!lifetime.is_finished());
    lifetime.tick(1);
    assert!(lifetime.is_finished());
    lifetime.tick(u64::MAX);
    assert_eq!(lifetime.remaining, 0);
    assert!(Lifetime::new(0).is_finished());
}

#[test]
fn expired_projectiles_are_removed() {
    let mut items = vec![
        Expiring { entity: 1, lifetime: Lifetime::new(2_000_000) },
        Expiring { entity: 2, lifetime: Lifetime::new(500_000) },
        Expiring { entity: 3, lifetime: Lifetime::new(300_000) },
        Expiring { entity: 4, lifetime: Lifetime::new(0) },
    ];
    assert_eq!(cleanup_projectiles(&mut items, 500_000), vec![2, 3, 4]);
    assert_eq!(
        items,
        vec![
            Expiring { entity: 1, lifetime: Lifetime { remaining: 1_500_000 } },
            Expiring { entity: 2, lifetime: Lifetime { remaining: 0 } },
            Expiring { entity: 3, lifetime: Lifetime { remaining: 0 } },
            Expiring { entity: 4, lifetime: Lifetime { remaining: 0 } },
        ]
    );
    let mut only_first = vec![items[0]];
    assert_eq!(cleanup_projectiles(&mut only_first, 1_499_999), vec![]);
    assert_eq!(cleanup_projectiles(&mut only_first, 1), vec![1]);
    assert_eq!(cleanup_projectiles(&mut vec![], 1), vec![]);
}

#[test]
fn the_score_shown() {
    assert_eq!(update_score_display(&GameData { score: 170, is_game_over: false }), 170);
    assert_eq!(update_score_display(&GameData::default()), 0);
}

#[test]
fn a_blow_shakes_the_camera() {
    let mut shaker = ScreenShake::default();
    assert_eq!(
        shaker,
        ScreenShake { trauma: 0, offset: Vec2::new(0, 0), max_offset: 20_000, decay_rate: 1500 }
    );
    trigger_screen_shake(&vec![blow(AsteroidSize::Large)], &mut shaker);
    assert_eq!(shaker.trauma, 500);
    trigger_screen_shake(
        &vec![blow(AsteroidSize::Small), blow(AsteroidSize::Medium)],
        &mut shaker,
    );
    assert_eq!(shaker.trauma, 500 + 166 + 333);
    trigger_screen_shake(&vec![], &mut shaker);
    assert_eq!(shaker.trauma, 999);
    assert_eq!(shaker.offset, Vec2::new(0, 0));
    assert_eq!(shaker.max_offset, 20_000);
    assert_eq!(shaker.decay_rate, 1500);
}

#[test]
fn the_shake_is_the_stronger_the_deeper_the_trauma() {
    let shake = |trauma: i64| ScreenShake { trauma, ..ScreenShake::default() };
    assert_eq!(shake_magnitude(&shake(0)), 0);
    assert_eq!(shake_magnitude(&shake(1)), 0);
    assert_eq!(shake_magnitude(&shake(500)), 5_000);
    assert_eq!(shake_magnitude(&shake(1000)), 20_000);
    assert_eq!(shake_magnitude(&shake(2000)), 80_000);
    assert_eq!(shake_magnitude(&shake(7)), 0);
    assert_eq!(shake_magnitude(&shake(8)), 1);
}

#[test]
fn trauma_fades_with_time() {
    let mut shaker = ScreenShake { trauma: 500, ..ScreenShake::default() };
    settle(&mut shaker, 100_000, Vec2::new(12, -34));
    assert_eq!(
        shaker,
        ScreenShake { trauma: 350, offset: Vec2::new(12, -34), max_offset: 20_000, decay_rate: 1500 }
    );
    settle(&mut shaker, 1_000_000, Vec2::new(1, 1));
    assert_eq!(shaker.trauma, 0);
    assert_eq!(shaker.offset, Vec2::new(1, 1));
    settle(&mut shaker, 1_000_000, Vec2::new(1, 1));
    assert_eq!(shaker.trauma, 0);
    assert_eq!(shaker.offset, Vec2::new(0, 0));
}

#[test]
fn hardly_any_trauma_is_none() {
    let mut shaker = ScreenShake { trauma: 1, offset: Vec2::new(5, 5), ..ScreenShake::default() };
    settle(&mut shaker, 16_667, Vec2::new(9, 9));
    assert_eq!(shaker.trauma, 0);
    assert_eq!(shaker.offset, Vec2::new(0, 0));
}

#[test]
fn a_shaken_camera_moves_within_the_magnitude() {
    let mut rng = StdRng::seed_from_u64(21);
    let mut seen: Vec<Vec2> = vec![];
    for _ in 0..200 {
        let mut shaker = ScreenShake { trauma: 500, ..ScreenShake::default() };
        update_screen_shake(&mut shaker, 16_667, &mut rng);
        assert_eq!(shaker.trauma, 500 - 25);
        assert!(shaker.offset.x >= -5_000 && shaker.offset.x < 5_000);
        assert!(shaker.offset.y >= -5_000 && shaker.offset.y < 5_000);
        seen.push(shaker.offset);
    }
    seen.sort_by_key(|v| (v.x, v.y));
    seen.dedup();
    assert!(seen.len() > 150);
}

#[test]
fn a_camera_at_rest_stays_where_it_is() {
    let mut rng = StdRng::seed_from_u64(22);
    let mut shaker = ScreenShake::default();
    update_screen_shake(&mut shaker, 16_667, &mut rng);
    assert_eq!(shaker, ScreenShake::default());
    let mut faint = ScreenShake { trauma: 5, ..ScreenShake::default() };
    update_screen_shake(&mut faint, 0, &mut rng);
    assert_eq!(faint, ScreenShake { trauma: 5, ..ScreenShake::default() });
    let target = CameraTarget { position: Vec2::new(100, 200) };
    assert_eq!(apply_camera_position(&target, &shaker), Vec2::new(100, 200));
    let shaken = ScreenShake { offset: Vec2::new(-30, 40), ..ScreenShake::default() };
    assert_eq!(apply_camera_position(&target, &shaken), Vec2::new(70, 240));
}
