use asteroid_dodge::resources::{
    AppState, AsteroidSpawnConfig, DifficultyConfig, GameData, PhysicsConfig, ShipType,
    SpawnTimer, Timer,
};

#[test]
fn the_curve_starts_at_the_initial_interval() {
    let config = DifficultyConfig::default();
    assert_eq!(config.calculate_interval(0), 1_500_000);
    assert_eq!(config.calculate_interval(0), config.initial_interval);
}

#[test]
fn the_curve_after_a_thousand_seconds() {
    let config = DifficultyConfig::default();
    // 0.1 + 1.4 / (1 + 0.1 * 1000) = 0.113861...
    assert_eq!(config.calculate_interval(1_000_000_000), 113_861);
}

#[test]
fn the_curve_at_chosen_times() {
    let config = DifficultyConfig::default();
    assert_eq!(config.calculate_interval(1), 1_499_999);
    assert_eq!(config.calculate_interval(10_000_000), 800_000);
    assert_eq!(config.calculate_interval(1_500_000), 1_317_391);
    assert_eq!(config.calculate_interval(90_000_000), 240_000);
}

#[test]
fn the_curve_falls_and_stays_within_its_band() {
    let config = DifficultyConfig::default();
    let mut previous = config.calculate_interval(0);
    let mut elapsed: u64 = 0;
    while elapsed < 5_000_000_000 {
        elapsed += 7_777_777;
        let interval = config.calculate_interval(elapsed);
        assert!(interval <= previous);
        assert!(interval >= config.min_interval);
        assert!(interval <= config.initial_interval);
        previous = interval;
    }
    assert!(previous > config.min_interval);
}

#[test]
fn the_curve_reaches_the_minimum_only_by_rounding() {
    let config = DifficultyConfig::default();
    assert_eq!(config.calculate_interval(u64::MAX), 100_000);
}

#[test]
fn a_flat_curve_stays_where_it_is() {
    let config =
        DifficultyConfig { initial_interval: 500_000, min_interval: 500_000, curve_steepness: 100 };
    assert_eq!(config.calculate_interval(0), 500_000);
    assert_eq!(config.calculate_interval(123_456_789), 500_000);
    let config =
        DifficultyConfig { initial_interval: 900_000, min_interval: 500_000, curve_steepness: 0 };
    assert_eq!(config.calculate_interval(123_456_789), 900_000);
}

#[test]
fn a_timer_fires_when_its_duration_has_passed() {
    let mut timer = Timer::new(1_000);
    timer.tick(400);
    assert!(!timer.just_finished());
    assert_eq!(timer.elapsed, 400);
    timer.tick(599);
    assert!(!timer.just_finished());
    timer.tick(1);
    assert!(timer.just_finished());
    assert_eq!(timer.elapsed, 0);
    timer.tick(2_500);
    assert!(timer.just_finished());
    assert_eq!(timer.elapsed, 500);
    timer.tick(1);
    assert!(!timer.just_finished());
    assert_eq!(timer.elapsed, 501);
}

#[test]
fn a_timer_without_duration_fires_at_every_tick() {
    let mut timer = Timer::new(0);
    timer.tick(0);
    assert!(timer.just_finished());
    timer.tick(17);
    assert!(timer.just_finished());
    assert_eq!(timer.elapsed, 0);
}

#[test]
fn a_timer_can_be_set_and_reset() {
    let mut timer = Timer::new(1_000);
    timer.tick(1_200);
    assert!(timer.just_finished());
    timer.set_duration(300);
    assert_eq!(timer, Timer { elapsed: 200, duration: 300, finished: true });
    timer.reset();
    assert_eq!(timer, Timer { elapsed: 0, duration: 300, finished: false });
}

#[test]
fn defaults() {
    assert_eq!(AppState::default(), AppState::Loading);
    assert_eq!(ShipType::default(), ShipType::SimpleShip);
    assert_eq!(GameData::default(), GameData { score: 0, is_game_over: false });
    assert_eq!(
        SpawnTimer::default(),
        SpawnTimer {
            timer: Timer { elapsed: 0, duration: 1_500_000, finished: false },
            elapsed_time: 0
        }
    );
    assert_eq!(
        DifficultyConfig::default(),
        DifficultyConfig {
            initial_interval: 1_500_000,
            min_interval: 100_000,
            curve_steepness: 100
        }
    );
    assert_eq!(
        AsteroidSpawnConfig::default(),
        AsteroidSpawnConfig {
            min_speed: 100_000,
            max_speed: 250_000,
            spawn_y: 320_000,
            spawn_x_range: 370_000
        }
    );
    let physics = PhysicsConfig::default();
    assert_eq!(physics.thruster_force, 3_000_000);
    assert_eq!(physics.rotation_torque, 30_000_000);
    assert_eq!(physics.reverse_thrust_force, 3_000_000);
    assert_eq!(physics.drag, 1000);
    assert_eq!(physics.angular_drag, 1000);
    assert_eq!(physics.projectile_speed, 500_000);
    assert_eq!(physics.projectile_lifetime, 2_000_000);
}

#[test]
fn a_curve_must_not_start_below_its_minimum() {
    assert!(DifficultyConfig::default().is_valid());
    let flat =
        DifficultyConfig { initial_interval: 5, min_interval: 5, curve_steepness: 0 };
    assert!(flat.is_valid());
    let rising =
        DifficultyConfig { initial_interval: 4, min_interval: 5, curve_steepness: 0 };
    assert!(!rising.is_valid());
}

#[test]
fn a_spawn_area_needs_room_to_draw_from() {
    let config = AsteroidSpawnConfig::default();
    assert!(config.is_valid());
    assert!(!AsteroidSpawnConfig { max_speed: config.min_speed, ..config }.is_valid());
    assert!(!AsteroidSpawnConfig { spawn_x_range: 0, ..config }.is_valid());
    assert!(!AsteroidSpawnConfig { spawn_y: 1_000_000_001, ..config }.is_valid());
    assert!(!AsteroidSpawnConfig { min_speed: -1_000_000_001, ..config }.is_valid());
    assert!(AsteroidSpawnConfig { min_speed: -5, max_speed: -4, ..config }.is_valid());
}
