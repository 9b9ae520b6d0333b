use asteroid_dodge::components::{AsteroidSize, Body, EntityKind};
use asteroid_dodge::math::Vec2;
use asteroid_dodge::resources::{
    AsteroidSpawnConfig, DifficultyConfig, GameData, SpawnTimer, Timer,
};
use asteroid_dodge::shapes::polygon::is_ccw;
use asteroid_dodge::systems::asteroid::{
    choose_size, cleanup_offscreen, create_polygon_mesh, plan_spawn, spawn_asteroids, SpawnDraw,
};
use rand::rngs::StdRng;
use rand::SeedableRng;

#[test]
fn the_die_gives_forty_small_thirty_five_medium_twenty_five_large() {
    let mut small = 0;
    let mut medium = 0;
    let mut large = 0;
    for roll in 0..100 {
        match choose_size(roll) {
            AsteroidSize::Small => small += 1,
            AsteroidSize::Medium => medium += 1,
            AsteroidSize::Large => large += 1,
        }
    }
    assert_eq!((small, medium, large), (40, 35, 25));
    assert_eq!(choose_size(0), AsteroidSize::Small);
    assert_eq!(choose_size(39), AsteroidSize::Small);
    assert_eq!(choose_size(40), AsteroidSize::Medium);
    assert_eq!(choose_size(74), AsteroidSize::Medium);
    assert_eq!(choose_size(75), AsteroidSize::Large);
    assert_eq!(choose_size(99), AsteroidSize::Large);
}

#[test]
fn a_draw_becomes_a_place_a_velocity_and_a_size() {
    let config = AsteroidSpawnConfig::default();
    let draw = SpawnDraw { x: -123_456, size_roll: 50, fall_speed: 200_000, drift: -7 };
    assert_eq!(
        plan_spawn(&config, draw),
        (Vec2::new(-123_456, 320_000), Vec2::new(-7, -200_000), AsteroidSize::Medium)
    );
}

#[test]
fn nothing_spawns_while_the_game_is_over() {
    let mut timer = SpawnTimer::default();
    let mut rng = StdRng::seed_from_u64(1);
    let spawned = spawn_asteroids(
        &mut timer,
        &DifficultyConfig::default(),
        &AsteroidSpawnConfig::default(),
        10_000_000,
        &GameData { score: 0, is_game_over: true },
        &mut rng,
    );
    assert!(spawned.is_none());
    assert_eq!(timer, SpawnTimer::default());
}

#[test]
fn the_first_asteroid_comes_after_a_second_and_a_half() {
    let mut timer = SpawnTimer::default();
    let difficulty = DifficultyConfig::default();
    let config = AsteroidSpawnConfig::default();
    let game = GameData::default();
    let mut rng = StdRng::seed_from_u64(2);

    let spawned = spawn_asteroids(&mut timer, &difficulty, &config, 1_000_000, &game, &mut rng);
    assert!(spawned.is_none());
    assert_eq!(
        timer,
        SpawnTimer {
            timer: Timer { elapsed: 1_000_000, duration: 1_500_000, finished: false },
            elapsed_time: 1_000_000
        }
    );

    let spawned = spawn_asteroids(&mut timer, &difficulty, &config, 499_999, &game, &mut rng);
    assert!(spawned.is_none());

    let spawned = spawn_asteroids(&mut timer, &difficulty, &config, 1, &game, &mut rng);
    let asteroid = spawned.unwrap();
    // 0.1 + 1.4 / (1 + 0.1 * 1.5) seconds
    assert_eq!(
        timer,
        SpawnTimer {
            timer: Timer { elapsed: 0, duration: 1_317_391, finished: false },
            elapsed_time: 1_500_000
        }
    );
    assert_eq!(asteroid.position.y, 320_000);
    assert!(asteroid.position.x >= -370_000 && asteroid.position.x < 370_000);
    assert!(asteroid.velocity.y <= -100_000 && asteroid.velocity.y > -250_000);
    assert!(asteroid.velocity.x >= -50_000 && asteroid.velocity.x < 50_000);
    assert_eq!(asteroid.mass, asteroid.size.mass());
    assert!(asteroid.mesh.vertices.len() >= 3);
    assert!(is_ccw(&asteroid.mesh.vertices));
}

#[test]
fn asteroids_come_faster_and_faster() {
    let mut timer = SpawnTimer::default();
    let difficulty = DifficultyConfig::default();
    let config = AsteroidSpawnConfig::default();
    let game = GameData::default();
    let mut rng = StdRng::seed_from_u64(3);
    let mut spawned = 0;
    let mut last_duration = timer.timer.duration;
    let mut xs: Vec<i64> = vec![];
    let mut sizes: Vec<AsteroidSize> = vec![];
    for _ in 0..6_000 {
        if let Some(asteroid) =
            spawn_asteroids(&mut timer, &difficulty, &config, 16_667, &game, &mut rng)
        {
            spawned += 1;
            assert!(timer.timer.duration < last_duration);
            assert_eq!(timer.timer.duration, difficulty.calculate_interval(timer.elapsed_time));
            assert_eq!(timer.timer.elapsed, 0);
            last_duration = timer.timer.duration;
            xs.push(asteroid.position.x);
            sizes.push(asteroid.size);
            assert!(asteroid.position.x >= -370_000 && asteroid.position.x < 370_000);
            assert!(asteroid.velocity.y <= -100_000 && asteroid.velocity.y > -250_000);
            assert!(asteroid.velocity.x >= -50_000 && asteroid.velocity.x < 50_000);
        }
    }
    assert_eq!(timer.elapsed_time, 6_000 * 16_667);
    assert!(spawned > 100);
    xs.sort();
    xs.dedup();
    assert!(xs.len() > 90);
    assert!(sizes.contains(&AsteroidSize::Small));
    assert!(sizes.contains(&AsteroidSize::Medium));
    assert!(sizes.contains(&AsteroidSize::Large));
}

#[test]
fn the_same_seed_spawns_the_same_asteroid() {
    let difficulty = DifficultyConfig::default();
    let config = AsteroidSpawnConfig::default();
    let game = GameData::default();
    let spawn = |seed: u64| {
        let mut timer = SpawnTimer::default();
        let mut rng = StdRng::seed_from_u64(seed);
        spawn_asteroids(&mut timer, &difficulty, &config, 2_000_000, &game, &mut rng).unwrap()
    };
    let a = spawn(9);
    let b = spawn(9);
    assert_eq!(a.position, b.position);
    assert_eq!(a.velocity, b.velocity);
    assert_eq!(a.size, b.size);
    assert_eq!(a.angular_velocity, b.angular_velocity);
    assert_eq!(a.mesh.vertices, b.mesh.vertices);
}

fn body(entity: u64, kind: EntityKind, y: i64) -> Body {
    Body { entity, kind, position: Vec2::new(0, y), velocity: Vec2::new(0, 0) }
}

#[test]
fn asteroids_below_the_screen_are_removed() {
    let bodies = vec![
        body(1, EntityKind::Asteroid(AsteroidSize::Small), -350_001),
        body(2, EntityKind::Asteroid(AsteroidSize::Large), -350_000),
        body(3, EntityKind::Projectile, -400_000),
        body(4, EntityKind::Player, -400_000),
        body(5, EntityKind::Asteroid(AsteroidSize::Medium), 320_000),
        body(6, EntityKind::Asteroid(AsteroidSize::Medium), i64::MIN),
    ];
    assert_eq!(cleanup_offscreen(&bodies), vec![1, 6]);
    assert_eq!(cleanup_offscreen(&vec![]), vec![]);
}

#[test]
fn a_square_becomes_two_triangles() {
    let square = vec![
        Vec2::new(-1_000, -2_000),
        Vec2::new(3_000, -2_000),
        Vec2::new(3_000, 6_000),
        Vec2::new(-1_000, 6_000),
    ];
    let mesh = create_polygon_mesh(&square);
    assert_eq!(mesh.positions, square);
    assert_eq!(mesh.indices, vec![0, 1, 2, 0, 2, 3]);
    assert_eq!(
        mesh.uvs,
        vec![Vec2::new(0, 0), Vec2::new(1000, 0), Vec2::new(1000, 1000), Vec2::new(0, 1000)]
    );
}

#[test]
fn a_fan_has_a_triangle_for_each_vertex_but_two() {
    let pentagon = vec![
        Vec2::new(0, 0),
        Vec2::new(4_000, 0),
        Vec2::new(5_000, 3_000),
        Vec2::new(2_000, 5_000),
        Vec2::new(-1_000, 3_000),
    ];
    let mesh = create_polygon_mesh(&pentagon);
    assert_eq!(mesh.indices, vec![0, 1, 2, 0, 2, 3, 0, 3, 4]);
    assert_eq!(mesh.uvs[0], Vec2::new(166, 0));
    assert_eq!(mesh.uvs[2], Vec2::new(1000, 600));
    assert_eq!(mesh.uvs[3], Vec2::new(500, 1000));
    assert_eq!(mesh.uvs[4], Vec2::new(0, 600));
    let triangle = vec![Vec2::new(0, 0), Vec2::new(1, 0), Vec2::new(0, 1)];
    assert_eq!(create_polygon_mesh(&triangle).indices, vec![0, 1, 2]);
}

#[test]
fn a_polygon_without_width_has_one_texture_column() {
    let flat = vec![Vec2::new(5, 0), Vec2::new(5, 10), Vec2::new(5, 20)];
    let mesh = create_polygon_mesh(&flat);
    assert_eq!(mesh.uvs, vec![Vec2::new(0, 0), Vec2::new(0, 500), Vec2::new(0, 1000)]);
}

#[test]
fn while_the_game_is_over_not_even_the_settings_are_looked_at() {
    let start = SpawnTimer {
        timer: Timer { elapsed: u64::MAX, duration: 1, finished: false },
        elapsed_time: u64::MAX,
    };
    let mut timer = start;
    let mut rng = StdRng::seed_from_u64(1);
    let spawned = spawn_asteroids(
        &mut timer,
        &DifficultyConfig { initial_interval: 1, min_interval: 2, curve_steepness: 3 },
        &AsteroidSpawnConfig { min_speed: 5, max_speed: 5, spawn_y: 0, spawn_x_range: 0 },
        u64::MAX,
        &GameData { score: 0, is_game_over: true },
        &mut rng,
    );
    assert!(spawned.is_none());
    assert_eq!(timer, start);
}
