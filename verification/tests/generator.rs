use asteroid_dodge::components::AsteroidSize;
use asteroid_dodge::math::{from_polar, Vec2};
use asteroid_dodge::shapes::polygon::{
    is_ccw, IrregularPolygonGenerator, ShapeGenerator,
};
use asteroid_dodge::systems::asteroid::{assemble_asteroid, spawn_asteroid_entity};
use rand::rngs::StdRng;
use rand::SeedableRng;

fn sizes() -> [AsteroidSize; 3] {
    [AsteroidSize::Small, AsteroidSize::Medium, AsteroidSize::Large]
}

#[test]
fn a_new_generator_has_the_usual_jitter() {
    let generator = IrregularPolygonGenerator::new(10, 15_000);
    assert_eq!(
        generator,
        IrregularPolygonGenerator {
            vertex_count: 10,
            base_radius: 15_000,
            radius_variation: 300,
            angle_variation: 200
        }
    );
}

#[test]
fn a_vertex_without_jitter_lies_on_the_circle() {
    let generator = IrregularPolygonGenerator::new(4, 15_000);
    assert_eq!(generator.vertex_at(0, 0, 1000), Vec2::new(15_000, 0));
    assert_eq!(generator.vertex_at(1, 0, 1000), Vec2::new(0, 15_000));
    assert_eq!(generator.vertex_at(2, 0, 1000), Vec2::new(-15_000, 0));
    assert_eq!(generator.vertex_at(3, 0, 1000), Vec2::new(0, -15_000));
}

#[test]
fn jitter_moves_a_vertex_in_and_out_and_around() {
    let generator = IrregularPolygonGenerator::new(4, 10_000);
    assert_eq!(generator.vertex_at(0, 0, 700), Vec2::new(7_000, 0));
    assert_eq!(generator.vertex_at(0, 0, 1299), Vec2::new(12_990, 0));
    assert_eq!(generator.vertex_at(0, 199, 1000), from_polar(10_000, 199_000_000));
    assert_eq!(generator.vertex_at(0, -200, 1000), from_polar(10_000, -200_000_000));
    assert_eq!(generator.vertex_at(1, 100, 900), from_polar(9_000, 1_670_796_327));
    // A fifth of a radian on: 10 cos 0.2 and 10 sin 0.2.
    assert_eq!(generator.vertex_at(0, 200, 1000), Vec2::new(9_801, 1_987));
}

#[test]
fn generate_gives_as_many_vertices_as_asked_for() {
    let mut rng = StdRng::seed_from_u64(1);
    for count in [0usize, 1, 3, 10, 17, 27, 100] {
        let generator = IrregularPolygonGenerator::new(count, 30_000);
        assert_eq!(generator.generate(&mut rng).len(), count);
    }
}

#[test]
fn generated_vertices_stay_within_the_jitter() {
    let mut rng = StdRng::seed_from_u64(2);
    let generator = IrregularPolygonGenerator::new(27, 45_000);
    for _ in 0..50 {
        for p in generator.generate(&mut rng) {
            let d = p.x * p.x + p.y * p.y;
            assert!(d >= 31_499 * 31_499, "{p:?}");
            assert!(d <= 58_501 * 58_501, "{p:?}");
            assert!(p.x.abs() <= 58_500 && p.y.abs() <= 58_500);
        }
    }
}

#[test]
fn the_same_seed_gives_the_same_polygon() {
    let generator = IrregularPolygonGenerator::new(17, 30_000);
    let a = generator.generate(&mut StdRng::seed_from_u64(42));
    let b = generator.generate(&mut StdRng::seed_from_u64(42));
    let c = generator.generate(&mut StdRng::seed_from_u64(43));
    assert_eq!(a, b);
    assert_ne!(a, c);
}

#[test]
fn the_jitter_is_drawn_and_not_fixed() {
    let generator = IrregularPolygonGenerator::new(17, 30_000);
    let points = generator.generate(&mut StdRng::seed_from_u64(7));
    let lowest: Vec<Vec2> = (0..17).map(|i| generator.vertex_at(i, -200, 700)).collect();
    let highest: Vec<Vec2> = (0..17).map(|i| generator.vertex_at(i, 199, 1299)).collect();
    assert_ne!(points, lowest);
    assert_ne!(points, highest);
    let mut distances: Vec<i64> = points.iter().map(|p| p.x * p.x + p.y * p.y).collect();
    distances.sort();
    distances.dedup();
    assert!(distances.len() > 8);
}

#[test]
fn every_asteroid_has_a_proper_outline() {
    let mut rng = StdRng::seed_from_u64(3);
    for size in sizes() {
        for _ in 0..200 {
            let asteroid =
                spawn_asteroid_entity(Vec2::new(1, 2), Vec2::new(3, 4), size, &mut rng);
            let outline = &asteroid.mesh.vertices;
            assert!(outline.len() >= 3);
            assert!(outline.len() <= size.vertex_count());
            assert!(is_ccw(outline));
            for pair in outline.windows(2) {
                assert!(pair[0].distance_squared(&pair[1]) >= 5_000 * 5_000);
            }
        }
    }
}

#[test]
fn an_asteroid_takes_its_properties_from_its_size_class() {
    let mut rng = StdRng::seed_from_u64(4);
    for size in sizes() {
        let asteroid =
            spawn_asteroid_entity(Vec2::new(10, -20), Vec2::new(-30, 40), size, &mut rng);
        assert_eq!(asteroid.size, size);
        assert_eq!(asteroid.position, Vec2::new(10, -20));
        assert_eq!(asteroid.velocity, Vec2::new(-30, 40));
        assert_eq!(asteroid.mass, size.mass());
        assert_eq!(asteroid.restitution, 800);
        assert!(asteroid.angular_velocity >= -2_000 && asteroid.angular_velocity < 2_000);
    }
}

#[test]
fn asteroids_spin_at_different_rates() {
    let mut rng = StdRng::seed_from_u64(5);
    let mut spins: Vec<i64> = (0..50)
        .map(|_| {
            spawn_asteroid_entity(Vec2::new(0, 0), Vec2::new(0, 0), AsteroidSize::Small, &mut rng)
                .angular_velocity
        })
        .collect();
    spins.sort();
    spins.dedup();
    assert!(spins.len() > 10);
}

#[test]
fn assembling_orders_and_simplifies_the_outline() {
    let raw = vec![
        Vec2::new(0, 0),
        Vec2::new(0, 10_000),
        Vec2::new(10_000, 10_000),
        Vec2::new(10_000, 3_000),
        Vec2::new(10_000, 0),
    ];
    let asteroid =
        assemble_asteroid(Vec2::new(7, 8), Vec2::new(9, 10), AsteroidSize::Medium, raw, -55);
    assert_eq!(
        asteroid.mesh.vertices,
        vec![
            Vec2::new(10_000, 0),
            Vec2::new(10_000, 10_000),
            Vec2::new(0, 10_000),
            Vec2::new(0, 0),
        ]
    );
    assert!(is_ccw(&asteroid.mesh.vertices));
    assert_eq!(asteroid.angular_velocity, -55);
    assert_eq!(asteroid.mass, 3);
    assert_eq!(asteroid.size, AsteroidSize::Medium);
}

#[test]
fn an_outline_turned_round_by_the_removal_is_put_right_again() {
    // Counter-clockwise as it stands, but only through its second vertex,
    // which lies close to the first and is removed; the long thin triangle
    // that is left winds clockwise.
    let raw = vec![
        Vec2::new(0, 0),
        Vec2::new(0, -4_000),
        Vec2::new(1_000_000, 3_000),
        Vec2::new(994_000, 0),
    ];
    assert!(is_ccw(&raw));
    let mut walked = raw.clone();
    asteroid_dodge::shapes::polygon::simplify_polygon(&mut walked, 5_000);
    assert_eq!(
        walked,
        vec![Vec2::new(0, 0), Vec2::new(1_000_000, 3_000), Vec2::new(994_000, 0)]
    );
    assert!(!is_ccw(&walked));
    let asteroid =
        assemble_asteroid(Vec2::new(0, 0), Vec2::new(0, 0), AsteroidSize::Small, raw, 0);
    assert!(is_ccw(&asteroid.mesh.vertices));
    let mut turned = walked.clone();
    turned.reverse();
    assert_eq!(asteroid.mesh.vertices, turned);
}

#[test]
fn an_outline_with_room_between_its_vertices_keeps_them_all() {
    let raw = asteroid_dodge::shapes::polygon::regular_polygon(27, 45_000);
    let asteroid =
        assemble_asteroid(Vec2::new(0, 0), Vec2::new(0, 0), AsteroidSize::Large, raw.clone(), 0);
    assert_eq!(asteroid.mesh.vertices.len(), AsteroidSize::Large.vertex_count());
    assert_eq!(asteroid.mesh.vertices, raw);
}

#[test]
fn assembling_falls_back_to_the_hexagon() {
    let raw = vec![Vec2::new(0, 0), Vec2::new(0, 1_000), Vec2::new(1_000, 1_000)];
    let asteroid =
        assemble_asteroid(Vec2::new(0, 0), Vec2::new(0, 0), AsteroidSize::Small, raw, 0);
    assert_eq!(asteroid.mesh.vertices.len(), 6);
    assert_eq!(asteroid.mesh.vertices[0], Vec2::new(20_000, 0));
}

#[test]
fn the_physics_engine_accepts_every_outline() {
    let mut rng = StdRng::seed_from_u64(6);
    for size in sizes() {
        for _ in 0..200 {
            let asteroid =
                spawn_asteroid_entity(Vec2::new(0, 0), Vec2::new(0, 0), size, &mut rng);
            let points: Vec<avian2d::math::Vector> = asteroid
                .mesh
                .vertices
                .iter()
                .map(|v| avian2d::math::Vector::new(v.x as f32 / 1000.0, v.y as f32 / 1000.0))
                .collect();
            assert!(avian2d::prelude::Collider::convex_hull(points).is_some());
        }
    }
}

#[test]
fn the_physics_engine_accepts_the_fallback_hexagon() {
    let points: Vec<avian2d::math::Vector> = asteroid_dodge::shapes::polygon::regular_polygon(
        6, 20_000,
    )
    .iter()
    .map(|v| avian2d::math::Vector::new(v.x as f32 / 1000.0, v.y as f32 / 1000.0))
    .collect();
    assert!(avian2d::prelude::Collider::convex_hull(points).is_some());
}

#[test]
fn an_outline_without_area_gives_way_to_the_hexagon() {
    // Four vertices in a row: far enough apart to stay, but with no area
    // between them.
    let raw = vec![
        Vec2::new(0, 0),
        Vec2::new(10_000, 0),
        Vec2::new(20_000, 0),
        Vec2::new(30_000, 0),
    ];
    let asteroid =
        assemble_asteroid(Vec2::new(0, 0), Vec2::new(0, 0), AsteroidSize::Small, raw, 0);
    assert_eq!(asteroid.mesh.vertices, asteroid_dodge::shapes::polygon::fallback_hexagon());
    assert!(is_ccw(&asteroid.mesh.vertices));
}
