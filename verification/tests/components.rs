use asteroid_dodge::components::{AsteroidSize, Health, PolygonMesh, Velocity};
use asteroid_dodge::events::DamageSource;
use asteroid_dodge::math::Vec2;

#[test]
fn size_classes_fix_radius_mass_vertices_and_damage() {
    assert_eq!(AsteroidSize::Small.radius(), 15_000);
    assert_eq!(AsteroidSize::Medium.radius(), 30_000);
    assert_eq!(AsteroidSize::Large.radius(), 45_000);
    assert_eq!(AsteroidSize::Small.mass(), 1);
    assert_eq!(AsteroidSize::Medium.mass(), 3);
    assert_eq!(AsteroidSize::Large.mass(), 7);
    assert_eq!(AsteroidSize::Small.vertex_count(), 10);
    assert_eq!(AsteroidSize::Medium.vertex_count(), 17);
    assert_eq!(AsteroidSize::Large.vertex_count(), 27);
    assert_eq!(AsteroidSize::Small.damage(), 10);
    assert_eq!(AsteroidSize::Medium.damage(), 20);
    assert_eq!(AsteroidSize::Large.damage(), 30);
}

#[test]
fn size_classes_are_ordered_by_size() {
    assert!(AsteroidSize::Small < AsteroidSize::Medium);
    assert!(AsteroidSize::Medium < AsteroidSize::Large);
    assert!(AsteroidSize::Small < AsteroidSize::Large);
    assert!(AsteroidSize::Small.radius() < AsteroidSize::Medium.radius());
    assert!(AsteroidSize::Medium.radius() < AsteroidSize::Large.radius());
}

#[test]
fn health_starts_full() {
    let health = Health::new(100);
    assert_eq!(health.current(), 100);
    assert!(!health.is_dead());
    assert_eq!(health.percent(), 100);
}

#[test]
fn damage_takes_hit_points_away() {
    let mut health = Health::new(100);
    health.damage(30);
    assert_eq!(health.current(), 70);
    assert_eq!(health.percent(), 70);
    health.damage(0);
    assert_eq!(health.current(), 70);
}

#[test]
fn health_never_drops_below_zero() {
    let mut health = Health::new(100);
    health.damage(99);
    assert_eq!(health.current(), 1);
    assert!(!health.is_dead());
    health.damage(2);
    assert_eq!(health.current(), 0);
    assert!(health.is_dead());
    health.damage(u32::MAX);
    assert_eq!(health.current(), 0);
    assert_eq!(health.percent(), 0);
}

#[test]
fn percent_rounds_down() {
    let mut health = Health::new(3);
    health.damage(1);
    assert_eq!(health.percent(), 66);
}

#[test]
fn damage_sources() {
    assert_eq!(DamageSource::AsteroidEntity(AsteroidSize::Small).damage(), 10);
    assert_eq!(DamageSource::AsteroidEntity(AsteroidSize::Medium).damage(), 20);
    assert_eq!(DamageSource::AsteroidEntity(AsteroidSize::Large).damage(), 30);
}

#[test]
fn velocity_and_mesh_hold_what_they_are_given() {
    let velocity = Velocity::new(-3, 4);
    assert_eq!(velocity.value, Vec2::new(-3, 4));
    let mesh = PolygonMesh::new(vec![Vec2::new(1, 2), Vec2::new(3, 4)]);
    assert_eq!(mesh.vertices, vec![Vec2::new(1, 2), Vec2::new(3, 4)]);
}
