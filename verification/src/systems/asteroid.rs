//! The life of an asteroid: when one appears, how it is put together, and
//! when it is removed.

use crate::components::{Asteroid, AsteroidSize, Body, EntityKind, PolygonMesh};
use crate::math::Vec2;
use crate::random::random_range;
use crate::resources::{AsteroidSpawnConfig, DifficultyConfig, GameData, SpawnTimer, Timer};
use crate::shapes::polygon::{
    all_bounded, ensure_ccw, fallback_hexagon, fallback_polygon, lemma_ensure_ccw_idempotent,
    lemma_fallback_is_hexagon, lemma_hexagon_spaced, lemma_hexagon_winds_ccw,
    lemma_reverse_spaced, lemma_simplify_keeps_spaced, lemma_walked, shoelace, shoelace_sum,
    simplify_polygon, spaced, spec_ensure_ccw, spec_simplify, winds_ccw,
    IrregularPolygonGenerator, ShapeGenerator,
};
use crate::sequences::{lemma_take_ends, lemma_take_step};
use rand::rngs::StdRng;
use vstd::prelude::*;

verus! {

/// Vertices closer together than this are merged, in sub-units: tiny edges
/// upset the physics engine.
pub const MIN_VERTEX_DISTANCE: i64 = 5_000;

/// Bounciness of an asteroid, in thousandths.
pub const RESTITUTION: u32 = 800;

/// An asteroid spins at less than this, either way, in thousandths of a
/// radian per second.
pub const MAX_SPIN: i64 = 2_000;

/// A new asteroid drifts sideways at less than this, either way, in sub-units
/// per second.
pub const MAX_DRIFT: i64 = 50_000;

/// An asteroid below this height has left the screen.
pub const OFFSCREEN_Y: i64 = -350_000;

/// Of a hundred asteroids, this many are small.
pub const SMALL_SHARE: i64 = 40;

/// Of a hundred asteroids, this many are medium-sized.
pub const MEDIUM_SHARE: i64 = 35;

/// The generator that draws the outline of an asteroid of class `size`.
pub open spec fn size_generator(size: AsteroidSize) -> IrregularPolygonGenerator {
    IrregularPolygonGenerator {
        vertex_count: size.spec_vertex_count() as usize,
        base_radius: size.spec_radius() as i64,
        radius_variation: 300,
        angle_variation: 200,
    }
}

/// What is left of a raw polygon once it is in counter-clockwise order and
/// rid of vertices that lie too close together: put in counter-clockwise
/// order again, should the removal have turned it round.
pub open spec fn spec_ordered_outline(raw: Seq<Vec2>) -> Seq<Vec2> {
    spec_ensure_ccw(spec_simplify(spec_ensure_ccw(raw), MIN_VERTEX_DISTANCE as int))
}

/// The outline an asteroid gets from a raw polygon: what is left of it in
/// counter-clockwise order, or the fallback hexagon where that has no area
/// and so no hull.
pub open spec fn spec_outline(raw: Seq<Vec2>) -> Seq<Vec2> {
    let kept = spec_ordered_outline(raw);
    if shoelace(kept) == 0 {
        fallback_polygon()
    } else {
        kept
    }
}

/// No two neighbours along the outline lie closer together than the least
/// distance between vertices.
pub open spec fn outline_spaced(outline: Seq<Vec2>) -> bool {
    spaced(outline, MIN_VERTEX_DISTANCE * MIN_VERTEX_DISTANCE)
}

impl Asteroid {
    /// The asteroid is fit for the physics engine: its outline has at least
    /// three vertices, all within the coordinate range; it winds
    /// counter-clockwise; no two neighbours along it lie too close together;
    /// mass and bounciness are those of its size class.
    pub open spec fn well_formed(self) -> bool {
        &&& self.mesh.vertices.len() >= 3
        &&& all_bounded(self.mesh.vertices@)
        &&& winds_ccw(self.mesh.vertices@)
        &&& outline_spaced(self.mesh.vertices@)
        &&& self.mass == self.size.spec_mass()
        &&& self.restitution == RESTITUTION
    }

    /// The asteroid is the one put together from the raw polygon `raw` and
    /// the spin `spin`, for the given place, velocity and class.
    pub open spec fn built_from(
        self,
        position: Vec2,
        velocity: Vec2,
        size: AsteroidSize,
        raw: Seq<Vec2>,
        spin: int,
    ) -> bool {
        &&& self.size == size
        &&& self.position == position
        &&& self.velocity == velocity
        &&& self.angular_velocity == spin
        &&& self.mass == size.spec_mass()
        &&& self.restitution == RESTITUTION
        &&& self.mesh.vertices@ == spec_outline(raw)
    }

    /// The asteroid is one that `spawn_asteroid_entity` may create for the
    /// given place, velocity and class: put together from some raw polygon of
    /// the class's generator and some spin within the limit.
    pub open spec fn instance_of(self, position: Vec2, velocity: Vec2, size: AsteroidSize) -> bool {
        exists|raw: Seq<Vec2>, spin: int|
            size_generator(size).produces(raw) && -MAX_SPIN <= spin < MAX_SPIN
                && #[trigger] self.built_from(position, velocity, size, raw, spin)
    }
}

/// Puts an asteroid together from a raw polygon and a spin that have been
/// drawn already.
pub fn assemble_asteroid(
    position: Vec2,
    velocity: Vec2,
    size: AsteroidSize,
    raw: Vec<Vec2>,
    spin: i64,
) -> (asteroid: Asteroid)
    requires
        all_bounded(raw@),
    ensures
        asteroid.built_from(position, velocity, size, raw@, spin as int),
        asteroid.well_formed(),
{
    let mut vertices = raw;
    ensure_ccw(&mut vertices);
    simplify_polygon(&mut vertices, MIN_VERTEX_DISTANCE);
    ensure_ccw(&mut vertices);
    if shoelace_sum(&vertices) == 0 {
        vertices = fallback_hexagon();
    }
    proof {
        lemma_outline(raw@);
    }
    Asteroid {
        size,
        position,
        velocity,
        angular_velocity: spin,
        mass: size.mass(),
        restitution: RESTITUTION,
        mesh: PolygonMesh::new(vertices),
    }
}

/// Creates an asteroid: draws its outline and its spin. Every asteroid in
/// the game is made here.
pub fn spawn_asteroid_entity(
    position: Vec2,
    velocity: Vec2,
    size: AsteroidSize,
    rng: &mut StdRng,
) -> (asteroid: Asteroid)
    ensures
        asteroid.instance_of(position, velocity, size),
        asteroid.well_formed(),
{
    let generator = IrregularPolygonGenerator::new(size.vertex_count(), size.radius());
    assert(generator == size_generator(size));
    assert(generator.reach() <= 58_500);
    let raw = generator.generate(rng);
    let spin: i64 = random_range(rng, -MAX_SPIN, MAX_SPIN);
    let ghost raw_points = raw@;
    let asteroid = assemble_asteroid(position, velocity, size, raw, spin);
    assert(asteroid.built_from(position, velocity, size, raw_points, spin as int));
    asteroid
}

/// Every vertex of the raw polygon of an asteroid lies between seven tenths
/// and thirteen tenths of the radius of its size class from the centre, to
/// within one sub-unit.
pub proof fn lemma_raw_vertex_in_band(size: AsteroidSize, raw: Seq<Vec2>, i: int)
    requires
        size_generator(size).produces(raw),
        0 <= i < raw.len(),
    ensures
        (7 * size.spec_radius() / 10 - 1) * (7 * size.spec_radius() / 10 - 1)
            <= raw[i].norm_squared() <= (13 * size.spec_radius() / 10 + 1) * (13
            * size.spec_radius() / 10 + 1),
{
    let generator = size_generator(size);
    match size {
        AsteroidSize::Small => {
            assert(generator.base_radius * (1000 - 300) == 10_500_000);
            assert(generator.base_radius * (1000 + 300) == 19_500_000);
        },
        AsteroidSize::Medium => {
            assert(generator.base_radius * (1000 - 300) == 21_000_000);
            assert(generator.base_radius * (1000 + 300) == 39_000_000);
        },
        AsteroidSize::Large => {
            assert(generator.base_radius * (1000 - 300) == 31_500_000);
            assert(generator.base_radius * (1000 + 300) == 58_500_000);
        },
    }
    assert(generator.inner_radius() == 7 * size.spec_radius() / 10);
    assert(generator.outer_radius() == 13 * size.spec_radius() / 10);
    generator.lemma_vertex_in_band(i, raw[i]);
}

/// Whatever raw polygon goes in, the outline that comes out has at least
/// three vertices, winds counter-clockwise, and has no two neighbours closer
/// together than the least distance between vertices: it is what the walk
/// has kept, the right way round, or the fallback hexagon.
pub proof fn lemma_outline(raw: Seq<Vec2>)
    ensures
        spec_outline(raw).len() >= 3,
        winds_ccw(spec_outline(raw)),
        outline_spaced(spec_outline(raw)),
        spec_outline(raw).len() <= raw.len() || spec_outline(raw) == fallback_polygon(),
{
    let least = MIN_VERTEX_DISTANCE * MIN_VERTEX_DISTANCE;
    let ordered = spec_ensure_ccw(raw);
    let simplified = spec_simplify(ordered, MIN_VERTEX_DISTANCE as int);
    lemma_walked(ordered, MIN_VERTEX_DISTANCE as int);
    lemma_fallback_is_hexagon();
    lemma_hexagon_spaced();
    lemma_hexagon_winds_ccw();
    let hexagon = fallback_polygon();
    assert forall|i: int| 0 <= i < hexagon.len() - 1 implies (#[trigger] hexagon[i]).dist_squared(
        hexagon[i + 1],
    ) >= least by {
        assert(hexagon[i].dist_squared(hexagon[i + 1]) >= 19_999int * 19_999);
    }
    lemma_reverse_spaced(simplified, least);
    lemma_ensure_ccw_idempotent(simplified);
}

/// The raw polygon of an asteroid has exactly as many vertices as its size
/// class says. Its outline has at least three and no more than the raw
/// polygon. It is the raw polygon itself, in counter-clockwise order and with
/// every vertex, wherever that has an area and no two neighbours too close
/// together.
pub proof fn lemma_outline_vertex_count(size: AsteroidSize, raw: Seq<Vec2>)
    requires
        size_generator(size).produces(raw),
    ensures
        raw.len() == size.spec_vertex_count(),
        3 <= spec_outline(raw).len() <= size.spec_vertex_count(),
        outline_spaced(spec_ensure_ccw(raw)) && shoelace(raw) != 0 ==> spec_outline(raw)
            == spec_ensure_ccw(raw) && spec_outline(raw).len() == size.spec_vertex_count(),
{
    let ordered = spec_ensure_ccw(raw);
    lemma_outline(raw);
    lemma_ensure_ccw_idempotent(raw);
    if outline_spaced(ordered) {
        lemma_simplify_keeps_spaced(ordered, MIN_VERTEX_DISTANCE as int);
    }
}

/// The size class for a roll of the hundred-sided die: the first forty
/// faces are small, the next thirty-five medium, the rest large.
pub open spec fn spec_choose_size(roll: int) -> AsteroidSize {
    if roll < SMALL_SHARE {
        AsteroidSize::Small
    } else if roll < SMALL_SHARE + MEDIUM_SHARE {
        AsteroidSize::Medium
    } else {
        AsteroidSize::Large
    }
}

pub fn choose_size(roll: i64) -> (size: AsteroidSize)
    ensures
        size == spec_choose_size(roll as int),
{
    if roll < SMALL_SHARE {
        AsteroidSize::Small
    } else if roll < SMALL_SHARE + MEDIUM_SHARE {
        AsteroidSize::Medium
    } else {
        AsteroidSize::Large
    }
}

/// What was drawn for one new asteroid.
#[derive(Clone, Copy, Debug, PartialEq, Eq, Structural)]
pub struct SpawnDraw {
    /// Where along the top edge it appears.
    pub x: i64,
    /// The roll of the hundred-sided die that decides its size.
    pub size_roll: i64,
    /// How fast it falls.
    pub fall_speed: i64,
    /// How fast it drifts sideways.
    pub drift: i64,
}

impl SpawnDraw {
    /// The draw is one the spawner may make under `config`.
    pub open spec fn allowed(self, config: AsteroidSpawnConfig) -> bool {
        &&& -config.spawn_x_range <= self.x < config.spawn_x_range
        &&& 0 <= self.size_roll < 100
        &&& config.min_speed <= self.fall_speed < config.max_speed
        &&& -MAX_DRIFT <= self.drift < MAX_DRIFT
    }

    /// Where the asteroid appears: at the drawn place along the top edge.
    pub open spec fn position(self, config: AsteroidSpawnConfig) -> Vec2 {
        Vec2 { x: self.x, y: config.spawn_y }
    }

    /// How it moves: downward at the drawn speed, sideways at the drawn drift.
    pub open spec fn velocity(self) -> Vec2 {
        Vec2 { x: self.drift, y: (-self.fall_speed) as i64 }
    }

    /// Its size class.
    pub open spec fn size(self) -> AsteroidSize {
        spec_choose_size(self.size_roll as int)
    }
}

/// Turns a draw into the place, the velocity and the size class of the new
/// asteroid.
pub fn plan_spawn(config: &AsteroidSpawnConfig, draw: SpawnDraw) -> (plan: (Vec2, Vec2, AsteroidSize))
    requires
        draw.fall_speed > i64::MIN,
    ensures
        plan.0 == draw.position(*config),
        plan.1 == draw.velocity(),
        plan.2 == draw.size(),
{
    (
        Vec2::new(draw.x, config.spawn_y),
        Vec2::new(draw.drift, -draw.fall_speed),
        choose_size(draw.size_roll),
    )
}

/// Whether the spawn timer fires when `delta` more microseconds have passed.
pub open spec fn spawn_due(spawn_timer: SpawnTimer, delta: int) -> bool {
    spawn_timer.timer.ticked(delta).finished
}

/// The spawn timer after a frame of `delta` microseconds of play: the time
/// played grows by `delta`; if the timer fires, it starts over with the
/// interval the difficulty curve gives for the time played, else it runs on.
pub open spec fn spawn_timer_after(
    spawn_timer: SpawnTimer,
    difficulty: DifficultyConfig,
    delta: int,
) -> SpawnTimer {
    let elapsed_time = spawn_timer.elapsed_time + delta;
    SpawnTimer {
        timer: if spawn_due(spawn_timer, delta) {
            Timer {
                elapsed: 0,
                duration: difficulty.interval(elapsed_time) as u64,
                finished: false,
            }
        } else {
            spawn_timer.timer.ticked(delta)
        },
        elapsed_time: elapsed_time as u64,
    }
}

/// `asteroid` is one the spawner may create under `config`: an instance for
/// the place, velocity and size of some allowed draw.
pub open spec fn is_spawn(config: AsteroidSpawnConfig, asteroid: Asteroid) -> bool {
    exists|draw: SpawnDraw|
        draw.allowed(config) && #[trigger] asteroid.instance_of(
            draw.position(config),
            draw.velocity(),
            draw.size(),
        )
}

/// Runs the spawner for one frame of `delta` microseconds. While the game is
/// over nothing happens. Otherwise time passes, and if the spawn timer fires
/// a new asteroid appears at the top edge.
pub fn spawn_asteroids(
    spawn_timer: &mut SpawnTimer,
    difficulty: &DifficultyConfig,
    config: &AsteroidSpawnConfig,
    delta: u64,
    game_state: &GameData,
    rng: &mut StdRng,
) -> (spawned: Option<Asteroid>)
    requires
        !game_state.is_game_over ==> difficulty.valid() && config.valid() && old(
            spawn_timer,
        ).elapsed_time + delta <= u64::MAX && old(spawn_timer).timer.elapsed + delta <= u64::MAX,
    ensures
        game_state.is_game_over ==> spawned is None && *final(spawn_timer) == *old(spawn_timer),
        !game_state.is_game_over ==> *final(spawn_timer) == spawn_timer_after(
            *old(spawn_timer),
            *difficulty,
            delta as int,
        ),
        !game_state.is_game_over ==> (spawned is Some <==> spawn_due(
            *old(spawn_timer),
            delta as int,
        )),
        spawned matches Some(asteroid) ==> is_spawn(*config, asteroid) && asteroid.well_formed(),
{
    if game_state.is_game_over {
        return None;
    }
    spawn_timer.elapsed_time = spawn_timer.elapsed_time + delta;
    spawn_timer.timer.tick(delta);
    if !spawn_timer.timer.just_finished() {
        return None;
    }
    let new_interval: u64 = difficulty.calculate_interval(spawn_timer.elapsed_time);
    spawn_timer.timer.set_duration(new_interval);
    spawn_timer.timer.reset();

    let x: i64 = random_range(rng, -config.spawn_x_range, config.spawn_x_range);
    let size_roll: i64 = random_range(rng, 0, 100);
    let fall_speed: i64 = random_range(rng, config.min_speed, config.max_speed);
    let drift: i64 = random_range(rng, -MAX_DRIFT, MAX_DRIFT);
    let draw = SpawnDraw { x, size_roll, fall_speed, drift };
    let (position, velocity, size) = plan_spawn(config, draw);
    let asteroid = spawn_asteroid_entity(position, velocity, size, rng);
    assert(asteroid.instance_of(draw.position(*config), draw.velocity(), draw.size()));
    Some(asteroid)
}

/// The asteroids among `bodies` that have fallen below the screen, in order.
pub open spec fn offscreen_asteroids(bodies: Seq<Body>) -> Seq<u64>
    decreases bodies.len(),
{
    if bodies.len() == 0 {
        Seq::empty()
    } else {
        let rest = offscreen_asteroids(bodies.drop_last());
        let body = bodies.last();
        if body.kind is Asteroid && body.position.y < OFFSCREEN_Y {
            rest.push(body.entity)
        } else {
            rest
        }
    }
}

/// Names the asteroids that have left the screen, for removal.
pub fn cleanup_offscreen(bodies: &Vec<Body>) -> (gone: Vec<u64>)
    ensures
        gone@ == offscreen_asteroids(bodies@),
{
    let mut gone: Vec<u64> = Vec::new();
    let mut i: usize = 0;
    proof {
        lemma_take_ends(bodies@);
    }
    while i < bodies.len()
        invariant
            i <= bodies.len(),
            gone@ == offscreen_asteroids(bodies@.take(i as int)),
        decreases bodies.len() - i,
    {
        let body: Body = bodies[i];
        proof {
            lemma_take_step(bodies@, i as int);
        }
        let is_asteroid: bool = match body.kind {
            EntityKind::Asteroid(_) => true,
            _ => false,
        };
        if is_asteroid && body.position.y < OFFSCREEN_Y {
            gone.push(body.entity);
        }
        i += 1;
    }
    gone
}

/// What the renderer needs to draw a polygon: its vertices, where each lies
/// within the texture, and the triangles that fill it.
#[derive(Clone, Debug)]
pub struct MeshData {
    pub positions: Vec<Vec2>,
    /// For each vertex, its place within the bounding box of the polygon, in
    /// thousandths of the box's width and height.
    pub uvs: Vec<Vec2>,
    /// Three indices into `positions` for each triangle.
    pub indices: Vec<u32>,
}

/// The triangles of a fan around vertex 0 that fills a polygon of `count`
/// vertices: `(0, 1, 2)`, `(0, 2, 3)` and so on.
pub open spec fn fan_indices(count: nat) -> Seq<u32> {
    Seq::new(
        (3 * (count - 2)) as nat,
        |k: int|
            if k % 3 == 0 {
                0u32
            } else if k % 3 == 1 {
                (k / 3 + 1) as u32
            } else {
                (k / 3 + 2) as u32
            },
    )
}

/// The x coordinate of a point, or the y coordinate if `vertical`.
pub open spec fn coordinate(p: Vec2, vertical: bool) -> int {
    if vertical {
        p.y as int
    } else {
        p.x as int
    }
}

/// The least coordinate of the points along one axis.
pub open spec fn lowest(points: Seq<Vec2>, vertical: bool) -> int
    decreases points.len(),
{
    if points.len() == 0 {
        0
    } else if points.len() == 1 {
        coordinate(points[0], vertical)
    } else {
        let rest = lowest(points.drop_last(), vertical);
        let last = coordinate(points.last(), vertical);
        if last < rest {
            last
        } else {
            rest
        }
    }
}

/// The greatest coordinate of the points along one axis.
pub open spec fn highest(points: Seq<Vec2>, vertical: bool) -> int
    decreases points.len(),
{
    if points.len() == 0 {
        0
    } else if points.len() == 1 {
        coordinate(points[0], vertical)
    } else {
        let rest = highest(points.drop_last(), vertical);
        let last = coordinate(points.last(), vertical);
        if last > rest {
            last
        } else {
            rest
        }
    }
}

/// Where `value` lies between `low` and `high`, in thousandths, rounded down.
/// Where the two coincide there is only one place, the first.
pub open spec fn texture_coordinate(value: int, low: int, high: int) -> int {
    if high == low {
        0
    } else {
        ((value - low) * 1000) / (high - low)
    }
}

/// For each point, its place within the bounding box of all of them.
pub open spec fn spec_uvs(points: Seq<Vec2>) -> Seq<Vec2> {
    Seq::new(
        points.len(),
        |i: int|
            Vec2 {
                x: texture_coordinate(
                    points[i].x as int,
                    lowest(points, false),
                    highest(points, false),
                ) as i64,
                y: texture_coordinate(
                    points[i].y as int,
                    lowest(points, true),
                    highest(points, true),
                ) as i64,
            },
    )
}

/// Every point lies between the least and the greatest coordinate.
pub proof fn lemma_extent_contains(points: Seq<Vec2>, vertical: bool, i: int)
    requires
        0 <= i < points.len(),
    ensures
        lowest(points, vertical) <= coordinate(points[i], vertical) <= highest(points, vertical),
    decreases points.len(),
{
    if points.len() > 1 && i < points.len() - 1 {
        lemma_extent_contains(points.drop_last(), vertical, i);
    }
}

/// The least and the greatest coordinate are within the coordinate range if
/// the points are.
proof fn lemma_extent_bounded(points: Seq<Vec2>, vertical: bool)
    requires
        points.len() > 0,
        all_bounded(points),
    ensures
        -1_000_000_000 <= lowest(points, vertical) <= highest(points, vertical) <= 1_000_000_000,
    decreases points.len(),
{
    assert(points.last().bounded());
    if points.len() > 1 {
        let rest = points.drop_last();
        assert forall|i: int| 0 <= i < rest.len() implies (#[trigger] rest[i]).bounded() by {
            assert(rest[i] == points[i]);
        }
        lemma_extent_bounded(rest, vertical);
    } else {
        assert(points[0].bounded());
    }
}

/// Finds the least and the greatest coordinate of the points along one axis.
fn extent(points: &Vec<Vec2>, vertical: bool) -> (range: (i64, i64))
    requires
        points.len() > 0,
    ensures
        range.0 == lowest(points@, vertical),
        range.1 == highest(points@, vertical),
{
    let first: Vec2 = points[0];
    let mut low: i64 = if vertical { first.y } else { first.x };
    let mut high: i64 = low;
    let mut i: usize = 1;
    while i < points.len()
        invariant
            1 <= i <= points.len(),
            low == lowest(points@.take(i as int), vertical),
            high == highest(points@.take(i as int), vertical),
        decreases points.len() - i,
    {
        let p: Vec2 = points[i];
        let value: i64 = if vertical { p.y } else { p.x };
        proof {
            lemma_take_step(points@, i as int);
        }
        if value < low {
            low = value;
        }
        if value > high {
            high = value;
        }
        i += 1;
    }
    proof {
        lemma_take_ends(points@);
    }
    (low, high)
}

/// One texture coordinate.
fn place_between(value: i64, low: i64, high: i64) -> (r: i64)
    requires
        -1_000_000_000 <= low <= value <= high <= 1_000_000_000,
    ensures
        r == texture_coordinate(value as int, low as int, high as int),
        0 <= r <= 1000,
{
    if high == low {
        0
    } else {
        let r: i64 = ((value - low) * 1000) / (high - low);
        assert(0 <= r <= 1000) by (nonlinear_arith)
            requires
                r == ((value - low) * 1000) / (high - low),
                0 <= value - low <= high - low,
                high - low > 0,
        ;
        r
    }
}

/// Turns a polygon into what the renderer draws: a fan of triangles around
/// its first vertex, each vertex placed within the texture by where it lies
/// in the polygon's bounding box.
pub fn create_polygon_mesh(vertices: &Vec<Vec2>) -> (mesh: MeshData)
    requires
        3 <= vertices.len() <= u32::MAX,
        all_bounded(vertices@),
    ensures
        mesh.positions@ == vertices@,
        mesh.indices@ == fan_indices(vertices.len() as nat),
        mesh.uvs@ == spec_uvs(vertices@),
{
    let n: usize = vertices.len();
    let mut indices: Vec<u32> = Vec::new();
    let mut i: usize = 1;
    while i < n - 1
        invariant
            1 <= i <= n - 1,
            3 <= n <= u32::MAX,
            indices.len() == 3 * (i - 1),
            forall|k: int| 0 <= k < indices.len() ==> #[trigger] indices[k] == fan_indices(n as nat)[k],
        decreases n - i,
    {
        indices.push(0u32);
        indices.push(i as u32);
        indices.push((i + 1) as u32);
        i += 1;
    }
    assert(indices@ =~= fan_indices(n as nat));

    let (min_x, max_x) = extent(vertices, false);
    let (min_y, max_y) = extent(vertices, true);
    let mut positions: Vec<Vec2> = Vec::new();
    let mut uvs: Vec<Vec2> = Vec::new();
    let mut j: usize = 0;
    proof {
        lemma_extent_bounded(vertices@, false);
        lemma_extent_bounded(vertices@, true);
    }
    while j < n
        invariant
            j <= n,
            n == vertices.len(),
            all_bounded(vertices@),
            min_x == lowest(vertices@, false),
            max_x == highest(vertices@, false),
            min_y == lowest(vertices@, true),
            max_y == highest(vertices@, true),
            -1_000_000_000 <= min_x <= max_x <= 1_000_000_000,
            -1_000_000_000 <= min_y <= max_y <= 1_000_000_000,
            positions.len() == j,
            uvs.len() == j,
            forall|k: int| 0 <= k < j ==> #[trigger] positions[k] == vertices[k],
            forall|k: int| 0 <= k < j ==> #[trigger] uvs[k] == spec_uvs(vertices@)[k],
        decreases n - j,
    {
        let v: Vec2 = vertices[j];
        proof {
            lemma_extent_contains(vertices@, false, j as int);
            lemma_extent_contains(vertices@, true, j as int);
        }
        positions.push(v);
        uvs.push(
            Vec2 { x: place_between(v.x, min_x, max_x), y: place_between(v.y, min_y, max_y) },
        );
        j += 1;
    }
    assert(positions@ =~= vertices@);
    assert(uvs@ =~= spec_uvs(vertices@));
    MeshData { positions, uvs, indices }
}

} // verus!
