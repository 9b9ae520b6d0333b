//! Irregular polygons: generation from random draws, winding order, and the
//! removal of vertices that lie too close together.

use crate::math::{
    complement, direction, div_toward_zero, floor_sqrt, from_polar, is_floor_sqrt,
    lemma_floor_sqrt_exists, lemma_floor_sqrt_unique, lemma_mul_bound, lemma_polar_radius,
    lemma_trunc_div_bound,
    polar, series_step, sin_series, trunc_div, Vec2, COORD_MAX, RADIUS_EXACT_MAX, TURN,
};
use crate::random::random_range;
use crate::sequences::{lemma_take_ends, lemma_take_step};
use rand::rngs::StdRng;
use vstd::prelude::*;

verus! {

/// Radius of the hexagon that stands in for a polygon with too few vertices,
/// in sub-units.
pub const FALLBACK_RADIUS: i64 = 20_000;

/// Number of vertices of that hexagon.
pub const FALLBACK_VERTICES: usize = 6;

/// The direction of vertex `index` of `count`, before any jitter: that
/// fraction of a full turn, in billionths of a radian, rounded down.
pub open spec fn base_angle(index: int, count: int) -> int {
    (index * TURN) / count
}

/// The regular polygon with `count` vertices around the origin: vertex `i`
/// is the point at distance `radius` in the direction of the `i`-th of
/// `count` equal parts of a full turn, rounded to the nearest sub-unit. The
/// first lies on the positive x axis, the rest follow counter-clockwise.
pub open spec fn spec_regular_polygon(count: nat, radius: int) -> Seq<Vec2> {
    Seq::new(count, |i: int| polar(radius, base_angle(i, count as int)))
}

/// What one edge, from `a` to `b`, adds to the shoelace sum.
pub open spec fn edge_term(a: Vec2, b: Vec2) -> int {
    (b.x - a.x) * (b.y + a.y)
}

/// The shoelace sum along the open path through `points`.
pub open spec fn path_sum(points: Seq<Vec2>) -> int
    decreases points.len(),
{
    if points.len() < 2 {
        0
    } else {
        path_sum(points.drop_last()) + edge_term(
            points[points.len() - 2],
            points[points.len() - 1],
        )
    }
}

/// The shoelace sum around the closed polygon through `points`, the edge from
/// the last vertex back to the first included. It is minus twice the signed
/// area: negative for a counter-clockwise polygon.
pub open spec fn shoelace(points: Seq<Vec2>) -> int {
    if points.len() == 0 {
        0
    } else {
        path_sum(points) + edge_term(points.last(), points.first())
    }
}

/// The polygon winds counter-clockwise.
pub open spec fn winds_ccw(points: Seq<Vec2>) -> bool {
    shoelace(points) < 0
}

/// Every point lies within the coordinate range.
pub open spec fn all_bounded(points: Seq<Vec2>) -> bool {
    forall|i: int| 0 <= i < points.len() ==> (#[trigger] points[i]).bounded()
}

/// The polygon winds clockwise.
pub open spec fn winds_cw(points: Seq<Vec2>) -> bool {
    shoelace(points) > 0
}

/// The polygon in counter-clockwise order: reversed if it winds clockwise,
/// else as it is. A polygon without area winds neither way and is left
/// alone.
pub open spec fn spec_ensure_ccw(points: Seq<Vec2>) -> Seq<Vec2> {
    if winds_cw(points) {
        points.reverse()
    } else {
        points
    }
}

/// The points of `points` that survive a walk which keeps a point only if it
/// lies at least the distance whose square is `min_squared` from `reference`,
/// the last point kept.
pub open spec fn kept_points(points: Seq<Vec2>, reference: Vec2, min_squared: int) -> Seq<Vec2>
    decreases points.len(),
{
    if points.len() == 0 {
        Seq::empty()
    } else if reference.dist_squared(points[0]) >= min_squared {
        seq![points[0]] + kept_points(points.skip(1), points[0], min_squared)
    } else {
        kept_points(points.skip(1), reference, min_squared)
    }
}

/// The hexagon that stands in for a polygon with too few vertices.
pub open spec fn fallback_polygon() -> Seq<Vec2> {
    spec_regular_polygon(FALLBACK_VERTICES as nat, FALLBACK_RADIUS as int)
}

/// No two neighbours along `points` lie closer together than the distance
/// whose square is `min_squared`.
pub open spec fn spaced(points: Seq<Vec2>, min_squared: int) -> bool {
    forall|i: int|
        0 <= i < points.len() - 1 ==> (#[trigger] points[i]).dist_squared(points[i + 1])
            >= min_squared
}

/// What the walk along `points` keeps: the first vertex, and of the others
/// each that lies at least `min_distance` from the vertex kept last before
/// it.
pub open spec fn walked(points: Seq<Vec2>, min_distance: int) -> Seq<Vec2> {
    if points.len() == 0 {
        Seq::empty()
    } else {
        seq![points[0]] + kept_points(points.skip(1), points[0], min_distance * min_distance)
    }
}

/// The polygon without the vertices that lie closer than `min_distance` to
/// the vertex kept before them. If fewer than three vertices are left, the
/// result is the fallback hexagon.
pub open spec fn spec_simplify(points: Seq<Vec2>, min_distance: int) -> Seq<Vec2> {
    let kept = walked(points, min_distance);
    if kept.len() < 3 {
        fallback_polygon()
    } else {
        kept
    }
}

/// A source of polygon outlines.
pub trait ShapeGenerator {
    /// The parameters are ones `generate` can work with.
    spec fn valid(&self) -> bool;

    /// `points` is an outline this generator may produce.
    spec fn produces(&self, points: Seq<Vec2>) -> bool;

    /// Draws one outline.
    fn generate(&self, rng: &mut StdRng) -> (points: Vec<Vec2>)
        requires
            self.valid(),
        ensures
            self.produces(points@),
    ;
}

/// Places vertices around a circle, each pushed in or out and turned a little
/// by random amounts.
#[derive(Clone, Copy, Debug, PartialEq, Eq, Structural)]
pub struct IrregularPolygonGenerator {
    /// Number of vertices.
    pub vertex_count: usize,
    /// Radius of the circle, in sub-units.
    pub base_radius: i64,
    /// Largest change of a vertex's distance from the centre, in thousandths
    /// of the radius.
    pub radius_variation: i64,
    /// Largest change of a vertex's direction, in thousandths of a radian.
    pub angle_variation: i64,
}

impl IrregularPolygonGenerator {
    /// Vertex `index` for a given jitter: at `radius_factor` thousandths of
    /// the base radius, `angle_offset` past its base angle.
    pub open spec fn vertex(self, index: int, angle_offset: int, radius_factor: int) -> Vec2 {
        polar(
            trunc_div(self.base_radius * radius_factor, 1000),
            base_angle(index, self.vertex_count as int) + angle_offset * 1_000_000,
        )
    }

    /// The jitter is one the generator may draw.
    pub open spec fn jitter_allowed(self, angle_offset: int, radius_factor: int) -> bool {
        &&& -self.angle_variation <= angle_offset < self.angle_variation
        &&& 1000 - self.radius_variation <= radius_factor < 1000 + self.radius_variation
    }

    /// `p` is vertex `index` for some jitter the generator may draw.
    pub open spec fn is_vertex(self, index: int, p: Vec2) -> bool {
        exists|angle_offset: int, radius_factor: int|
            self.jitter_allowed(angle_offset, radius_factor) && p == #[trigger] self.vertex(
                index,
                angle_offset,
                radius_factor,
            )
    }

    /// The farthest a vertex can lie from the centre along either axis.
    pub open spec fn reach(self) -> int {
        let radius: int = if self.base_radius >= 0 {
            self.base_radius as int
        } else {
            -self.base_radius
        };
        (radius * (1000 + self.radius_variation)) / 1000
    }

    /// A generator with the usual jitter: three tenths of the radius, a fifth
    /// of a radian.
    pub fn new(vertex_count: usize, base_radius: i64) -> (g: IrregularPolygonGenerator)
        ensures
            g.vertex_count == vertex_count,
            g.base_radius == base_radius,
            g.radius_variation == 300,
            g.angle_variation == 200,
    {
        IrregularPolygonGenerator {
            vertex_count,
            base_radius,
            radius_variation: 300,
            angle_variation: 200,
        }
    }

    /// Every vertex lies within `reach` of the centre along both axes.
    pub proof fn lemma_vertex_within_reach(self, index: int, angle_offset: int, radius_factor: int)
        requires
            self.valid(),
            self.jitter_allowed(angle_offset, radius_factor),
        ensures
            self.vertex(index, angle_offset, radius_factor).within(self.reach()),
            0 <= self.reach() <= 2_000_000_000_000_000,
    {
        let radius: int = if self.base_radius >= 0 {
            self.base_radius as int
        } else {
            -self.base_radius
        };
        let top = 1000 + self.radius_variation;
        let scaled = trunc_div(self.base_radius * radius_factor, 1000);
        assert(-(radius * top) <= self.base_radius * radius_factor <= radius * top)
            by (nonlinear_arith)
            requires
                -top <= radius_factor <= top,
                radius == self.base_radius || radius == -self.base_radius,
                radius >= 0,
        ;
        assert(0 <= radius * top <= 1_000_000_000 * 1_000_001_000) by (nonlinear_arith)
            requires
                0 <= radius <= 1_000_000_000,
                0 <= top <= 1_000_001_000,
        ;
        let reach = self.reach();
        assert(reach == (radius * top) / 1000);
        // `reach * 1000` may fall short of `radius * top`, but never by a whole thousand.
        if self.base_radius * radius_factor >= 0 {
            assert(scaled == (self.base_radius * radius_factor) / 1000);
            assert(scaled <= reach);
        } else {
            assert(scaled == -((-(self.base_radius * radius_factor)) / 1000));
            assert(-scaled <= reach);
        }
        crate::math::lemma_polar_within(
            scaled,
            base_angle(index, self.vertex_count as int) + angle_offset * 1_000_000,
            reach,
        );
    }

    /// Vertex `index` for a jitter already drawn.
    pub fn vertex_at(&self, index: usize, angle_offset: i64, radius_factor: i64) -> (p: Vec2)
        requires
            self.valid(),
            index < self.vertex_count,
            self.jitter_allowed(angle_offset as int, radius_factor as int),
        ensures
            p == self.vertex(index as int, angle_offset as int, radius_factor as int),
            self.is_vertex(index as int, p),
            p.within(self.reach()),
    {
        let base: i64 = base_angle_of(index, self.vertex_count);
        proof {
            self.lemma_vertex_within_reach(index as int, angle_offset as int, radius_factor as int);
            lemma_mul_bound(
                self.base_radius as int,
                radius_factor as int,
                1_000_000_000,
                1_000_001_000,
            );
            lemma_trunc_div_bound(self.base_radius * radius_factor, 1000, 1_000_001_000_000_000);
        }
        let radius: i128 = div_toward_zero(
            (self.base_radius as i128) * (radius_factor as i128),
            1000,
        );
        from_polar(radius as i64, base + angle_offset * 1_000_000)
    }

    /// Draws the jitter for vertex `index` and places the vertex.
    fn generate_vertex(&self, index: usize, rng: &mut StdRng) -> (p: Vec2)
        requires
            self.valid(),
            index < self.vertex_count,
        ensures
            self.is_vertex(index as int, p),
            p.within(self.reach()),
    {
        let angle_offset: i64 = random_range(rng, -self.angle_variation, self.angle_variation);
        let radius_factor: i64 = random_range(
            rng,
            1000 - self.radius_variation,
            1000 + self.radius_variation,
        );
        self.vertex_at(index, angle_offset, radius_factor)
    }
}

impl ShapeGenerator for IrregularPolygonGenerator {
    /// Both variations are positive, so that there is something to draw from,
    /// and all three magnitudes are within the coordinate range.
    open spec fn valid(&self) -> bool {
        &&& 0 < self.angle_variation <= COORD_MAX
        &&& 0 < self.radius_variation <= COORD_MAX
        &&& -COORD_MAX <= self.base_radius <= COORD_MAX
    }

    /// As many points as the generator has vertices, each of them that vertex
    /// for some jitter.
    open spec fn produces(&self, points: Seq<Vec2>) -> bool {
        &&& points.len() == self.vertex_count
        &&& forall|i: int| 0 <= i < points.len() ==> self.is_vertex(i, #[trigger] points[i])
    }

    fn generate(&self, rng: &mut StdRng) -> (points: Vec<Vec2>)
        ensures
            forall|i: int| 0 <= i < points.len() ==> (#[trigger] points[i]).within(self.reach()),
    {
        let mut points: Vec<Vec2> = Vec::new();
        let mut index: usize = 0;
        while index < self.vertex_count
            invariant
                self.valid(),
                index <= self.vertex_count,
                points.len() == index,
                forall|i: int| 0 <= i < points.len() ==> self.is_vertex(i, #[trigger] points[i]),
                forall|i: int|
                    0 <= i < points.len() ==> (#[trigger] points[i]).within(self.reach()),
            decreases self.vertex_count - index,
        {
            let p = self.generate_vertex(index, rng);
            points.push(p);
            index += 1;
        }
        points
    }
}

/// Computes the direction of vertex `index` of `count`, before any jitter.
fn base_angle_of(index: usize, count: usize) -> (angle: i64)
    requires
        index < count,
    ensures
        angle == base_angle(index as int, count as int),
        0 <= angle <= TURN,
{
    assert(0 <= index * TURN <= 0xFFFF_FFFF_FFFF_FFFF * 6_283_185_308) by (nonlinear_arith)
        requires
            0 <= index <= 0xFFFF_FFFF_FFFF_FFFF,
            TURN == 6_283_185_308,
    ;
    let turned: u128 = (index as u128) * (TURN as u128);
    let quotient: u128 = turned / (count as u128);
    assert(quotient == base_angle(index as int, count as int) && quotient <= TURN)
        by (nonlinear_arith)
        requires
            0 <= index < count,
            turned == index * TURN,
            quotient == turned / (count as u128),
            TURN == 6_283_185_308,
    ;
    quotient as i64
}

/// Creates the regular polygon with `num_vertices` vertices at distance
/// `radius` from the origin.
pub fn regular_polygon(num_vertices: usize, radius: i64) -> (points: Vec<Vec2>)
    requires
        radius > i64::MIN,
    ensures
        points@ == spec_regular_polygon(num_vertices as nat, radius as int),
        points.len() == num_vertices,
        forall|i: int|
            0 <= i < points.len() ==> (#[trigger] points[i]).within(
                if radius >= 0 {
                    radius as int
                } else {
                    -radius
                },
            ),
{
    let mut points: Vec<Vec2> = Vec::new();
    let mut index: usize = 0;
    while index < num_vertices
        invariant
            radius > i64::MIN,
            index <= num_vertices,
            points.len() == index,
            forall|i: int|
                0 <= i < points.len() ==> #[trigger] points[i] == polar(
                    radius as int,
                    base_angle(i, num_vertices as int),
                ),
            forall|i: int|
                0 <= i < points.len() ==> (#[trigger] points[i]).within(
                    if radius >= 0 {
                        radius as int
                    } else {
                        -radius
                    },
                ),
        decreases num_vertices - index,
    {
        points.push(from_polar(radius, base_angle_of(index, num_vertices)));
        index += 1;
    }
    assert(points@ =~= spec_regular_polygon(num_vertices as nat, radius as int));
    points
}

/// What one edge adds to the shoelace sum.
fn edge(a: Vec2, b: Vec2) -> (r: i128)
    requires
        a.bounded(),
        b.bounded(),
    ensures
        r == edge_term(a, b),
        -4_000_000_000_000_000_000 <= r <= 4_000_000_000_000_000_000,
{
    let dx: i128 = (b.x - a.x) as i128;
    let sy: i128 = (b.y + a.y) as i128;
    assert(-4_000_000_000_000_000_000 <= dx * sy <= 4_000_000_000_000_000_000)
        by (nonlinear_arith)
        requires
            -2_000_000_000 <= dx <= 2_000_000_000,
            -2_000_000_000 <= sy <= 2_000_000_000,
    ;
    dx * sy
}

/// Computes the shoelace sum around the polygon: negative where it winds
/// counter-clockwise, positive where it winds clockwise, zero where it has
/// no area.
pub fn shoelace_sum(vertices: &Vec<Vec2>) -> (sum: i128)
    requires
        all_bounded(vertices@),
    ensures
        sum == shoelace(vertices@),
{
    let n: usize = vertices.len();
    if n == 0 {
        return 0;
    }
    let mut area: i128 = 0;
    let mut i: usize = 1;
    assert(vertices@.take(1).len() == 1);
    while i < n
        invariant
            1 <= i <= n,
            n == vertices.len(),
            all_bounded(vertices@),
            area == path_sum(vertices@.take(i as int)),
            -4_000_000_000_000_000_000 * i <= area <= 4_000_000_000_000_000_000 * i,
        decreases n - i,
    {
        proof {
            lemma_take_step(vertices@, i as int);
            assert(vertices@.take(i as int + 1)[i - 1] == vertices@[i - 1]);
        }
        area = area + edge(vertices[i - 1], vertices[i]);
        i += 1;
    }
    proof {
        lemma_take_ends(vertices@);
    }
    area + edge(vertices[n - 1], vertices[0])
}

/// Tells whether the polygon winds counter-clockwise, by the sign of its
/// shoelace sum.
pub fn is_ccw(vertices: &Vec<Vec2>) -> (r: bool)
    requires
        all_bounded(vertices@),
    ensures
        r == winds_ccw(vertices@),
{
    shoelace_sum(vertices) < 0
}

/// The points in the opposite order.
fn reversed(points: &Vec<Vec2>) -> (r: Vec<Vec2>)
    ensures
        r@ == points@.reverse(),
{
    let n: usize = points.len();
    let mut r: Vec<Vec2> = Vec::new();
    let mut left: usize = n;
    while left > 0
        invariant
            left <= n,
            n == points.len(),
            r.len() == n - left,
            forall|j: int| 0 <= j < r.len() ==> #[trigger] r[j] == points[n - 1 - j],
        decreases left,
    {
        left -= 1;
        r.push(points[left]);
    }
    assert(r@ =~= points@.reverse());
    r
}

/// Puts the vertices in counter-clockwise order, reversing them if they wind
/// clockwise. A second call changes nothing.
pub fn ensure_ccw(vertices: &mut Vec<Vec2>)
    requires
        all_bounded(old(vertices)@),
    ensures
        final(vertices)@ == spec_ensure_ccw(old(vertices)@),
        final(vertices).len() == old(vertices).len(),
        all_bounded(final(vertices)@),
{
    if shoelace_sum(vertices) > 0 {
        let flipped = reversed(vertices);
        *vertices = flipped;
    }
}

/// Creates the hexagon that stands in for a polygon that cannot serve.
pub fn fallback_hexagon() -> (points: Vec<Vec2>)
    ensures
        points@ == fallback_polygon(),
        points.len() == 6,
        all_bounded(points@),
{
    regular_polygon(FALLBACK_VERTICES, FALLBACK_RADIUS)
}

/// Removes the vertices that lie closer than `min_distance` to the vertex
/// kept before them; puts the fallback hexagon in place of a polygon that is
/// left with fewer than three.
pub fn simplify_polygon(vertices: &mut Vec<Vec2>, min_distance: i64)
    requires
        all_bounded(old(vertices)@),
    ensures
        final(vertices)@ == spec_simplify(old(vertices)@, min_distance as int),
        final(vertices).len() >= 3,
        all_bounded(final(vertices)@),
{
    let n: usize = vertices.len();
    let mut kept: Vec<Vec2> = Vec::new();
    assert(-0x4000_0000_0000_0000_0000_0000_0000_0000 <= min_distance * min_distance
        <= 0x4000_0000_0000_0000_0000_0000_0000_0000) by (nonlinear_arith)
        requires
            -0x8000_0000_0000_0000 <= min_distance <= 0x8000_0000_0000_0000,
    ;
    let min_squared: i128 = (min_distance as i128) * (min_distance as i128);
    if n > 0 {
        let mut reference: Vec2 = vertices[0];
        kept.push(reference);
        let mut i: usize = 1;
        assert(kept@ =~= seq![vertices@[0]]);
        while i < n
            invariant
                1 <= i <= n,
                n == vertices.len(),
                all_bounded(vertices@),
                all_bounded(kept@),
                reference.bounded(),
                kept@ + kept_points(vertices@.skip(i as int), reference, min_squared as int)
                    == walked(vertices@, min_distance as int),
            decreases n - i,
        {
            let v: Vec2 = vertices[i];
            let d: i64 = reference.distance_squared(&v);
            proof {
                let rest = vertices@.skip(i as int);
                assert(rest[0] == v);
                assert(rest.skip(1) =~= vertices@.skip(i as int + 1));
                if d >= min_squared {
                    assert(kept@.push(v) + kept_points(
                        vertices@.skip(i as int + 1),
                        v,
                        min_squared as int,
                    ) =~= kept@ + kept_points(rest, reference, min_squared as int));
                }
            }
            if d as i128 >= min_squared {
                kept.push(v);
                reference = v;
            }
            i += 1;
        }
        assert(vertices@.skip(n as int) =~= Seq::<Vec2>::empty());
        assert(kept@ =~= walked(vertices@, min_distance as int));
    }
    if kept.len() < 3 {
        *vertices = fallback_hexagon();
    } else {
        *vertices = kept;
    }
}

/// The shoelace sum along a path can be taken from the front as well: the
/// first edge, then the rest of the path.
proof fn lemma_path_sum_front(points: Seq<Vec2>)
    requires
        points.len() >= 2,
    ensures
        path_sum(points) == edge_term(points[0], points[1]) + path_sum(points.skip(1)),
    decreases points.len(),
{
    if points.len() == 2 {
        assert(path_sum(points.drop_last()) == 0);
        assert(path_sum(points.skip(1)) == 0);
    } else {
        let front = points.drop_last();
        lemma_path_sum_front(front);
        assert(front.skip(1) =~= points.skip(1).drop_last());
    }
}

/// Walking a path backwards negates its shoelace sum.
proof fn lemma_path_sum_reverse(points: Seq<Vec2>)
    ensures
        path_sum(points.reverse()) == -path_sum(points),
    decreases points.len(),
{
    if points.len() >= 2 {
        let n = points.len() as int;
        let back = points.reverse();
        lemma_path_sum_front(back);
        assert(back.skip(1) =~= points.drop_last().reverse());
        lemma_path_sum_reverse(points.drop_last());
        assert(edge_term(points[n - 1], points[n - 2]) == -edge_term(points[n - 2], points[n - 1]))
            by (nonlinear_arith);
    }
}

/// Reversing a polygon negates its shoelace sum.
pub proof fn lemma_shoelace_reverse(points: Seq<Vec2>)
    ensures
        shoelace(points.reverse()) == -shoelace(points),
{
    if points.len() > 0 {
        lemma_path_sum_reverse(points);
        let back = points.reverse();
        assert(edge_term(back.last(), back.first()) == -edge_term(points.last(), points.first()))
            by (nonlinear_arith)
            requires
                back.last() == points.first(),
                back.first() == points.last(),
        ;
    }
}

/// Putting a polygon in counter-clockwise order a second time changes
/// nothing. The polygon then never winds clockwise, and winds
/// counter-clockwise wherever it has an area.
pub proof fn lemma_ensure_ccw_idempotent(points: Seq<Vec2>)
    ensures
        spec_ensure_ccw(spec_ensure_ccw(points)) == spec_ensure_ccw(points),
        !winds_cw(spec_ensure_ccw(points)),
        shoelace(points) != 0 ==> winds_ccw(spec_ensure_ccw(points)),
        shoelace(spec_ensure_ccw(points)) == 0 <==> shoelace(points) == 0,
{
    lemma_shoelace_reverse(points);
}

/// Whatever goes in, at least three vertices come out of the simplification:
/// what the walk has kept, or else the six of the fallback hexagon.
pub proof fn lemma_simplify_at_least_three(points: Seq<Vec2>, min_distance: int)
    ensures
        spec_simplify(points, min_distance).len() >= 3,
        fallback_polygon().len() == 6,
        spec_simplify(points, min_distance) == fallback_polygon() || spec_simplify(
            points,
            min_distance,
        ) == walked(points, min_distance),
{
}

/// No more points survive the walk than went into it.
pub proof fn lemma_kept_points_len(points: Seq<Vec2>, reference: Vec2, min_squared: int)
    ensures
        kept_points(points, reference, min_squared).len() <= points.len(),
    decreases points.len(),
{
    if points.len() > 0 {
        lemma_kept_points_len(points.skip(1), points[0], min_squared);
        lemma_kept_points_len(points.skip(1), reference, min_squared);
    }
}

/// A point far enough from the first of a spaced path may be put before
/// it, and the path stays spaced.
proof fn lemma_prepend_spaced(first: Vec2, tail: Seq<Vec2>, min_squared: int)
    requires
        spaced(tail, min_squared),
        tail.len() > 0 ==> first.dist_squared(tail[0]) >= min_squared,
    ensures
        spaced(seq![first] + tail, min_squared),
{
    let whole = seq![first] + tail;
    assert forall|i: int| 0 <= i < whole.len() - 1 implies (#[trigger] whole[i]).dist_squared(
        whole[i + 1],
    ) >= min_squared by {
        if i > 0 {
            assert(whole[i] == tail[i - 1]);
            assert(whole[i + 1] == tail[i]);
        } else {
            assert(whole[1] == tail[0]);
        }
    }
}

/// A spaced path without its first point is spaced, and begins far enough
/// from that point.
proof fn lemma_rest_spaced(points: Seq<Vec2>, min_squared: int)
    requires
        points.len() > 0,
        spaced(points, min_squared),
    ensures
        spaced(points.skip(1), min_squared),
        points.len() > 1 ==> points[0].dist_squared(points.skip(1)[0]) >= min_squared,
        seq![points[0]] + points.skip(1) == points,
{
    let rest = points.skip(1);
    assert forall|i: int| 0 <= i < rest.len() - 1 implies (#[trigger] rest[i]).dist_squared(
        rest[i + 1],
    ) >= min_squared by {
        assert(rest[i] == points[i + 1]);
        assert(rest[i + 1] == points[i + 2]);
        assert(points[i + 1].dist_squared(points[i + 2]) >= min_squared);
    }
    if rest.len() > 0 {
        assert(rest[0] == points[1]);
        assert(points[0].dist_squared(points[1]) >= min_squared);
    }
    assert(seq![points[0]] + rest =~= points);
}

/// No two neighbours among the points kept lie closer together than the
/// distance asked for, and the first of them lies no closer to the reference
/// the walk began with.
pub proof fn lemma_kept_points_spaced(points: Seq<Vec2>, reference: Vec2, min_squared: int)
    ensures
        ({
            let kept = kept_points(points, reference, min_squared);
            &&& kept.len() > 0 ==> reference.dist_squared(kept[0]) >= min_squared
            &&& spaced(kept, min_squared)
        }),
    decreases points.len(),
{
    if points.len() > 0 {
        let rest = points.skip(1);
        if reference.dist_squared(points[0]) >= min_squared {
            lemma_kept_points_spaced(rest, points[0], min_squared);
            lemma_prepend_spaced(points[0], kept_points(rest, points[0], min_squared), min_squared);
        } else {
            lemma_kept_points_spaced(rest, reference, min_squared);
        }
    }
}

/// The walk keeps the first vertex, no more vertices than there were, and no
/// two neighbours closer together than the distance asked for.
pub proof fn lemma_walked(points: Seq<Vec2>, min_distance: int)
    ensures
        walked(points, min_distance).len() <= points.len(),
        points.len() > 0 ==> walked(points, min_distance).len() > 0 && walked(
            points,
            min_distance,
        )[0] == points[0],
        spaced(walked(points, min_distance), min_distance * min_distance),
{
    if points.len() > 0 {
        let m = min_distance * min_distance;
        lemma_kept_points_len(points.skip(1), points[0], m);
        lemma_kept_points_spaced(points.skip(1), points[0], m);
        lemma_prepend_spaced(points[0], kept_points(points.skip(1), points[0], m), m);
    }
}

/// Where every point lies far enough from the one before it, and the first
/// from the reference, the walk keeps them all.
pub proof fn lemma_kept_points_all(points: Seq<Vec2>, reference: Vec2, min_squared: int)
    requires
        points.len() > 0 ==> reference.dist_squared(points[0]) >= min_squared,
        spaced(points, min_squared),
    ensures
        kept_points(points, reference, min_squared) == points,
    decreases points.len(),
{
    if points.len() > 0 {
        lemma_rest_spaced(points, min_squared);
        lemma_kept_points_all(points.skip(1), points[0], min_squared);
    }
}

/// A polygon of three vertices or more, no two neighbours of which lie
/// closer together than the distance asked for, is left as it is.
pub proof fn lemma_simplify_keeps_spaced(points: Seq<Vec2>, min_distance: int)
    requires
        points.len() >= 3,
        spaced(points, min_distance * min_distance),
    ensures
        spec_simplify(points, min_distance) == points,
{
    let m = min_distance * min_distance;
    lemma_rest_spaced(points, m);
    lemma_kept_points_all(points.skip(1), points[0], m);
}

/// Turning a path round leaves the distances between neighbours as they
/// were.
pub proof fn lemma_reverse_spaced(points: Seq<Vec2>, min_squared: int)
    requires
        spaced(points, min_squared),
    ensures
        spaced(points.reverse(), min_squared),
{
    let back = points.reverse();
    let n = points.len() as int;
    assert forall|i: int| 0 <= i < back.len() - 1 implies (#[trigger] back[i]).dist_squared(
        back[i + 1],
    ) >= min_squared by {
        let a = points[n - 2 - i];
        let b = points[n - 1 - i];
        assert(back[i] == b);
        assert(back[i + 1] == a);
        assert(a.dist_squared(b) >= min_squared);
        assert(b.dist_squared(a) == a.dist_squared(b)) by (nonlinear_arith)
            requires
                b.dist_squared(a) == (b.x - a.x) * (b.x - a.x) + (b.y - a.y) * (b.y - a.y),
                a.dist_squared(b) == (a.x - b.x) * (a.x - b.x) + (a.y - b.y) * (a.y - b.y),
        ;
    }
}

/// Every vertex of a regular polygon lies at the polygon's radius from the
/// centre, to within one sub-unit.
pub proof fn lemma_regular_polygon_radius(count: nat, radius: int, i: int)
    requires
        4 <= radius <= RADIUS_EXACT_MAX,
        0 <= i < count,
    ensures
        (radius - 1) * (radius - 1) <= spec_regular_polygon(count, radius)[i].norm_squared() <= (
        radius + 1) * (radius + 1),
{
    lemma_polar_radius(radius, base_angle(i, count as int));
}

/// The series and the complement at the two angles of thirty degrees that
/// the hexagon needs.
proof fn lemma_series_at_thirty_degrees()
    ensures
        sin_series(0) == 0,
        sin_series(523_598_776) == 500_000_000,
        sin_series(523_598_775) == 499_999_999,
        complement(0) == 1_000_000_000,
        complement(500_000_000) == 866_025_403,
        complement(499_999_999) == 866_025_404,
{
    assert(series_step(0, 1_000_000_000, 156) == 1_000_000_000);
    assert(series_step(0, 1_000_000_000, 110) == 1_000_000_000);
    assert(series_step(0, 1_000_000_000, 72) == 1_000_000_000);
    assert(series_step(0, 1_000_000_000, 42) == 1_000_000_000);
    assert(series_step(0, 1_000_000_000, 20) == 1_000_000_000);
    assert(series_step(0, 1_000_000_000, 6) == 1_000_000_000);
    assert(sin_series(0) == 0);

    assert((523_598_776int * 523_598_776) / 1_000_000_000 == 274_155_678);
    assert(series_step(274_155_678, 1_000_000_000, 156) == 998_242_592);
    assert(series_step(274_155_678, 998_242_592, 110) == 997_512_056);
    assert(series_step(274_155_678, 997_512_056, 72) == 996_201_756);
    assert(series_step(274_155_678, 996_201_756, 42) == 993_497_277);
    assert(series_step(274_155_678, 993_497_277, 20) == 986_381_355);
    assert(series_step(274_155_678, 986_381_355, 6) == 954_929_659);
    assert((523_598_776int * 954_929_659) / 1_000_000_000 == 500_000_000);
    assert(sin_series(523_598_776) == 500_000_000);

    assert((523_598_775int * 523_598_775) / 1_000_000_000 == 274_155_677);
    assert(series_step(274_155_677, 1_000_000_000, 156) == 998_242_592);
    assert(series_step(274_155_677, 998_242_592, 110) == 997_512_056);
    assert(series_step(274_155_677, 997_512_056, 72) == 996_201_756);
    assert(series_step(274_155_677, 996_201_756, 42) == 993_497_277);
    assert(series_step(274_155_677, 993_497_277, 20) == 986_381_355);
    assert(series_step(274_155_677, 986_381_355, 6) == 954_929_659);
    assert((523_598_775int * 954_929_659) / 1_000_000_000 == 499_999_999);
    assert(sin_series(523_598_775) == 499_999_999);

    let one = 1_000_000_000int * 1_000_000_000;
    assert(is_floor_sqrt(one - 0int * 0, 1_000_000_000));
    lemma_floor_sqrt_exists(one - 0int * 0);
    lemma_floor_sqrt_unique(one - 0int * 0, 1_000_000_000, floor_sqrt(one - 0int * 0));
    let a = one - 500_000_000int * 500_000_000;
    assert(is_floor_sqrt(a, 866_025_403));
    lemma_floor_sqrt_exists(a);
    lemma_floor_sqrt_unique(a, 866_025_403, floor_sqrt(a));
    let b = one - 499_999_999int * 499_999_999;
    assert(is_floor_sqrt(b, 866_025_404));
    lemma_floor_sqrt_exists(b);
    lemma_floor_sqrt_unique(b, 866_025_404, floor_sqrt(b));
}

/// The six vertices of the fallback hexagon: those of the regular hexagon of
/// radius twenty, each coordinate rounded to the nearest sub-unit.
pub open spec fn hexagon() -> Seq<Vec2> {
    seq![
        Vec2 { x: 20_000, y: 0 },
        Vec2 { x: 10_000, y: 17_321 },
        Vec2 { x: -10_000i64, y: 17_321 },
        Vec2 { x: -20_000i64, y: 0 },
        Vec2 { x: -10_000i64, y: -17_321i64 },
        Vec2 { x: 10_000, y: -17_321i64 },
    ]
}

/// The directions of the six vertices of a hexagon.
proof fn lemma_hexagon_directions()
    ensures
        direction(base_angle(0, 6)) == (Vec2 { x: 1_000_000_000, y: 0 }),
        direction(base_angle(1, 6)) == (Vec2 { x: 500_000_000, y: 866_025_403 }),
        direction(base_angle(2, 6)) == (Vec2 { x: -499_999_999i64, y: 866_025_404 }),
        direction(base_angle(3, 6)) == (Vec2 { x: -1_000_000_000i64, y: 0 }),
        direction(base_angle(4, 6)) == (Vec2 { x: -500_000_000i64, y: -866_025_403i64 }),
        direction(base_angle(5, 6)) == (Vec2 { x: 499_999_999, y: -866_025_404i64 }),
{
    reveal(direction);
    lemma_series_at_thirty_degrees();
    assert(base_angle(0, 6) == 0);
    assert(base_angle(1, 6) == 1_047_197_551);
    assert(base_angle(2, 6) == 2_094_395_102);
    assert(base_angle(3, 6) == 3_141_592_654);
    assert(base_angle(4, 6) == 4_188_790_205);
    assert(base_angle(5, 6) == 5_235_987_756);
}

/// The fallback is the hexagon.
pub proof fn lemma_fallback_is_hexagon()
    ensures
        fallback_polygon() == hexagon(),
{
    lemma_hexagon_directions();
    let f = fallback_polygon();
    let h = hexagon();
    assert(f[0] == h[0]);
    assert(f[1] == h[1]);
    assert(f[2] == h[2]);
    assert(f[3] == h[3]);
    assert(f[4] == h[4]);
    assert(f[5] == h[5]);
    assert(f =~= h);
}

/// The hexagon winds counter-clockwise.
pub proof fn lemma_hexagon_winds_ccw()
    ensures
        winds_ccw(hexagon()),
{
    let h = hexagon();
    let h5 = h.drop_last();
    let h4 = h5.drop_last();
    let h3 = h4.drop_last();
    let h2 = h3.drop_last();
    let h1 = h2.drop_last();
    assert(path_sum(h1) == 0);
    assert(path_sum(h2) == path_sum(h1) + edge_term(h[0], h[1]));
    assert(path_sum(h3) == path_sum(h2) + edge_term(h[1], h[2]));
    assert(path_sum(h4) == path_sum(h3) + edge_term(h[2], h[3]));
    assert(path_sum(h5) == path_sum(h4) + edge_term(h[3], h[4]));
    assert(path_sum(h) == path_sum(h5) + edge_term(h[4], h[5]));
    assert(edge_term(h[0], h[1]) == (10_000int - 20_000) * (17_321 + 0));
    assert(edge_term(h[1], h[2]) == (-10_000int - 10_000) * (17_321 + 17_321));
    assert(edge_term(h[2], h[3]) == (-20_000int + 10_000) * (0 + 17_321));
    assert(edge_term(h[3], h[4]) == (-10_000int + 20_000) * (-17_321 + 0));
    assert(edge_term(h[4], h[5]) == (10_000int + 10_000) * (-17_321 - 17_321));
    assert(edge_term(h[5], h[0]) == (20_000int - 10_000) * (0 - 17_321));
}

/// No two neighbours of the hexagon lie closer together than twenty world
/// units less a sub-unit, and all its vertices lie within the coordinate
/// range.
pub proof fn lemma_hexagon_spaced()
    ensures
        spaced(hexagon(), 19_999int * 19_999),
        all_bounded(hexagon()),
        hexagon().len() == 6,
{
    let h = hexagon();
    assert(h[0].dist_squared(h[1]) == (20_000int - 10_000) * (20_000 - 10_000) + (0 - 17_321int)
        * (0 - 17_321));
    assert(h[1].dist_squared(h[2]) == (10_000int + 10_000) * (10_000 + 10_000) + (17_321int
        - 17_321) * (17_321 - 17_321));
    assert(h[2].dist_squared(h[3]) == (-10_000int + 20_000) * (-10_000 + 20_000) + (17_321int
        - 0) * (17_321 - 0));
    assert(h[3].dist_squared(h[4]) == (-20_000int + 10_000) * (-20_000 + 10_000) + (0
        + 17_321int) * (0 + 17_321));
    assert(h[4].dist_squared(h[5]) == (-10_000int - 10_000) * (-10_000 - 10_000) + (-17_321int
        + 17_321) * (-17_321 + 17_321));
}

/// The fallback is a hexagon of radius twenty: six vertices, each twenty
/// world units from the centre to within one sub-unit.
pub proof fn lemma_fallback_radius(i: int)
    requires
        0 <= i < 6,
    ensures
        fallback_polygon().len() == 6,
        19_999 * 19_999 <= fallback_polygon()[i].norm_squared() <= 20_001 * 20_001,
{
    lemma_regular_polygon_radius(6, 20_000, i);
}

impl IrregularPolygonGenerator {
    /// The least distance from the centre a vertex is placed at, before
    /// rounding.
    pub open spec fn inner_radius(self) -> int {
        (self.base_radius * (1000 - self.radius_variation)) / 1000
    }

    /// The greatest distance from the centre a vertex is placed at, before
    /// rounding.
    pub open spec fn outer_radius(self) -> int {
        (self.base_radius * (1000 + self.radius_variation)) / 1000
    }

    /// Every vertex lies in the band between the inner and the outer radius,
    /// to within one sub-unit, whatever jitter is drawn. This holds of a
    /// generator whose radius is not negative, whose radius variation does
    /// not exceed the whole radius, and whose band lies within the radii for
    /// which a point in polar form is proved exact.
    pub proof fn lemma_vertex_in_band(self, index: int, p: Vec2)
        requires
            self.valid(),
            self.is_vertex(index, p),
            0 <= self.base_radius,
            self.radius_variation <= 1000,
            4 <= self.inner_radius(),
            self.outer_radius() <= RADIUS_EXACT_MAX,
        ensures
            (self.inner_radius() - 1) * (self.inner_radius() - 1) <= p.norm_squared() <= (
            self.outer_radius() + 1) * (self.outer_radius() + 1),
    {
        let (angle_offset, radius_factor) = choose|angle_offset: int, radius_factor: int|
            self.jitter_allowed(angle_offset, radius_factor) && p == #[trigger] self.vertex(
                index,
                angle_offset,
                radius_factor,
            );
        let low = self.inner_radius();
        let high = self.outer_radius();
        let product = self.base_radius * radius_factor;
        assert(self.base_radius * (1000 - self.radius_variation) <= product <= self.base_radius
            * (1000 + self.radius_variation)) by (nonlinear_arith)
            requires
                product == self.base_radius * radius_factor,
                self.base_radius >= 0,
                1000 - self.radius_variation <= radius_factor <= 1000 + self.radius_variation,
        ;
        assert(self.base_radius * (1000 - self.radius_variation) >= 0) by (nonlinear_arith)
            requires
                self.base_radius >= 0,
                self.radius_variation <= 1000,
        ;
        let radius = trunc_div(product, 1000);
        assert(radius == product / 1000);
        assert(low <= radius <= high);
        lemma_polar_radius(
            radius,
            base_angle(index, self.vertex_count as int) + angle_offset * 1_000_000,
        );
        assert((low - 1) * (low - 1) <= (radius - 1) * (radius - 1)) by (nonlinear_arith)
            requires
                1 <= low <= radius,
        ;
        assert((radius + 1) * (radius + 1) <= (high + 1) * (high + 1)) by (nonlinear_arith)
            requires
                0 <= radius <= high,
        ;
    }
}

} // verus!
