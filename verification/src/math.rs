//! Fixed-point vectors and the integer arithmetic the game rules are built on.
//!
//! Lengths are whole numbers of sub-units: one world unit is [`UNIT`]
//! sub-units. Angles are whole billionths of a radian. A direction is a
//! vector of length one: in thousandths where it comes from normalising a
//! vector, in billionths where it comes from an angle.

use vstd::prelude::*;

verus! {

/// Sub-units in one world unit.
pub const UNIT: i64 = 1000;

/// Largest magnitude a coordinate may have for the geometry to stay exact: a
/// million world units.
pub const COORD_MAX: i64 = 1_000_000_000;

/// `r` is the largest whole number whose square does not exceed `n`.
pub open spec fn is_floor_sqrt(n: int, r: int) -> bool {
    &&& 0 <= r
    &&& r * r <= n
    &&& n < (r + 1) * (r + 1)
}

/// The square root of `n`, rounded down.
pub open spec fn floor_sqrt(n: int) -> int {
    choose|r: int| is_floor_sqrt(n, r)
}

/// At most one number is the rounded-down square root of `n`.
pub proof fn lemma_floor_sqrt_unique(n: int, a: int, b: int)
    requires
        is_floor_sqrt(n, a),
        is_floor_sqrt(n, b),
    ensures
        a == b,
{
    if a < b {
        assert((a + 1) * (a + 1) <= b * b) by (nonlinear_arith)
            requires
                0 <= a,
                a + 1 <= b,
        ;
    }
    if b < a {
        assert((b + 1) * (b + 1) <= a * a) by (nonlinear_arith)
            requires
                0 <= b,
                b + 1 <= a,
        ;
    }
}

/// Every whole number from zero up has a rounded-down square root.
pub proof fn lemma_floor_sqrt_exists(n: int)
    requires
        n >= 0,
    ensures
        is_floor_sqrt(n, floor_sqrt(n)),
    decreases n,
{
    if n == 0 {
        assert(is_floor_sqrt(0, 0));
    } else {
        lemma_floor_sqrt_exists(n - 1);
        let r = floor_sqrt(n - 1);
        if (r + 1) * (r + 1) <= n {
            assert(n < (r + 2) * (r + 2)) by (nonlinear_arith)
                requires
                    n - 1 < (r + 1) * (r + 1),
                    0 <= r,
            ;
            assert(is_floor_sqrt(n, r + 1));
        } else {
            assert(is_floor_sqrt(n, r));
        }
    }
}

/// Computes the square root of `n`, rounded down.
pub fn isqrt(n: u128) -> (r: u128)
    ensures
        is_floor_sqrt(n as int, r as int),
        r == floor_sqrt(n as int),
        r <= u64::MAX,
{
    let mut lo: u128 = 0;
    let mut hi: u128 = 0x1_0000_0000_0000_0000;
    assert(hi * hi > n) by (nonlinear_arith)
        requires
            hi == 0x1_0000_0000_0000_0000,
            n <= u128::MAX,
    ;
    while hi - lo > 1
        invariant
            lo < hi <= 0x1_0000_0000_0000_0000,
            lo * lo <= n,
            n < hi * hi,
        decreases hi - lo,
    {
        let mid: u128 = lo + (hi - lo) / 2;
        assert(mid * mid <= 0xFFFF_FFFF_FFFF_FFFF * 0xFFFF_FFFF_FFFF_FFFF) by (nonlinear_arith)
            requires
                0 <= mid <= 0xFFFF_FFFF_FFFF_FFFF,
        ;
        if mid * mid <= n {
            lo = mid;
        } else {
            hi = mid;
        }
    }
    proof {
        assert(hi == lo + 1);
        assert(is_floor_sqrt(n as int, lo as int));
        lemma_floor_sqrt_unique(n as int, lo as int, floor_sqrt(n as int));
    }
    lo
}

/// `a / b` rounded toward zero, for a positive `b`.
pub open spec fn trunc_div(a: int, b: int) -> int {
    if a >= 0 {
        a / b
    } else {
        -((-a) / b)
    }
}

/// Rounding toward zero never moves a quotient away from zero: if `a` lies
/// within `m * b` of zero, the quotient lies within `m` of zero.
pub proof fn lemma_trunc_div_bound(a: int, b: int, m: int)
    requires
        b > 0,
        m >= 0,
        -(m * b) <= a <= m * b,
    ensures
        -m <= trunc_div(a, b) <= m,
        a >= 0 ==> trunc_div(a, b) >= 0,
        a <= 0 ==> trunc_div(a, b) <= 0,
{
    if a >= 0 {
        assert(0 <= a / b <= m) by (nonlinear_arith)
            requires
                b > 0,
                m >= 0,
                0 <= a <= m * b,
        ;
    } else {
        assert(0 <= (-a) / b <= m) by (nonlinear_arith)
            requires
                b > 0,
                m >= 0,
                0 <= -a <= m * b,
        ;
    }
}

/// Divides `a` by a positive `b`, rounding toward zero.
pub fn div_toward_zero(a: i128, b: i128) -> (r: i128)
    requires
        b > 0,
        a > i128::MIN,
    ensures
        r == trunc_div(a as int, b as int),
{
    if a >= 0 {
        a / b
    } else {
        let m: i128 = -a;
        assert(0 <= m / b <= m) by (nonlinear_arith)
            requires
                b > 0,
                m >= 0,
        ;
        -(m / b)
    }
}

/// A product is no larger than the product of the bounds of its factors.
pub proof fn lemma_mul_bound(a: int, b: int, bound_a: int, bound_b: int)
    requires
        -bound_a <= a <= bound_a,
        -bound_b <= b <= bound_b,
    ensures
        -(bound_a * bound_b) <= a * b <= bound_a * bound_b,
{
    assert(-(bound_a * bound_b) <= a * b <= bound_a * bound_b) by (nonlinear_arith)
        requires
            -bound_a <= a <= bound_a,
            -bound_b <= b <= bound_b,
    ;
}

/// A square is not negative, no larger than the square of a bound of its
/// root, and at least one unless the root is zero.
pub proof fn lemma_square_bound(a: int, bound: int)
    requires
        -bound <= a <= bound,
    ensures
        0 <= a * a <= bound * bound,
        a != 0 ==> a * a >= 1,
{
    assert(0 <= a * a <= bound * bound && (a != 0 ==> a * a >= 1)) by (nonlinear_arith)
        requires
            -bound <= a <= bound,
    ;
}

/// Computes a square.
fn square(a: i64) -> (r: u128)
    ensures
        r == a * a,
{
    proof {
        lemma_square_bound(a as int, 0x8000_0000_0000_0000);
    }
    let magnitude: u128 = if a >= 0 { a as u128 } else { (-(a as i128)) as u128 };
    assert(magnitude * magnitude == a * a) by (nonlinear_arith)
        requires
            magnitude == a || magnitude == -a,
    ;
    magnitude * magnitude
}

/// A point or a displacement in the plane, in sub-units.
#[derive(Clone, Copy, Debug, PartialEq, Eq, Structural)]
pub struct Vec2 {
    pub x: i64,
    pub y: i64,
}

impl Vec2 {
    /// Both coordinates lie within [`COORD_MAX`] of zero.
    pub open spec fn bounded(self) -> bool {
        &&& -COORD_MAX <= self.x <= COORD_MAX
        &&& -COORD_MAX <= self.y <= COORD_MAX
    }

    /// Both coordinates lie within `limit` of zero.
    pub open spec fn within(self, limit: int) -> bool {
        &&& -limit <= self.x <= limit
        &&& -limit <= self.y <= limit
    }

    /// The square of the Euclidean length.
    pub open spec fn norm_squared(self) -> int {
        self.x * self.x + self.y * self.y
    }

    /// The square of the Euclidean distance between two points.
    pub open spec fn dist_squared(self, other: Vec2) -> int {
        (self.x - other.x) * (self.x - other.x) + (self.y - other.y) * (self.y - other.y)
    }

    pub fn new(x: i64, y: i64) -> (v: Vec2)
        ensures
            v.x == x,
            v.y == y,
    {
        Vec2 { x, y }
    }

    /// Tells whether both coordinates lie within [`COORD_MAX`] of zero.
    pub fn is_bounded(&self) -> (r: bool)
        ensures
            r == self.bounded(),
    {
        -COORD_MAX <= self.x && self.x <= COORD_MAX && -COORD_MAX <= self.y && self.y <= COORD_MAX
    }

    pub fn zero() -> (v: Vec2)
        ensures
            v.x == 0,
            v.y == 0,
    {
        Vec2 { x: 0, y: 0 }
    }

    /// The square of the length.
    pub fn length_squared(&self) -> (r: u128)
        ensures
            r == self.norm_squared(),
    {
        proof {
            lemma_square_bound(self.x as int, 0x8000_0000_0000_0000);
            lemma_square_bound(self.y as int, 0x8000_0000_0000_0000);
        }
        square(self.x) + square(self.y)
    }

    /// The sum of two vectors.
    pub open spec fn sum(self, other: Vec2) -> Vec2 {
        Vec2 { x: (self.x + other.x) as i64, y: (self.y + other.y) as i64 }
    }

    /// The difference of two vectors.
    pub open spec fn diff(self, other: Vec2) -> Vec2 {
        Vec2 { x: (self.x - other.x) as i64, y: (self.y - other.y) as i64 }
    }

    /// The vector turned a quarter turn counter-clockwise.
    pub open spec fn quarter_turned(self) -> Vec2 {
        Vec2 { x: (-self.y) as i64, y: self.x }
    }

    /// The vector with both coordinates multiplied by `factor`.
    pub open spec fn times(self, factor: int) -> Vec2 {
        Vec2 { x: (self.x * factor) as i64, y: (self.y * factor) as i64 }
    }

    pub fn plus(self, other: Vec2) -> (v: Vec2)
        requires
            i64::MIN <= self.x + other.x <= i64::MAX,
            i64::MIN <= self.y + other.y <= i64::MAX,
        ensures
            v == self.sum(other),
            v.x == self.x + other.x,
            v.y == self.y + other.y,
    {
        Vec2 { x: self.x + other.x, y: self.y + other.y }
    }

    pub fn minus(self, other: Vec2) -> (v: Vec2)
        requires
            i64::MIN <= self.x - other.x <= i64::MAX,
            i64::MIN <= self.y - other.y <= i64::MAX,
        ensures
            v == self.diff(other),
            v.x == self.x - other.x,
            v.y == self.y - other.y,
    {
        Vec2 { x: self.x - other.x, y: self.y - other.y }
    }

    /// Multiplies both coordinates by `factor`.
    pub fn scale(self, factor: i64) -> (v: Vec2)
        requires
            i64::MIN <= self.x * factor <= i64::MAX,
            i64::MIN <= self.y * factor <= i64::MAX,
        ensures
            v == self.times(factor as int),
            v.x == self.x * factor,
            v.y == self.y * factor,
    {
        Vec2 { x: self.x * factor, y: self.y * factor }
    }

    /// Turns the vector a quarter turn counter-clockwise: `(x, y)` becomes `(-y, x)`.
    pub fn perp(self) -> (v: Vec2)
        requires
            self.y > i64::MIN,
        ensures
            v == self.quarter_turned(),
            v.x == -self.y,
            v.y == self.x,
    {
        Vec2 { x: -self.y, y: self.x }
    }

    pub fn distance_squared(&self, other: &Vec2) -> (r: i64)
        requires
            self.bounded(),
            other.bounded(),
        ensures
            r == self.dist_squared(*other),
            r >= 0,
    {
        let dx: i64 = self.x - other.x;
        let dy: i64 = self.y - other.y;
        proof {
            lemma_square_bound(dx as int, 2_000_000_000);
            lemma_square_bound(dy as int, 2_000_000_000);
        }
        dx * dx + dy * dy
    }

    /// The vector multiplied by `num / den`, each coordinate rounded toward zero.
    pub open spec fn scaled_by(self, num: int, den: int) -> Vec2 {
        Vec2 {
            x: trunc_div(self.x * num, den) as i64,
            y: trunc_div(self.y * num, den) as i64,
        }
    }

    /// Multiplies the vector by `num / den`. Each coordinate is rounded toward zero.
    pub fn scaled(self, num: i64, den: i64) -> (v: Vec2)
        requires
            den > 0,
            i64::MIN <= trunc_div(self.x * num, den as int) <= i64::MAX,
            i64::MIN <= trunc_div(self.y * num, den as int) <= i64::MAX,
        ensures
            v == self.scaled_by(num as int, den as int),
            v.x == trunc_div(self.x * num, den as int),
            v.y == trunc_div(self.y * num, den as int),
    {
        proof {
            lemma_mul_bound(self.x as int, num as int, 0x8000_0000_0000_0000, 0x8000_0000_0000_0000);
            lemma_mul_bound(self.y as int, num as int, 0x8000_0000_0000_0000, 0x8000_0000_0000_0000);
        }
        let px: i128 = (self.x as i128) * (num as i128);
        let py: i128 = (self.y as i128) * (num as i128);
        let qx: i128 = div_toward_zero(px, den as i128);
        let qy: i128 = div_toward_zero(py, den as i128);
        Vec2 { x: qx as i64, y: qy as i64 }
    }

    /// The vector of length one thousand that points the way `self` does, each
    /// coordinate rounded toward zero; the zero vector for the zero vector.
    pub open spec fn unit_dir(self) -> Vec2 {
        if self.x == 0 && self.y == 0 {
            Vec2 { x: 0, y: 0 }
        } else {
            let len = floor_sqrt(1_000_000 * self.norm_squared());
            Vec2 {
                x: trunc_div(self.x * 1_000_000, len) as i64,
                y: trunc_div(self.y * 1_000_000, len) as i64,
            }
        }
    }

    /// Scales the vector to length one thousand (one, in thousandths). The zero
    /// vector is returned unchanged.
    pub fn normalize_or_zero(self) -> (v: Vec2)
        requires
            self.within(2 * COORD_MAX),
        ensures
            v == self.unit_dir(),
            v.within(1000),
    {
        if self.x == 0 && self.y == 0 {
            return Vec2 { x: 0, y: 0 };
        }
        proof {
            lemma_square_bound(self.x as int, 2_000_000_000);
            lemma_square_bound(self.y as int, 2_000_000_000);
        }
        let n: u128 = 1_000_000 * self.length_squared();
        let len: u128 = isqrt(n);
        proof {
            assert(len > 0) by (nonlinear_arith)
                requires
                    n < (len + 1) * (len + 1),
                    n >= 1_000_000,
                    0 <= len,
            ;
            lemma_unit_dir_within(self);
        }
        let qx: i128 = div_toward_zero((self.x as i128) * 1_000_000, len as i128);
        let qy: i128 = div_toward_zero((self.y as i128) * 1_000_000, len as i128);
        Vec2 { x: qx as i64, y: qy as i64 }
    }
}

/// The root of a million times a sum of a square and something not negative
/// is at least a thousand times the root of that square.
proof fn lemma_root_covers(n: int, a: int, rest: int)
    requires
        n == 1_000_000 * (a * a + rest),
        rest >= 0,
    ensures
        n >= 0,
        floor_sqrt(n) >= 1000 * a,
        floor_sqrt(n) >= -1000 * a,
        floor_sqrt(n) >= 0,
{
    lemma_square_bound(a, if a >= 0 { a } else { -a });
    lemma_floor_sqrt_exists(n);
    let len = floor_sqrt(n);
    assert(len >= 1000 * a && len >= -1000 * a) by (nonlinear_arith)
        requires
            n < (len + 1) * (len + 1),
            n == 1_000_000 * (a * a + rest),
            0 <= len,
            0 <= rest,
    ;
}

/// A direction has no coordinate beyond a thousand either way.
pub proof fn lemma_unit_dir_within(v: Vec2)
    ensures
        v.unit_dir().within(1000),
{
    if !(v.x == 0 && v.y == 0) {
        let n = 1_000_000 * v.norm_squared();
        lemma_square_bound(v.x as int, 0x8000_0000_0000_0000);
        lemma_square_bound(v.y as int, 0x8000_0000_0000_0000);
        lemma_root_covers(n, v.x as int, v.y * v.y);
        lemma_root_covers(n, v.y as int, v.x * v.x);
        lemma_floor_sqrt_exists(n);
        let len = floor_sqrt(n);
        assert(len > 0) by (nonlinear_arith)
            requires
                n < (len + 1) * (len + 1),
                n >= 1_000_000,
                0 <= len,
        ;
        lemma_trunc_div_bound(v.x * 1_000_000, len, 1000);
        lemma_trunc_div_bound(v.y * 1_000_000, len, 1000);
    }
}

/// Scaling a vector by `num / den` keeps it within `m` of zero along both
/// axes if it lay within `limit` and `limit * num` does not exceed `m * den`.
pub proof fn lemma_scaled_within(v: Vec2, limit: int, num: int, den: int, m: int)
    requires
        v.within(limit),
        num >= 0,
        den > 0,
        m >= 0,
        limit * num <= m * den,
    ensures
        -m <= trunc_div(v.x * num, den) <= m,
        -m <= trunc_div(v.y * num, den) <= m,
{
    lemma_mul_bound(v.x as int, num, limit, num);
    lemma_mul_bound(v.y as int, num, limit, num);
    lemma_trunc_div_bound(v.x * num, den, m);
    lemma_trunc_div_bound(v.y * num, den, m);
}

/// One, in billionths: the scale of angles and of the directions made from
/// them.
pub const ONE: i64 = 1_000_000_000;

/// Half a turn, in billionths of a radian.
pub const HALF_TURN: i64 = 3_141_592_654;

/// A quarter of a turn, in billionths of a radian.
pub const QUARTER_TURN: i64 = 1_570_796_327;

/// An eighth of a turn, in billionths of a radian, rounded down.
pub const EIGHTH_TURN: i64 = 785_398_163;

/// A full turn, in billionths of a radian.
pub const TURN: i64 = 6_283_185_308;

/// `a / b` rounded to the nearest whole number, halves away from zero, for a
/// positive even `b`.
pub open spec fn round_div(a: int, b: int) -> int {
    if a >= 0 {
        (a + b / 2) / b
    } else {
        -((-a + b / 2) / b)
    }
}

/// One step of the series: `1 - x2 * t / k`, all in billionths.
pub open spec fn series_step(x2: int, t: int, k: int) -> int {
    ONE - ((x2 * t) / (ONE as int)) / k
}

/// The Taylor polynomial of the sine of degree thirteen about zero,
/// `x - x^3/3! + x^5/5! - ... + x^13/13!`, in billionths, for `x` in
/// billionths of a radian between zero and one radian. It is evaluated from
/// the innermost bracket outward, each product rounded down.
///
/// Over the eighth of a turn it is used on, the polynomial itself differs
/// from the sine by less than `x^15/15!`, a fraction of a billionth. That
/// figure is analysis and not proved here; what is proved is that the
/// directions made from it have length one.
pub open spec fn sin_series(x: int) -> int {
    let x2 = (x * x) / (ONE as int);
    let t6 = series_step(x2, ONE as int, 156);
    let t5 = series_step(x2, t6, 110);
    let t4 = series_step(x2, t5, 72);
    let t3 = series_step(x2, t4, 42);
    let t2 = series_step(x2, t3, 20);
    let t1 = series_step(x2, t2, 6);
    (x * t1) / (ONE as int)
}

/// The other coordinate of a vector of length one of which one coordinate is
/// `part`: the root of `1 - part^2`, rounded down, in billionths.
pub open spec fn complement(part: int) -> int {
    floor_sqrt(ONE * ONE - part * part)
}

/// The direction of an angle within the first quarter turn: the smaller of
/// its two coordinates from the series, the other as its complement.
pub open spec fn first_quarter(r: int) -> Vec2 {
    if r <= EIGHTH_TURN {
        let s = sin_series(r);
        Vec2 { x: complement(s) as i64, y: s as i64 }
    } else {
        let c = sin_series(QUARTER_TURN - r);
        Vec2 { x: c as i64, y: complement(c) as i64 }
    }
}

/// The angle brought into the first turn.
pub open spec fn wrap_angle(angle: int) -> int {
    angle % (TURN as int)
}

/// The direction of an angle, given in billionths of a radian from the
/// positive x axis counter-clockwise: a vector of length one, in billionths.
/// The angle is brought into the first turn, its direction within its
/// quarter turn is taken from `first_quarter`, and that is turned by the
/// quarter turns left out.
#[verifier::opaque]
pub open spec fn direction(angle: int) -> Vec2 {
    let a = wrap_angle(angle);
    let d = first_quarter(a % (QUARTER_TURN as int));
    let q = a / (QUARTER_TURN as int);
    if q == 0 {
        d
    } else if q == 1 {
        Vec2 { x: (-d.y) as i64, y: d.x }
    } else if q == 2 {
        Vec2 { x: (-d.x) as i64, y: (-d.y) as i64 }
    } else {
        Vec2 { x: d.y, y: (-d.x) as i64 }
    }
}

/// The point at distance `radius` from the origin in the direction of
/// `angle`, each coordinate rounded to the nearest sub-unit.
pub open spec fn polar(radius: int, angle: int) -> Vec2 {
    Vec2 {
        x: round_div(radius * direction(angle).x, ONE as int) as i64,
        y: round_div(radius * direction(angle).y, ONE as int) as i64,
    }
}

/// A step of the series stays between zero and one.
pub proof fn lemma_series_step_range(x2: int, t: int, k: int)
    requires
        0 <= x2 <= ONE,
        0 <= t <= ONE,
        k >= 1,
    ensures
        0 <= series_step(x2, t, k) <= ONE,
        0 <= (x2 * t) / (ONE as int) <= ONE,
{
    assert(0 <= x2 * t <= 1_000_000_000 * 1_000_000_000) by (nonlinear_arith)
        requires
            0 <= x2 <= 1_000_000_000,
            0 <= t <= 1_000_000_000,
    ;
    let p = (x2 * t) / (ONE as int);
    assert(0 <= p <= ONE);
    assert(0 <= p / k <= p) by (nonlinear_arith)
        requires
            p >= 0,
            k >= 1,
    ;
}

/// The series stays between zero and its argument.
pub proof fn lemma_sin_series_range(x: int)
    requires
        0 <= x <= ONE,
    ensures
        0 <= sin_series(x) <= x,
{
    assert(0 <= x * x <= 1_000_000_000 * 1_000_000_000) by (nonlinear_arith)
        requires
            0 <= x <= 1_000_000_000,
    ;
    let x2 = (x * x) / (ONE as int);
    let t6 = series_step(x2, ONE as int, 156);
    lemma_series_step_range(x2, ONE as int, 156);
    let t5 = series_step(x2, t6, 110);
    lemma_series_step_range(x2, t6, 110);
    let t4 = series_step(x2, t5, 72);
    lemma_series_step_range(x2, t5, 72);
    let t3 = series_step(x2, t4, 42);
    lemma_series_step_range(x2, t4, 42);
    let t2 = series_step(x2, t3, 20);
    lemma_series_step_range(x2, t3, 20);
    let t1 = series_step(x2, t2, 6);
    lemma_series_step_range(x2, t2, 6);
    assert(0 <= x * t1 <= x * 1_000_000_000) by (nonlinear_arith)
        requires
            0 <= x,
            0 <= t1 <= 1_000_000_000,
    ;
}

/// A coordinate between zero and one and its complement make a vector of
/// length one, short of it by less than the rounding of the root.
pub proof fn lemma_complement(part: int)
    requires
        0 <= part <= ONE,
    ensures
        0 <= complement(part) <= ONE,
        ONE * ONE - 2 * ONE - 1 < part * part + complement(part) * complement(part) <= ONE * ONE,
{
    let n = ONE * ONE - part * part;
    assert(0 <= part * part <= 1_000_000_000 * 1_000_000_000) by (nonlinear_arith)
        requires
            0 <= part <= 1_000_000_000,
    ;
    lemma_floor_sqrt_exists(n);
    let c = floor_sqrt(n);
    assert(c <= 1_000_000_000) by (nonlinear_arith)
        requires
            c * c <= 1_000_000_000 * 1_000_000_000,
            c >= 0,
    ;
    assert((c + 1) * (c + 1) == c * c + 2 * c + 1) by (nonlinear_arith);
}

/// A direction is a vector of length one: no coordinate beyond one either
/// way, and the square of its length short of one by less than the rounding.
pub proof fn lemma_direction_unit(angle: int)
    ensures
        direction(angle).within(ONE as int),
        ONE * ONE - 2 * ONE - 1 < direction(angle).norm_squared() <= ONE * ONE,
{
    reveal(direction);
    let a = wrap_angle(angle);
    let r = a % (QUARTER_TURN as int);
    let d = first_quarter(r);
    if r <= EIGHTH_TURN {
        lemma_sin_series_range(r);
        lemma_complement(sin_series(r));
    } else {
        lemma_sin_series_range(QUARTER_TURN - r);
        lemma_complement(sin_series(QUARTER_TURN - r));
    }
    assert(0 <= d.x <= ONE && 0 <= d.y <= ONE);
    assert(ONE * ONE - 2 * ONE - 1 < d.x * d.x + d.y * d.y <= ONE * ONE);
    assert((-d.x) * (-d.x) == d.x * d.x) by (nonlinear_arith);
    assert((-d.y) * (-d.y) == d.y * d.y) by (nonlinear_arith);
}

/// Rounding to the nearest moves a quotient by no more than a half, and
/// never beyond the bound of what is divided: if `a` lies within `m * b` of
/// zero, the quotient lies within `m` of zero.
pub proof fn lemma_round_div(a: int, b: int, m: int)
    requires
        b > 0,
        b % 2 == 0,
        m >= 0,
        -(m * b) <= a <= m * b,
    ensures
        -m <= round_div(a, b) <= m,
        -(b / 2) <= b * round_div(a, b) - a <= b / 2,
{
    let h = b / 2;
    if a >= 0 {
        let q = (a + h) / b;
        assert(b * q <= a + h < b * q + b && 0 <= q <= m) by (nonlinear_arith)
            requires
                q == (a + h) / b,
                b > 0,
                0 <= a <= m * b,
                b == 2 * h,
                m >= 0,
        ;
    } else {
        let q = (-a + h) / b;
        assert(b * q <= -a + h < b * q + b && 0 <= q <= m) by (nonlinear_arith)
            requires
                q == (-a + h) / b,
                b > 0,
                0 <= -a <= m * b,
                b == 2 * h,
                m >= 0,
        ;
        assert(b * (-q) == -(b * q)) by (nonlinear_arith);
    }
}

/// A point in polar form lies within `limit` of the origin along both axes
/// when its radius does.
pub proof fn lemma_polar_within(radius: int, angle: int, limit: int)
    requires
        -limit <= radius <= limit,
        limit <= i64::MAX,
    ensures
        polar(radius, angle).x == round_div(radius * direction(angle).x, ONE as int),
        polar(radius, angle).y == round_div(radius * direction(angle).y, ONE as int),
        polar(radius, angle).within(limit),
{
    lemma_direction_unit(angle);
    let c = direction(angle).x;
    let s = direction(angle).y;
    lemma_mul_bound(radius, c as int, limit, ONE as int);
    lemma_mul_bound(radius, s as int, limit, ONE as int);
    lemma_round_div(radius * c, ONE as int, limit);
    lemma_round_div(radius * s, ONE as int, limit);
}

/// The largest radius for which a point in polar form is proved to lie
/// within one sub-unit of its radius from the origin.
pub const RADIUS_EXACT_MAX: i64 = 50_000_000;

/// A point in polar form lies at its radius from the origin, to within one
/// sub-unit: whatever the angle, the rounding of the two coordinates and of
/// the direction moves it no farther in or out.
pub proof fn lemma_polar_radius(radius: int, angle: int)
    requires
        4 <= radius <= RADIUS_EXACT_MAX,
    ensures
        (radius - 1) * (radius - 1) <= polar(radius, angle).norm_squared() <= (radius + 1) * (
        radius + 1),
{
    let big = ONE as int;
    lemma_direction_unit(angle);
    lemma_polar_within(radius, angle, radius);
    let c = direction(angle).x as int;
    let s = direction(angle).y as int;
    let p = polar(radius, angle);
    let x = p.x as int;
    let y = p.y as int;
    let xx = radius * c;
    let yy = radius * s;
    let ex = big * x - xx;
    let ey = big * y - yy;
    let h = big / 2;
    assert(-h <= ex <= h && -h <= ey <= h);
    let ax: int = if xx >= 0 { xx } else { -xx };
    let ay: int = if yy >= 0 { yy } else { -yy };
    let t = ax + ay;
    // What the two roundings add to the square of the length.
    let cross = 2 * (xx * ex + yy * ey);
    assert(-(big * t) <= cross <= big * t) by (nonlinear_arith)
        requires
            cross == 2 * (xx * ex + yy * ey),
            -h <= ex <= h,
            -h <= ey <= h,
            big == 2 * h,
            t == ax + ay,
            ax >= 0,
            ay >= 0,
            ax == xx || ax == -xx,
            ay == yy || ay == -yy,
    ;
    let squares = ex * ex + ey * ey;
    assert(0 <= squares && 2 * squares <= big * big) by (nonlinear_arith)
        requires
            squares == ex * ex + ey * ey,
            -h <= ex <= h,
            -h <= ey <= h,
            big == 2 * h,
            h >= 0,
    ;
    let scaled = big * big * (x * x + y * y);
    assert(scaled == xx * xx + yy * yy + cross + squares) by (nonlinear_arith)
        requires
            scaled == big * big * (x * x + y * y),
            big * x == xx + ex,
            big * y == yy + ey,
            cross == 2 * (xx * ex + yy * ey),
            squares == ex * ex + ey * ey,
    ;
    let unit = c * c + s * s;
    assert(xx * xx + yy * yy == radius * radius * unit) by (nonlinear_arith)
        requires
            xx == radius * c,
            yy == radius * s,
            unit == c * c + s * s,
    ;
    let rr = radius * radius;
    assert(rr >= 0) by (nonlinear_arith)
        requires
            rr == radius * radius,
    ;
    assert(rr * (big * big - 2 * big - 1) <= rr * unit <= rr * (big * big)) by (nonlinear_arith)
        requires
            rr >= 0,
            big * big - 2 * big - 1 <= unit <= big * big,
    ;
    // The two coordinates together: no more than twice the radius, and their
    // square no more than twice the square of the radius.
    assert(t * t <= 2 * (xx * xx + yy * yy)) by (nonlinear_arith)
        requires
            t == ax + ay,
            ax == xx || ax == -xx,
            ay == yy || ay == -yy,
    ;
    assert(0 <= ax <= radius * big && 0 <= ay <= radius * big) by (nonlinear_arith)
        requires
            ax == radius * c || ax == -(radius * c),
            ay == radius * s || ay == -(radius * s),
            ax >= 0,
            ay >= 0,
            radius >= 0,
            -big <= c <= big,
            -big <= s <= big,
    ;
    // Upper bound.
    assert(big * big * ((radius + 1) * (radius + 1)) == rr * (big * big) + 2 * radius * (big
        * big) + big * big) by (nonlinear_arith)
        requires
            rr == radius * radius,
    ;
    assert(big * t <= 2 * radius * (big * big)) by (nonlinear_arith)
        requires
            0 <= t <= 2 * (radius * big),
            big > 0,
    ;
    assert(scaled <= big * big * ((radius + 1) * (radius + 1)));
    // Lower bound.
    let bound = 2 * radius * big - big - 3 * rr;
    assert(2 * bound >= 3 * (radius * big)) by (nonlinear_arith)
        requires
            bound == 2 * radius * big - big - 3 * rr,
            rr == radius * radius,
            4 <= radius <= 50_000_000,
            big == 1_000_000_000,
    ;
    assert(radius * big >= 0) by (nonlinear_arith)
        requires
            radius >= 0,
            big >= 0,
    ;
    assert(t <= bound) by (nonlinear_arith)
        requires
            t >= 0,
            t * t <= 2 * (rr * (big * big)),
            2 * bound >= 3 * (radius * big),
            radius * big >= 0,
            rr == radius * radius,
    ;
    assert(big * bound == 2 * radius * (big * big) - big * big - 3 * (rr * big))
        by (nonlinear_arith)
        requires
            bound == 2 * radius * big - big - 3 * rr,
    ;
    assert(big * t <= big * bound) by (nonlinear_arith)
        requires
            t <= bound,
            big > 0,
    ;
    assert(rr * (big * big - 2 * big - 1) == rr * (big * big) - 2 * (rr * big) - rr)
        by (nonlinear_arith);
    assert(big * big * ((radius - 1) * (radius - 1)) == rr * (big * big) - 2 * radius * (big
        * big) + big * big) by (nonlinear_arith)
        requires
            rr == radius * radius,
    ;
    assert(rr * big >= rr) by (nonlinear_arith)
        requires
            rr >= 0,
            big >= 1,
    ;
    assert(scaled >= big * big * ((radius - 1) * (radius - 1)));
    let low = (radius - 1) * (radius - 1);
    let high = (radius + 1) * (radius + 1);
    let n = x * x + y * y;
    assert(low <= n <= high) by (nonlinear_arith)
        requires
            big * big * low <= big * big * n <= big * big * high,
            big > 0,
    ;
}

/// Brings an angle into the first turn.
pub fn wrap(angle: i64) -> (r: i64)
    ensures
        r == wrap_angle(angle as int),
        0 <= r < TURN,
{
    if angle >= 0 {
        angle % TURN
    } else {
        let below: i64 = -(angle + 1);
        TURN - 1 - below % TURN
    }
}

/// One step of the series.
fn step(x2: i64, t: i64, k: i64) -> (r: i64)
    requires
        0 <= x2 <= ONE,
        0 <= t <= ONE,
        k >= 1,
    ensures
        r == series_step(x2 as int, t as int, k as int),
        0 <= r <= ONE,
{
    proof {
        lemma_series_step_range(x2 as int, t as int, k as int);
        assert(0 <= x2 * t <= 1_000_000_000 * 1_000_000_000) by (nonlinear_arith)
            requires
                0 <= x2 <= 1_000_000_000,
                0 <= t <= 1_000_000_000,
        ;
    }
    ONE - ((x2 * t) / ONE) / k
}

/// Evaluates the series for an angle between zero and one radian.
fn series(x: i64) -> (r: i64)
    requires
        0 <= x <= ONE,
    ensures
        r == sin_series(x as int),
        0 <= r <= x,
{
    proof {
        lemma_sin_series_range(x as int);
        assert(0 <= x * x <= 1_000_000_000 * 1_000_000_000) by (nonlinear_arith)
            requires
                0 <= x <= 1_000_000_000,
        ;
    }
    let x2: i64 = (x * x) / ONE;
    let t6: i64 = step(x2, ONE, 156);
    let t5: i64 = step(x2, t6, 110);
    let t4: i64 = step(x2, t5, 72);
    let t3: i64 = step(x2, t4, 42);
    let t2: i64 = step(x2, t3, 20);
    let t1: i64 = step(x2, t2, 6);
    assert(0 <= x * t1 <= 1_000_000_000 * 1_000_000_000) by (nonlinear_arith)
        requires
            0 <= x <= 1_000_000_000,
            0 <= t1 <= 1_000_000_000,
    ;
    (x * t1) / ONE
}

/// The other coordinate of a vector of length one.
fn complement_of(part: i64) -> (r: i64)
    requires
        0 <= part <= ONE,
    ensures
        r == complement(part as int),
        0 <= r <= ONE,
{
    proof {
        lemma_complement(part as int);
        assert(0 <= part * part <= 1_000_000_000 * 1_000_000_000) by (nonlinear_arith)
            requires
                0 <= part <= 1_000_000_000,
        ;
    }
    let n: i64 = ONE * ONE - part * part;
    let root: u128 = isqrt(n as u128);
    root as i64
}

/// The direction of an angle given in billionths of a radian: a vector of
/// length one, in billionths.
pub fn direction_of(angle: i64) -> (d: Vec2)
    ensures
        d == direction(angle as int),
        d.within(ONE as int),
{
    proof {
        reveal(direction);
        lemma_direction_unit(angle as int);
    }
    let a: i64 = wrap(angle);
    let r: i64 = a % QUARTER_TURN;
    let q: i64 = a / QUARTER_TURN;
    let first = if r <= EIGHTH_TURN {
        let s: i64 = series(r);
        Vec2 { x: complement_of(s), y: s }
    } else {
        let c: i64 = series(QUARTER_TURN - r);
        Vec2 { x: c, y: complement_of(c) }
    };
    if q == 0 {
        first
    } else if q == 1 {
        Vec2 { x: -first.y, y: first.x }
    } else if q == 2 {
        Vec2 { x: -first.x, y: -first.y }
    } else {
        Vec2 { x: first.y, y: -first.x }
    }
}

/// Divides `a` by a positive even `b`, rounding to the nearest whole number,
/// halves away from zero.
pub fn div_to_nearest(a: i128, b: i128) -> (r: i128)
    requires
        b > 0,
        -0x4000_0000_0000_0000_0000_0000_0000_0000 <= a <= 0x4000_0000_0000_0000_0000_0000_0000_0000,
        b <= 0x4000_0000_0000_0000_0000_0000_0000_0000,
    ensures
        r == round_div(a as int, b as int),
{
    if a >= 0 {
        (a + b / 2) / b
    } else {
        let m: i128 = -a + b / 2;
        assert(0 <= m / b <= m) by (nonlinear_arith)
            requires
                b > 0,
                m >= 0,
        ;
        -(m / b)
    }
}

/// The point at distance `radius` from the origin in the direction of
/// `angle`.
pub fn from_polar(radius: i64, angle: i64) -> (v: Vec2)
    requires
        radius > i64::MIN,
    ensures
        v == polar(radius as int, angle as int),
        v.within(if radius >= 0 { radius as int } else { -radius }),
{
    let d = direction_of(angle);
    proof {
        lemma_polar_within(
            radius as int,
            angle as int,
            if radius >= 0 { radius as int } else { -radius },
        );
        lemma_mul_bound(radius as int, d.x as int, 0x8000_0000_0000_0000, ONE as int);
        lemma_mul_bound(radius as int, d.y as int, 0x8000_0000_0000_0000, ONE as int);
    }
    let x: i128 = div_to_nearest((radius as i128) * (d.x as i128), ONE as i128);
    let y: i128 = div_to_nearest((radius as i128) * (d.y as i128), ONE as i128);
    Vec2 { x: x as i64, y: y as i64 }
}

} // verus!
