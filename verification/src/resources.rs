//! State that exists once per game: the score, the spawn timer, the
//! difficulty curve and the tuning constants.
//!
//! Times are whole microseconds, speeds sub-units per second.

use crate::math::{lemma_mul_bound, COORD_MAX};
use vstd::prelude::*;

verus! {

/// Microseconds in a second.
pub const SECOND: u64 = 1_000_000;

/// The longest frame that movement is computed for, in microseconds.
pub const MAX_FRAME: u64 = 1_000_000_000;

/// The screens the game moves through: loading, then the menu, play, the
/// game-over screen, and the menu again.
#[derive(Clone, Copy, Debug, PartialEq, Eq, Hash, Structural)]
pub enum AppState {
    /// Assets are being loaded.
    Loading,
    /// The start screen.
    Menu,
    /// Active play.
    Playing,
    /// Play is halted.
    Paused,
    /// The game-over screen.
    GameOver,
}

impl Default for AppState {
    fn default() -> (s: AppState)
        ensures
            s == AppState::Loading,
    {
        AppState::Loading
    }
}

/// The ships a player can fly.
#[derive(Clone, Copy, Debug, PartialEq, Eq, Structural)]
pub enum ShipType {
    SimpleShip,
}

impl Default for ShipType {
    fn default() -> (s: ShipType)
        ensures
            s == ShipType::SimpleShip,
    {
        ShipType::SimpleShip
    }
}

/// The score and whether the game has ended.
#[derive(Clone, Copy, Debug, PartialEq, Eq, Structural)]
pub struct GameData {
    pub score: u32,
    pub is_game_over: bool,
}

impl Default for GameData {
    fn default() -> (g: GameData)
        ensures
            g.score == 0,
            !g.is_game_over,
    {
        GameData { score: 0, is_game_over: false }
    }
}

/// The score to show.
pub fn update_score_display(game: &GameData) -> (shown: u32)
    ensures
        shown == game.score,
{
    game.score
}

/// A timer that fires each time its duration has passed.
#[derive(Clone, Copy, Debug, PartialEq, Eq, Structural)]
pub struct Timer {
    /// Time run since the timer last fired or was reset.
    pub elapsed: u64,
    /// Time between two firings.
    pub duration: u64,
    /// Whether the last tick made the timer fire.
    pub finished: bool,
}

impl Timer {
    /// The timer after time `delta` has passed: it fires if the time run
    /// reaches the duration, and keeps what is left over of it.
    pub open spec fn ticked(self, delta: int) -> Timer {
        let total = self.elapsed + delta;
        if total >= self.duration {
            Timer {
                elapsed: if self.duration == 0 {
                    0
                } else {
                    (total % (self.duration as int)) as u64
                },
                duration: self.duration,
                finished: true,
            }
        } else {
            Timer { elapsed: total as u64, duration: self.duration, finished: false }
        }
    }

    /// A timer that has not run yet.
    pub fn new(duration: u64) -> (t: Timer)
        ensures
            t == (Timer { elapsed: 0, duration, finished: false }),
    {
        Timer { elapsed: 0, duration, finished: false }
    }

    /// Lets time `delta` pass.
    pub fn tick(&mut self, delta: u64)
        requires
            old(self).elapsed + delta <= u64::MAX,
        ensures
            *final(self) == old(self).ticked(delta as int),
    {
        let total: u64 = self.elapsed + delta;
        if total >= self.duration {
            self.elapsed = if self.duration == 0 {
                0
            } else {
                total % self.duration
            };
            self.finished = true;
        } else {
            self.elapsed = total;
            self.finished = false;
        }
    }

    /// Whether the last tick made the timer fire.
    pub fn just_finished(&self) -> (r: bool)
        ensures
            r == self.finished,
    {
        self.finished
    }

    pub fn set_duration(&mut self, duration: u64)
        ensures
            *final(self) == (Timer { duration, ..*old(self) }),
    {
        self.duration = duration;
    }

    /// Starts the timer over.
    pub fn reset(&mut self)
        ensures
            *final(self) == (Timer { elapsed: 0, duration: old(self).duration, finished: false }),
    {
        self.elapsed = 0;
        self.finished = false;
    }
}

/// The timer that paces the spawning of asteroids, and the time played so far.
#[derive(Clone, Copy, Debug, PartialEq, Eq, Structural)]
pub struct SpawnTimer {
    pub timer: Timer,
    /// Time played, all ticks added up.
    pub elapsed_time: u64,
}

impl Default for SpawnTimer {
    /// The first asteroid comes after a second and a half.
    fn default() -> (t: SpawnTimer)
        ensures
            t.timer == (Timer { elapsed: 0, duration: 1_500_000, finished: false }),
            t.elapsed_time == 0,
    {
        SpawnTimer { timer: Timer::new(1_500_000), elapsed_time: 0 }
    }
}

/// The difficulty curve: how the time between two asteroids shrinks as the
/// game goes on.
#[derive(Clone, Copy, Debug, PartialEq, Eq, Structural)]
pub struct DifficultyConfig {
    /// The interval at the start of the game.
    pub initial_interval: u64,
    /// The interval the curve approaches.
    pub min_interval: u64,
    /// How fast it gets there, in thousandths per second played; lower is
    /// more gradual.
    pub curve_steepness: u64,
}

impl Default for DifficultyConfig {
    fn default() -> (c: DifficultyConfig)
        ensures
            c.initial_interval == 1_500_000,
            c.min_interval == 100_000,
            c.curve_steepness == 100,
    {
        DifficultyConfig { initial_interval: 1_500_000, min_interval: 100_000, curve_steepness: 100 }
    }
}

impl DifficultyConfig {
    /// The curve starts at or above the interval it approaches.
    pub open spec fn valid(self) -> bool {
        self.min_interval <= self.initial_interval
    }

    /// Tells whether the curve starts at or above the interval it approaches.
    pub fn is_valid(&self) -> (r: bool)
        ensures
            r == self.valid(),
    {
        self.min_interval <= self.initial_interval
    }

    /// Numerator of the exact excess of the interval over the minimum.
    pub open spec fn excess_numerator(self) -> int {
        (self.initial_interval - self.min_interval) * 1_000_000_000
    }

    /// Denominator of that excess after `elapsed` microseconds:
    /// `1 + steepness * elapsed`, times a thousand million.
    pub open spec fn excess_denominator(self, elapsed: int) -> int {
        1_000_000_000 + self.curve_steepness * elapsed
    }

    /// The spawn interval after `elapsed` microseconds of play:
    /// `min + (initial - min) / (1 + steepness * elapsed)`, rounded down to a
    /// whole microsecond.
    pub open spec fn interval(self, elapsed: int) -> int {
        self.min_interval + self.excess_numerator() / self.excess_denominator(elapsed)
    }

    /// Computes the spawn interval after `elapsed_time` microseconds of play.
    pub fn calculate_interval(&self, elapsed_time: u64) -> (r: u64)
        requires
            self.valid(),
        ensures
            r == self.interval(elapsed_time as int),
            self.min_interval <= r <= self.initial_interval,
    {
        proof {
            lemma_mul_bound(
                self.curve_steepness as int,
                elapsed_time as int,
                0xFFFF_FFFF_FFFF_FFFF,
                0xFFFF_FFFF_FFFF_FFFF,
            );
            self.lemma_excess_parts(elapsed_time as int, elapsed_time as int);
            self.lemma_interval_bounds(elapsed_time as int);
        }
        let span: u128 = (self.initial_interval - self.min_interval) as u128;
        let numerator: u128 = span * 1_000_000_000;
        let denominator: u128 = 1_000_000_000 + (self.curve_steepness as u128) * (
        elapsed_time as u128);
        let excess: u128 = numerator / denominator;
        self.min_interval + (excess as u64)
    }

    /// The curve starts at the initial interval.
    pub proof fn lemma_interval_at_start(self)
        requires
            self.valid(),
        ensures
            self.interval(0) == self.initial_interval,
    {
        assert(self.curve_steepness * 0 == 0);
        assert(((self.initial_interval - self.min_interval) * 1_000_000_000) / 1_000_000_000
            == self.initial_interval - self.min_interval);
    }

    /// The parts of the excess: the numerator is not negative, and the
    /// denominator is at least one and grows with the time played.
    proof fn lemma_excess_parts(self, earlier: int, later: int)
        requires
            self.valid(),
            0 <= earlier <= later,
        ensures
            self.excess_numerator() >= 0,
            self.min_interval < self.initial_interval ==> self.excess_numerator() > 0,
            1_000_000_000 <= self.excess_denominator(earlier) <= self.excess_denominator(later),
            self.curve_steepness > 0 && earlier < later ==> self.excess_denominator(earlier)
                < self.excess_denominator(later),
    {
        let span = self.initial_interval - self.min_interval;
        let steepness = self.curve_steepness as int;
        assert(span * 1_000_000_000 >= 0 && (span > 0 ==> span * 1_000_000_000 > 0));
        assert(0 <= steepness * earlier <= steepness * later && (steepness > 0 && earlier < later
            ==> steepness * earlier < steepness * later)) by (nonlinear_arith)
            requires
                steepness >= 0,
                0 <= earlier <= later,
        ;
    }

    /// The interval never leaves the band between the minimum and the
    /// initial interval.
    pub proof fn lemma_interval_bounds(self, elapsed: int)
        requires
            self.valid(),
            elapsed >= 0,
        ensures
            self.min_interval <= self.interval(elapsed) <= self.initial_interval,
    {
        let span = self.initial_interval - self.min_interval;
        let n = self.excess_numerator();
        let d = self.excess_denominator(elapsed);
        self.lemma_excess_parts(elapsed, elapsed);
        assert(0 <= n / d <= span) by (nonlinear_arith)
            requires
                n == span * 1_000_000_000,
                d >= 1_000_000_000,
                span >= 0,
        ;
    }

    /// The longer the game has run, the shorter the interval, or the same
    /// where both round to one microsecond.
    pub proof fn lemma_interval_decreasing(self, earlier: int, later: int)
        requires
            self.valid(),
            0 <= earlier <= later,
        ensures
            self.interval(later) <= self.interval(earlier),
    {
        self.lemma_excess_parts(earlier, later);
        vstd::arithmetic::div_mod::lemma_div_is_ordered_by_denominator(
            self.excess_numerator(),
            self.excess_denominator(earlier),
            self.excess_denominator(later),
        );
    }

    /// After rounding, too, the interval is strictly shorter later on wherever
    /// the exact curve has fallen by a microsecond or more in between: that
    /// is, where `n / d1 - n / d2 >= 1` for the numerator `n` and the two
    /// denominators `d1` and `d2` of the excess.
    pub proof fn lemma_interval_strictly_decreasing(self, earlier: int, later: int)
        requires
            self.valid(),
            0 <= earlier < later,
            self.excess_numerator() * (self.excess_denominator(later) - self.excess_denominator(
                earlier,
            )) >= self.excess_denominator(earlier) * self.excess_denominator(later),
        ensures
            self.interval(later) < self.interval(earlier),
    {
        let n = self.excess_numerator();
        let d1 = self.excess_denominator(earlier);
        let d2 = self.excess_denominator(later);
        self.lemma_excess_parts(earlier, later);
        let q1 = n / d1;
        let q2 = n / d2;
        assert(q1 * d1 <= n < (q1 + 1) * d1 && q2 * d2 <= n && q1 >= 0 && q2 >= 0)
            by (nonlinear_arith)
            requires
                q1 == n / d1,
                q2 == n / d2,
                d1 > 0,
                d2 > 0,
                n >= 0,
        ;
        if q2 >= q1 {
            assert(q1 * d2 <= n) by (nonlinear_arith)
                requires
                    q2 * d2 <= n,
                    q2 >= q1,
                    d2 > 0,
            ;
            assert(n * d2 < n * d1 + d1 * d2) by (nonlinear_arith)
                requires
                    n < (q1 + 1) * d1,
                    q1 * d2 <= n,
                    d1 > 0,
                    d2 > 0,
                    q1 >= 0,
            ;
            assert(n * (d2 - d1) == n * d2 - n * d1) by (nonlinear_arith);
            assert(false);
        }
    }

    /// Before rounding, the curve is strictly decreasing and stays above the
    /// minimum: of the exact excess over the minimum, a fraction, the later
    /// one is the smaller, and neither is zero. This holds wherever the curve
    /// has room to fall and a slope to fall with.
    pub proof fn lemma_exact_curve_strictly_decreasing(self, earlier: int, later: int)
        requires
            self.min_interval < self.initial_interval,
            self.curve_steepness > 0,
            0 <= earlier < later,
        ensures
            self.excess_denominator(earlier) > 0,
            self.excess_denominator(later) > 0,
            self.excess_numerator() > 0,
            // numerator / denominator(later) < numerator / denominator(earlier)
            self.excess_numerator() * self.excess_denominator(earlier) < self.excess_numerator()
                * self.excess_denominator(later),
    {
        let n = self.excess_numerator();
        let d1 = self.excess_denominator(earlier);
        let d2 = self.excess_denominator(later);
        self.lemma_excess_parts(earlier, later);
        assert(n * d1 < n * d2) by (nonlinear_arith)
            requires
                n > 0,
                d1 < d2,
        ;
    }
}

/// Where asteroids appear and how fast they fall.
#[derive(Clone, Copy, Debug, PartialEq, Eq, Structural)]
pub struct AsteroidSpawnConfig {
    /// Slowest fall, in sub-units per second.
    pub min_speed: i64,
    /// Fastest fall, in sub-units per second.
    pub max_speed: i64,
    /// Height at which asteroids appear.
    pub spawn_y: i64,
    /// Asteroids appear no farther than this to either side of the middle.
    pub spawn_x_range: i64,
}

impl Default for AsteroidSpawnConfig {
    fn default() -> (c: AsteroidSpawnConfig)
        ensures
            c.min_speed == 100_000,
            c.max_speed == 250_000,
            c.spawn_x_range == 370_000,
            c.spawn_y == 320_000,
            c.valid(),
    {
        AsteroidSpawnConfig {
            min_speed: 100_000,
            max_speed: 250_000,
            spawn_x_range: 370_000,
            spawn_y: 320_000,
        }
    }
}

impl AsteroidSpawnConfig {
    /// There is a range of speeds and of places to draw from, and all values
    /// are within the coordinate range.
    pub open spec fn valid(self) -> bool {
        &&& -COORD_MAX <= self.min_speed < self.max_speed <= COORD_MAX
        &&& 0 < self.spawn_x_range <= COORD_MAX
        &&& -COORD_MAX <= self.spawn_y <= COORD_MAX
    }

    /// Tells whether there is a range of speeds and of places to draw from,
    /// with all values within the coordinate range.
    pub fn is_valid(&self) -> (r: bool)
        ensures
            r == self.valid(),
    {
        -COORD_MAX <= self.min_speed && self.min_speed < self.max_speed && self.max_speed
            <= COORD_MAX && 0 < self.spawn_x_range && self.spawn_x_range <= COORD_MAX && -COORD_MAX
            <= self.spawn_y && self.spawn_y <= COORD_MAX
    }
}

/// How the ship and its projectiles move.
#[derive(Clone, Copy, Debug, PartialEq, Eq, Structural)]
pub struct PhysicsConfig {
    /// Force of one main thruster.
    pub thruster_force: i64,
    /// Torque of one main thruster.
    pub rotation_torque: i64,
    /// Force of the reverse thrusters.
    pub reverse_thrust_force: i64,
    /// Linear damping, in thousandths.
    pub drag: i64,
    /// Angular damping, in thousandths.
    pub angular_drag: i64,
    /// Speed of a projectile, in sub-units per second.
    pub projectile_speed: i64,
    /// Time a projectile lives, in microseconds.
    pub projectile_lifetime: u64,
}

impl Default for PhysicsConfig {
    fn default() -> (c: PhysicsConfig)
        ensures
            c.thruster_force == 3_000_000,
            c.rotation_torque == 30_000_000,
            c.reverse_thrust_force == 3_000_000,
            c.drag == 1000,
            c.angular_drag == 1000,
            c.projectile_speed == 500_000,
            c.projectile_lifetime == 2_000_000,
    {
        PhysicsConfig {
            thruster_force: 3_000_000,
            rotation_torque: 30_000_000,
            reverse_thrust_force: 3_000_000,
            drag: 1000,
            angular_drag: 1000,
            projectile_speed: 500_000,
            projectile_lifetime: 2_000_000,
        }
    }
}

} // verus!
