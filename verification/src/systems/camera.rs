//! The shake of the camera when the player is hurt.

use crate::events::DamageEvent;
use crate::math::{Vec2, COORD_MAX};
use crate::random::random_range;
use crate::resources::MAX_FRAME;
use crate::sequences::{lemma_take_ends, lemma_take_step};
use rand::rngs::StdRng;
use vstd::prelude::*;

verus! {

/// The most one blow adds to the trauma, in thousandths.
pub const MAX_JOLT: i64 = 1000;

/// A blow adds its damage divided by this to the trauma.
pub const DAMAGE_PER_TRAUMA: i64 = 60;

/// Trauma at or below this, in thousandths, is none.
pub const REST: i64 = 1;

/// The most trauma the shake is computed for, in thousandths.
pub const MAX_TRAUMA: i64 = 1_000_000;

/// How hard the camera shakes.
#[derive(Clone, Copy, Debug, PartialEq, Eq, Structural)]
pub struct ScreenShake {
    /// How shaken the camera is, in thousandths: it grows with each blow and
    /// fades with time.
    pub trauma: i64,
    /// How far the shake has moved the camera from where it rests.
    pub offset: Vec2,
    /// The farthest the shake moves the camera along either axis at a trauma
    /// of one, in sub-units.
    pub max_offset: i64,
    /// How much trauma fades in a second, in thousandths.
    pub decay_rate: i64,
}

impl Default for ScreenShake {
    fn default() -> (s: ScreenShake)
        ensures
            s == (ScreenShake {
                trauma: 0,
                offset: Vec2 { x: 0, y: 0 },
                max_offset: 20_000,
                decay_rate: 1500,
            }),
            s.valid(),
    {
        ScreenShake { trauma: 0, offset: Vec2::zero(), max_offset: 20_000, decay_rate: 1500 }
    }
}

/// Where the camera rests.
#[derive(Clone, Copy, Debug, PartialEq, Eq, Structural)]
pub struct CameraTarget {
    pub position: Vec2,
}

/// What one blow adds to the trauma: a sixtieth of its damage, and no more
/// than one.
pub open spec fn jolt(event: DamageEvent) -> int {
    let share = (event.source_type.spec_damage() as int * 1000) / (DAMAGE_PER_TRAUMA as int);
    if share > MAX_JOLT {
        MAX_JOLT as int
    } else {
        share
    }
}

/// What the blows of `events` add to the trauma together.
pub open spec fn jolts(events: Seq<DamageEvent>) -> int
    decreases events.len(),
{
    if events.len() == 0 {
        0
    } else {
        jolts(events.drop_last()) + jolt(events.last())
    }
}

impl ScreenShake {
    /// Trauma, reach and decay are not negative and within the range the
    /// arithmetic can follow.
    pub open spec fn valid(self) -> bool {
        &&& 0 <= self.trauma <= MAX_TRAUMA
        &&& 0 <= self.max_offset <= COORD_MAX
        &&& 0 <= self.decay_rate <= COORD_MAX
    }

    /// Tells whether trauma, reach and decay are within their range.
    pub fn is_valid(&self) -> (r: bool)
        ensures
            r == self.valid(),
    {
        0 <= self.trauma && self.trauma <= MAX_TRAUMA && 0 <= self.max_offset && self.max_offset
            <= COORD_MAX && 0 <= self.decay_rate && self.decay_rate <= COORD_MAX
    }

    /// The farthest the camera is moved along either axis: the reach times
    /// the square of the trauma, rounded down.
    pub open spec fn magnitude(self) -> int {
        (self.trauma * self.trauma * self.max_offset) / 1_000_000
    }

    /// The trauma left after `delta` microseconds: never less than none.
    pub open spec fn faded(self, delta: int) -> int {
        let loss = (self.decay_rate * delta) / 1_000_000;
        if loss >= self.trauma {
            0
        } else {
            self.trauma - loss
        }
    }

    /// Whether the camera shakes at all.
    pub open spec fn shaking(self) -> bool {
        self.trauma > REST
    }

    /// The shake after a frame of `delta` microseconds in which the camera
    /// was moved by `offset`: the trauma has faded. A camera that does not
    /// shake comes to rest.
    pub open spec fn after_frame(self, delta: int, offset: Vec2) -> ScreenShake {
        if self.shaking() {
            ScreenShake { trauma: self.faded(delta) as i64, offset, ..self }
        } else {
            ScreenShake { trauma: 0, offset: Vec2 { x: 0, y: 0 }, ..self }
        }
    }

    /// `offset` is one the shake may move the camera by: less than the
    /// magnitude either way along both axes, and none where the magnitude is
    /// none.
    pub open spec fn offset_allowed(self, offset: Vec2) -> bool {
        let m = self.magnitude();
        if m == 0 {
            offset == (Vec2 { x: 0, y: 0 })
        } else {
            -m <= offset.x < m && -m <= offset.y < m
        }
    }
}

/// Adds the blows of one frame to the trauma.
pub fn trigger_screen_shake(events: &Vec<DamageEvent>, shaker: &mut ScreenShake)
    requires
        old(shaker).trauma + jolts(events@) <= i64::MAX,
        old(shaker).trauma >= 0,
    ensures
        *final(shaker) == (ScreenShake {
            trauma: (old(shaker).trauma + jolts(events@)) as i64,
            ..*old(shaker)
        }),
{
    let mut i: usize = 0;
    proof {
        lemma_take_ends(events@);
        lemma_jolts_not_negative(events@);
    }
    while i < events.len()
        invariant
            i <= events.len(),
            old(shaker).trauma >= 0,
            old(shaker).trauma + jolts(events@) <= i64::MAX,
            0 <= jolts(events@.take(i as int)) <= jolts(events@),
            *shaker == (ScreenShake {
                trauma: (old(shaker).trauma + jolts(events@.take(i as int))) as i64,
                ..*old(shaker)
            }),
        decreases events.len() - i,
    {
        let event: DamageEvent = events[i];
        proof {
            lemma_take_step(events@, i as int);
            lemma_jolts_grow(events@, i as int + 1);
        }
        let share: i64 = (event.source_type.damage() as i64 * 1000) / DAMAGE_PER_TRAUMA;
        let added: i64 = if share > MAX_JOLT {
            MAX_JOLT
        } else {
            share
        };
        shaker.trauma = shaker.trauma + added;
        i += 1;
    }
}

/// The first `n` blows add no more to the trauma than all of them, and
/// nothing is ever taken away.
pub proof fn lemma_jolts_grow(events: Seq<DamageEvent>, n: int)
    requires
        0 <= n <= events.len(),
    ensures
        0 <= jolts(events.take(n)) <= jolts(events),
    decreases events.len() - n,
{
    if n == events.len() {
        lemma_take_ends(events);
        lemma_jolts_not_negative(events);
    } else {
        lemma_jolts_grow(events, n + 1);
        lemma_take_step(events, n);
        lemma_jolts_not_negative(events.take(n));
    }
}

/// No blow takes trauma away.
pub proof fn lemma_jolts_not_negative(events: Seq<DamageEvent>)
    ensures
        jolts(events) >= 0,
    decreases events.len(),
{
    if events.len() > 0 {
        lemma_jolts_not_negative(events.drop_last());
    }
}

/// Lets the trauma fade over a frame of `delta` microseconds, the camera
/// having been moved by `offset`.
pub fn settle(shaker: &mut ScreenShake, delta: u64, offset: Vec2)
    requires
        old(shaker).valid(),
        delta <= MAX_FRAME,
    ensures
        *final(shaker) == old(shaker).after_frame(delta as int, offset),
        final(shaker).valid(),
{
    if shaker.trauma > REST {
        assert(0 <= shaker.decay_rate * delta <= 1_000_000_000 * 1_000_000_000)
            by (nonlinear_arith)
            requires
                0 <= shaker.decay_rate <= 1_000_000_000,
                0 <= delta <= 1_000_000_000,
        ;
        let loss: i64 = (shaker.decay_rate * (delta as i64)) / 1_000_000;
        shaker.offset = offset;
        shaker.trauma = if loss >= shaker.trauma {
            0
        } else {
            shaker.trauma - loss
        };
    } else {
        shaker.offset = Vec2::zero();
        shaker.trauma = 0;
    }
}

/// Computes the farthest the camera is moved along either axis.
pub fn shake_magnitude(shaker: &ScreenShake) -> (m: i64)
    requires
        shaker.valid(),
    ensures
        m == shaker.magnitude(),
        m >= 0,
{
    assert(0 <= shaker.trauma * shaker.trauma <= 1_000_000 * 1_000_000) by (nonlinear_arith)
        requires
            0 <= shaker.trauma <= 1_000_000,
    ;
    let squared: i64 = shaker.trauma * shaker.trauma;
    assert(0 <= squared * shaker.max_offset <= 1_000_000_000_000 * 1_000_000_000)
        by (nonlinear_arith)
        requires
            0 <= squared <= 1_000_000_000_000,
            0 <= shaker.max_offset <= 1_000_000_000,
    ;
    let m: i128 = ((squared as i128) * (shaker.max_offset as i128)) / 1_000_000;
    m as i64
}

/// Moves the camera for one frame of `delta` microseconds: while it shakes,
/// by a random offset within the magnitude, and the trauma fades.
pub fn update_screen_shake(shaker: &mut ScreenShake, delta: u64, rng: &mut StdRng)
    requires
        old(shaker).valid(),
        delta <= MAX_FRAME,
    ensures
        final(shaker).valid(),
        exists|offset: Vec2|
            old(shaker).offset_allowed(offset) && *final(shaker) == #[trigger] old(
                shaker,
            ).after_frame(delta as int, offset),
{
    let magnitude: i64 = shake_magnitude(shaker);
    let offset = if shaker.trauma > REST && magnitude > 0 {
        Vec2::new(
            random_range(rng, -magnitude, magnitude),
            random_range(rng, -magnitude, magnitude),
        )
    } else {
        Vec2::zero()
    };
    let ghost before = *shaker;
    settle(shaker, delta, offset);
    proof {
        let still = Vec2 { x: 0, y: 0 };
        if before.shaking() {
            assert(before.offset_allowed(offset));
        } else {
            assert(before.offset_allowed(still));
            assert(*shaker == before.after_frame(delta as int, still));
        }
    }
}

/// Where the camera is: where it rests, moved by the shake.
pub fn apply_camera_position(target: &CameraTarget, shaker: &ScreenShake) -> (position: Vec2)
    requires
        i64::MIN <= target.position.x + shaker.offset.x <= i64::MAX,
        i64::MIN <= target.position.y + shaker.offset.y <= i64::MAX,
    ensures
        position == target.position.sum(shaker.offset),
{
    target.position.plus(shaker.offset)
}

} // verus!
