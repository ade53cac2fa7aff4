//! Cosmetic particles: points with a velocity and a randomized expiry.
//! Particles never collide with anything.

use vstd::prelude::*;
use crate::constants::{
    MAX_DT, MAX_FIELD, MAX_NOW, MAX_SPEED, PARTICLE_MAX_LIFESPAN, PARTICLE_MIN_LIFESPAN,
    EXPLOSION_COUNT_MAX, EXPLOSION_COUNT_MIN, EXPLOSION_VEL_MAX, EXPLOSION_VEL_MIN,
};
use crate::mathx;
use crate::rng;
use crate::trig;
use crate::wrap;

verus! {

/// Whether `(vx, vy)` is a random scatter: the polar components of some
/// speed in `[lo, hi)` along some angle.
pub open spec fn scattered_velocity(vx: i64, vy: i64, lo: int, hi: int) -> bool {
    exists|speed: int, ang: int|
        lo <= speed < hi && 0 <= ang < 3600 && vx == #[trigger] trig::polar_x(speed, ang) && vy
            == trig::polar_y(speed, ang)
}

#[derive(Clone, Copy)]
pub struct Particle {
    pub x: i64,
    pub y: i64,
    pub vx: i64,
    pub vy: i64,
    /// The instant this particle expires, in ms.
    pub death: u64,
}

/// A particle is well formed on a `w` by `h` field when it sits on the field
/// and respects the speed cap.
pub open spec fn particle_wf(p: Particle, w: int, h: int) -> bool {
    &&& 0 <= p.x <= w
    &&& 0 <= p.y <= h
    &&& -MAX_SPEED <= p.vx <= MAX_SPEED
    &&& -MAX_SPEED <= p.vy <= MAX_SPEED
}

impl Particle {
    /// A particle at `(x, y)` with the given velocity (clamped to the speed
    /// cap) and a lifetime drawn from the configured range.
    pub fn new(x: i64, y: i64, vx: i64, vy: i64, now: u64) -> (p: Particle)
        requires
            now <= MAX_NOW,
        ensures
            p.x == x,
            p.y == y,
            p.vx == mathx::clamp_val(vx as int, -MAX_SPEED as int, MAX_SPEED as int),
            p.vy == mathx::clamp_val(vy as int, -MAX_SPEED as int, MAX_SPEED as int),
            now + PARTICLE_MIN_LIFESPAN <= p.death < now + PARTICLE_MAX_LIFESPAN,
    {
        let life = rng::rand_u64(PARTICLE_MIN_LIFESPAN, PARTICLE_MAX_LIFESPAN);
        Particle {
            x,
            y,
            vx: mathx::clamp_i64(vx, -MAX_SPEED, MAX_SPEED),
            vy: mathx::clamp_i64(vy, -MAX_SPEED, MAX_SPEED),
            death: now + life,
        }
    }

    /// A burst of particles flying out of `(x, y)` in random directions, as
    /// left behind by a destroyed asteroid or alien.
    pub fn generate_explosion_particles(x: i64, y: i64, now: u64) -> (v: Vec<Particle>)
        requires
            now <= MAX_NOW,
        ensures
            EXPLOSION_COUNT_MIN <= v@.len() < EXPLOSION_COUNT_MAX,
            forall|i: int|
                0 <= i < v@.len() ==> (#[trigger] v@[i]).x == x && v@[i].y == y && -MAX_SPEED
                    <= v@[i].vx <= MAX_SPEED && -MAX_SPEED <= v@[i].vy <= MAX_SPEED && now
                    + PARTICLE_MIN_LIFESPAN <= v@[i].death < now + PARTICLE_MAX_LIFESPAN
                    && scattered_velocity(
                    v@[i].vx,
                    v@[i].vy,
                    EXPLOSION_VEL_MIN as int,
                    EXPLOSION_VEL_MAX as int,
                ),
    {
        let count = rng::rand_u64(EXPLOSION_COUNT_MIN, EXPLOSION_COUNT_MAX);
        let mut v: Vec<Particle> = Vec::new();
        let mut i: u64 = 0;
        while i < count
            invariant
                now <= MAX_NOW,
                EXPLOSION_COUNT_MIN <= count < EXPLOSION_COUNT_MAX,
                0 <= i <= count,
                v@.len() == i,
                forall|j: int|
                    0 <= j < v@.len() ==> (#[trigger] v@[j]).x == x && v@[j].y == y && -MAX_SPEED
                        <= v@[j].vx <= MAX_SPEED && -MAX_SPEED <= v@[j].vy <= MAX_SPEED && now
                        + PARTICLE_MIN_LIFESPAN <= v@[j].death < now + PARTICLE_MAX_LIFESPAN
                        && scattered_velocity(
                        v@[j].vx,
                        v@[j].vy,
                        EXPLOSION_VEL_MIN as int,
                        EXPLOSION_VEL_MAX as int,
                    ),
            decreases count - i,
        {
            let a = rng::rand_angle();
            let vel = rng::rand_u64(EXPLOSION_VEL_MIN, EXPLOSION_VEL_MAX) as i64;
            let c = trig::cos_fp(a);
            let s = trig::sin_fp(a);
            proof {
                mathx::lemma_mul_bounds(vel as int, c as int, 300, 1000);
                mathx::lemma_mul_bounds(vel as int, s as int, 300, 1000);
            }
            let vx = mathx::div_i128(vel as i128 * c as i128, 1000) as i64;
            let vy = mathx::div_i128(vel as i128 * s as i128, 1000) as i64;
            v.push(Particle::new(x, y, vx, vy, now));
            proof {
                assert(v@.last().vx == trig::polar_x(vel as int, a as int) && v@.last().vy
                    == trig::polar_y(vel as int, a as int));
                assert(scattered_velocity(
                    v@.last().vx,
                    v@.last().vy,
                    EXPLOSION_VEL_MIN as int,
                    EXPLOSION_VEL_MAX as int,
                ));
            }
            i += 1;
        }
        v
    }

    /// Advance by `dt` ms and wrap back onto the field.
    pub fn tick(&mut self, dt: u64, w: i64, h: i64)
        requires
            0 < dt <= MAX_DT,
            1 <= w <= MAX_FIELD,
            1 <= h <= MAX_FIELD,
            particle_wf(*old(self), w as int, h as int),
        ensures
            final(self).x == wrap::wrap_val(old(self).x + old(self).vx * dt, w as int),
            final(self).y == wrap::wrap_val(old(self).y + old(self).vy * dt, h as int),
            final(self).vx == old(self).vx,
            final(self).vy == old(self).vy,
            final(self).death == old(self).death,
            particle_wf(*final(self), w as int, h as int),
    {
        proof {
            mathx::lemma_mul_bounds(self.vx as int, dt as int, MAX_SPEED as int, MAX_DT as int);
            mathx::lemma_mul_bounds(self.vy as int, dt as int, MAX_SPEED as int, MAX_DT as int);
        }
        self.x = wrap::wrap_coord(self.x + self.vx * dt as i64, w);
        self.y = wrap::wrap_coord(self.y + self.vy * dt as i64, h);
    }

    /// Whether the particle survives the instant `now`.
    pub fn is_alive(&self, now: u64) -> (r: bool)
        ensures
            r == (self.death >= now),
    {
        self.death >= now
    }
}

/// How many particles an emitter owes this tick, for a target rate of `pps`
/// per second: on slow frames (rate above the instantaneous FPS, that is
/// `pps * dt > 1000`) the whole deficit is emitted at once, rounded up;
/// on fast frames one particle is emitted only when at least `1000 / pps`
/// ms have passed since the last emission.
pub open spec fn emit_count(pps: u64, dt: u64, last: u64, now: u64) -> int {
    if pps * dt > 1000 {
        (pps * dt + 999) / 1000
    } else if now >= last + 1000int / (pps as int) {
        1
    } else {
        0
    }
}

/// The emission timestamp after a tick: the current instant if anything was
/// emitted, else unchanged.
pub open spec fn emit_stamp(pps: u64, dt: u64, last: u64, now: u64) -> int {
    if emit_count(pps, dt, last, now) > 0 {
        now as int
    } else {
        last as int
    }
}

pub fn emission_due(pps: u64, dt: u64, last: u64, now: u64) -> (n: u64)
    requires
        1 <= pps <= 1000,
        0 < dt <= MAX_DT,
        now <= MAX_NOW,
        last <= MAX_NOW,
    ensures
        n == emit_count(pps, dt, last, now),
        n <= 10_000,
{
    proof {
        mathx::lemma_mul_bounds(pps as int, dt as int, 1000, MAX_DT as int);
    }
    let prod = pps * dt;
    if prod > 1000 {
        (prod + 999) / 1000
    } else if now >= last + 1000 / pps {
        1
    } else {
        0
    }
}

} // verus!
