//! Bullets: fast points fired by the player or by aliens, with an expiry
//! deadline and a particle trail emitted at a frame-rate-independent rate.

use vstd::prelude::*;
use crate::constants::{
    BULLET_LIFESPAN, BULLET_SPEED, FULL_TURN, MAX_DT, MAX_FIELD, MAX_NOW, MAX_SPEED, TRAIL_PPS,
    TRAIL_SCATTER, TRAIL_VEL_MAX, TRAIL_VEL_MIN,
};
use crate::mathx;
use crate::particle::{emit_count, emit_stamp, emission_due, particle_wf, Particle};
use crate::rng;
use crate::trig;
use crate::wrap;

verus! {

/// How far outside the field a freshly fired bullet may start: the largest
/// muzzle offset of any shooter.
pub const MUZZLE_SLACK: i64 = 100_000;

/// One component of a trail particle's velocity: the bullet's own component,
/// minus `r` thousandths of it flying backwards as exhaust, plus the random
/// scatter `j`, capped. Trail particles inherit the bullet's motion.
pub open spec fn trail_vel(v: int, r: int, j: int) -> int {
    mathx::clamp_val(v - mathx::div_trunc(v * r, 1000) + j, -MAX_SPEED as int, MAX_SPEED as int)
}

/// Whether `(pvx, pvy)` is a trail-particle velocity for a bullet moving at
/// `(bvx, bvy)`: one exhaust fraction and an independent scatter per axis.
pub open spec fn trail_exhaust(pvx: i64, pvy: i64, bvx: i64, bvy: i64) -> bool {
    exists|r: int, jx: int, jy: int|
        #![trigger trail_vel(bvx as int, r, jx), trail_vel(bvy as int, r, jy)]
        TRAIL_VEL_MIN <= r < TRAIL_VEL_MAX && -TRAIL_SCATTER <= jx <= TRAIL_SCATTER
            && -TRAIL_SCATTER <= jy <= TRAIL_SCATTER && pvx == trail_vel(bvx as int, r, jx) && pvy
            == trail_vel(bvy as int, r, jy)
}

pub struct Bullet {
    pub x: i64,
    pub y: i64,
    pub vx: i64,
    pub vy: i64,
    /// The instant this bullet expires, in ms.
    pub death: u64,
    /// When this bullet last emitted a trail particle, in ms.
    pub last_particle: u64,
    /// Trail particles emitted this tick, to be collected by the world.
    pub particles_to_spawn: Vec<Particle>,
    /// Set once the bullet has hit something this frame.
    pub to_die: bool,
    /// Whether the player fired this bullet (aliens are hit only by these,
    /// the player only by alien bullets).
    pub is_player_shot: bool,
}

pub open spec fn bullet_wf(b: Bullet, w: int, h: int) -> bool {
    &&& -MUZZLE_SLACK <= b.x <= w + MUZZLE_SLACK
    &&& -MUZZLE_SLACK <= b.y <= h + MUZZLE_SLACK
    &&& -MAX_SPEED <= b.vx <= MAX_SPEED
    &&& -MAX_SPEED <= b.vy <= MAX_SPEED
    &&& b.last_particle <= MAX_NOW
    &&& forall|i: int|
        0 <= i < b.particles_to_spawn@.len() ==> particle_wf(
            #[trigger] b.particles_to_spawn@[i],
            w,
            h,
        )
}

impl Bullet {
    /// A bullet fired from `(x, y)` along the heading `angle`, at the fixed
    /// bullet speed.
    pub fn new(x: i64, y: i64, angle: u64, is_player_shot: bool, now: u64) -> (b: Bullet)
        requires
            angle < FULL_TURN,
            now <= MAX_NOW,
        ensures
            b.x == x,
            b.y == y,
            b.vx == mathx::div_trunc(BULLET_SPEED * trig::cos_milli(angle as int), 1000),
            b.vy == mathx::div_trunc(BULLET_SPEED * trig::sin_milli(angle as int), 1000),
            -BULLET_SPEED <= b.vx <= BULLET_SPEED,
            -BULLET_SPEED <= b.vy <= BULLET_SPEED,
            b.death == now + BULLET_LIFESPAN,
            b.last_particle == now,
            b.particles_to_spawn@.len() == 0,
            b.to_die == false,
            b.is_player_shot == is_player_shot,
    {
        let c = trig::cos_fp(angle);
        let s = trig::sin_fp(angle);
        proof {
            mathx::lemma_mul_bounds(BULLET_SPEED as int, c as int, 1000, 1000);
            mathx::lemma_mul_bounds(BULLET_SPEED as int, s as int, 1000, 1000);
            mathx::lemma_div_trunc_bound(BULLET_SPEED as int * c as int, 1000, BULLET_SPEED as int);
            mathx::lemma_div_trunc_bound(BULLET_SPEED as int * s as int, 1000, BULLET_SPEED as int);
        }
        let vx = mathx::div_i128(BULLET_SPEED as i128 * c as i128, 1000) as i64;
        let vy = mathx::div_i128(BULLET_SPEED as i128 * s as i128, 1000) as i64;
        Bullet {
            x,
            y,
            vx,
            vy,
            death: now + BULLET_LIFESPAN,
            last_particle: now,
            particles_to_spawn: Vec::new(),
            to_die: false,
            is_player_shot,
        }
    }

    /// A bullet fired from `(x, y)` towards the point offset by `(dx, dy)`,
    /// at the fixed bullet speed.
    pub fn new_aimed(x: i64, y: i64, dx: i64, dy: i64, is_player_shot: bool, now: u64) -> (b:
        Bullet)
        requires
            !(dx == 0 && dy == 0),
            -1_073_741_824 <= dx <= 1_073_741_824,
            -1_073_741_824 <= dy <= 1_073_741_824,
            now <= MAX_NOW,
        ensures
            b.x == x,
            b.y == y,
            b.vx == mathx::scaled_x(dx as int, dy as int, BULLET_SPEED as int),
            b.vy == mathx::scaled_y(dx as int, dy as int, BULLET_SPEED as int),
            -BULLET_SPEED <= b.vx <= BULLET_SPEED,
            -BULLET_SPEED <= b.vy <= BULLET_SPEED,
            b.death == now + BULLET_LIFESPAN,
            b.last_particle == now,
            b.particles_to_spawn@.len() == 0,
            b.to_die == false,
            b.is_player_shot == is_player_shot,
    {
        let (vx, vy) = mathx::scale_dir(dx, dy, BULLET_SPEED);
        Bullet {
            x,
            y,
            vx,
            vy,
            death: now + BULLET_LIFESPAN,
            last_particle: now,
            particles_to_spawn: Vec::new(),
            to_die: false,
            is_player_shot,
        }
    }

    /// Advance by `dt` ms, wrap onto the field, and emit trail particles at
    /// the configured rate.
    pub fn tick(&mut self, dt: u64, now: u64, w: i64, h: i64)
        requires
            0 < dt <= MAX_DT,
            now <= MAX_NOW,
            1 <= w <= MAX_FIELD,
            1 <= h <= MAX_FIELD,
            bullet_wf(*old(self), w as int, h as int),
        ensures
            final(self).x == wrap::wrap_val(old(self).x + old(self).vx * dt, w as int),
            final(self).y == wrap::wrap_val(old(self).y + old(self).vy * dt, h as int),
            final(self).vx == old(self).vx,
            final(self).vy == old(self).vy,
            final(self).death == old(self).death,
            final(self).to_die == old(self).to_die,
            final(self).is_player_shot == old(self).is_player_shot,
            final(self).last_particle == emit_stamp(TRAIL_PPS, dt, old(self).last_particle, now),
            final(self).particles_to_spawn@.len() == old(self).particles_to_spawn@.len()
                + emit_count(TRAIL_PPS, dt, old(self).last_particle, now),
            forall|i: int|
                0 <= i < old(self).particles_to_spawn@.len()
                    ==> #[trigger] final(self).particles_to_spawn@[i]
                    == old(self).particles_to_spawn@[i],
            forall|i: int|
                old(self).particles_to_spawn@.len() <= i < final(self).particles_to_spawn@.len()
                    ==> (#[trigger] final(self).particles_to_spawn@[i]).x == final(self).x
                    && final(self).particles_to_spawn@[i].y == final(self).y && trail_exhaust(
                    final(self).particles_to_spawn@[i].vx,
                    final(self).particles_to_spawn@[i].vy,
                    final(self).vx,
                    final(self).vy,
                ),
            bullet_wf(*final(self), w as int, h as int),
    {
        proof {
            mathx::lemma_mul_bounds(self.vx as int, dt as int, MAX_SPEED as int, MAX_DT as int);
            mathx::lemma_mul_bounds(self.vy as int, dt as int, MAX_SPEED as int, MAX_DT as int);
        }
        self.x = wrap::wrap_coord(self.x + self.vx * dt as i64, w);
        self.y = wrap::wrap_coord(self.y + self.vy * dt as i64, h);
        let n = emission_due(TRAIL_PPS, dt, self.last_particle, now);
        if n > 0 {
            self.last_particle = now;
        }
        let ghost base = self.particles_to_spawn@.len();
        let mut k: u64 = 0;
        while k < n
            invariant
                0 <= k <= n,
                now <= MAX_NOW,
                1 <= w <= MAX_FIELD,
                1 <= h <= MAX_FIELD,
                0 <= self.x <= w,
                0 <= self.y <= h,
                self.particles_to_spawn@.len() == base + k,
                forall|i: int|
                    0 <= i < base ==> #[trigger] self.particles_to_spawn@[i] == old(
                        self,
                    ).particles_to_spawn@[i],
                forall|i: int|
                    base <= i < self.particles_to_spawn@.len() ==> (
                    #[trigger] self.particles_to_spawn@[i]).x == self.x
                        && self.particles_to_spawn@[i].y == self.y && particle_wf(
                        self.particles_to_spawn@[i],
                        w as int,
                        h as int,
                    ) && trail_exhaust(
                        self.particles_to_spawn@[i].vx,
                        self.particles_to_spawn@[i].vy,
                        self.vx,
                        self.vy,
                    ),
                self.x == wrap::wrap_val(old(self).x + old(self).vx * dt, w as int),
                self.y == wrap::wrap_val(old(self).y + old(self).vy * dt, h as int),
                self.vx == old(self).vx,
                self.vy == old(self).vy,
                -MAX_SPEED <= self.vx <= MAX_SPEED,
                -MAX_SPEED <= self.vy <= MAX_SPEED,
                self.death == old(self).death,
                self.to_die == old(self).to_die,
                self.is_player_shot == old(self).is_player_shot,
                self.last_particle == if n > 0 {
                    now as int
                } else {
                    old(self).last_particle as int
                },
            decreases n - k,
        {
            // Exhaust: a random fraction of the bullet's velocity flies
            // backwards while the particle keeps the rest of the bullet's
            // motion, with a small random scatter per axis.
            let r = rng::rand_u64(TRAIL_VEL_MIN, TRAIL_VEL_MAX) as i64;
            let jx = rng::rand_i64(-TRAIL_SCATTER, TRAIL_SCATTER + 1);
            let jy = rng::rand_i64(-TRAIL_SCATTER, TRAIL_SCATTER + 1);
            proof {
                mathx::lemma_mul_bounds(self.vx as int, r as int, MAX_SPEED as int, 200);
                mathx::lemma_mul_bounds(self.vy as int, r as int, MAX_SPEED as int, 200);
                mathx::lemma_div_trunc_bound(self.vx as int * r as int, 1000, MAX_SPEED as int);
                mathx::lemma_div_trunc_bound(self.vy as int * r as int, 1000, MAX_SPEED as int);
            }
            let pvx = self.vx - mathx::div_i128(self.vx as i128 * r as i128, 1000) as i64 + jx;
            let pvy = self.vy - mathx::div_i128(self.vy as i128 * r as i128, 1000) as i64 + jy;
            let p = Particle::new(self.x, self.y, pvx, pvy, now);
            self.particles_to_spawn.push(p);
            proof {
                assert(p.vx == trail_vel(self.vx as int, r as int, jx as int) && p.vy == trail_vel(
                    self.vy as int,
                    r as int,
                    jy as int,
                ));
                assert(trail_exhaust(p.vx, p.vy, self.vx, self.vy));
            }
            k += 1;
        }
    }

    /// Whether the bullet survives the instant `now`.
    pub fn is_alive(&self, now: u64) -> (r: bool)
        ensures
            r == (self.death >= now),
    {
        self.death >= now
    }

    /// Hand the queued trail particles to the world, leaving the queue empty.
    pub fn get_particles_to_spawn(&mut self) -> (ps: Vec<Particle>)
        ensures
            ps@ == old(self).particles_to_spawn@,
            final(self).particles_to_spawn@.len() == 0,
            final(self).x == old(self).x,
            final(self).y == old(self).y,
            final(self).vx == old(self).vx,
            final(self).vy == old(self).vy,
            final(self).death == old(self).death,
            final(self).last_particle == old(self).last_particle,
            final(self).to_die == old(self).to_die,
            final(self).is_player_shot == old(self).is_player_shot,
    {
        let mut out: Vec<Particle> = Vec::new();
        core::mem::swap(&mut out, &mut self.particles_to_spawn);
        out
    }

    /// The segment this bullet sweeps during a tick of `dt` ms, used for
    /// collision so that fast bullets cannot tunnel through thin targets.
    pub fn get_physics_trail(&self, dt: u64) -> (t: Vec<(i64, i64)>)
        requires
            0 < dt <= MAX_DT,
            -MUZZLE_SLACK <= self.x,
            self.x <= MAX_FIELD + MUZZLE_SLACK,
            -MUZZLE_SLACK <= self.y,
            self.y <= MAX_FIELD + MUZZLE_SLACK,
            -MAX_SPEED <= self.vx <= MAX_SPEED,
            -MAX_SPEED <= self.vy <= MAX_SPEED,
        ensures
            t@.len() == 2,
            t@[0] == (self.x, self.y),
            t@[1] == (
                (self.x + self.vx * dt) as i64,
                (self.y + self.vy * dt) as i64,
            ),
            crate::geom::poly_ok(t@),
    {
        proof {
            mathx::lemma_mul_bounds(self.vx as int, dt as int, MAX_SPEED as int, MAX_DT as int);
            mathx::lemma_mul_bounds(self.vy as int, dt as int, MAX_SPEED as int, MAX_DT as int);
        }
        let mut t: Vec<(i64, i64)> = Vec::new();
        t.push((self.x, self.y));
        t.push((self.x + self.vx * dt as i64, self.y + self.vy * dt as i64));
        t
    }

    /// The bullet's current position.
    pub fn get_location(&self) -> (p: (i64, i64))
        ensures
            p == (self.x, self.y),
    {
        (self.x, self.y)
    }

    /// Whether the player fired this bullet.
    pub fn get_is_player_shot(&self) -> (r: bool)
        ensures
            r == self.is_player_shot,
    {
        self.is_player_shot
    }
}

} // verus!
