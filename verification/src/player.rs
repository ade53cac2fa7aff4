//! The player's ship: heading-based turning and thrust, linear drag, a
//! thrust particle trail, and a single rotated hitbox polygon.

use vstd::prelude::*;
use crate::bullet::Bullet;
use crate::constants::{
    BULLET_SPEED, FULL_TURN, MAX_DT, MAX_FIELD, MAX_NOW, MAX_SPEED, PLAYER_ACCEL_MILLI,
    PLAYER_DRAG_MICRO, PLAYER_START_ANGLE, PLAYER_TURN_RATE, THRUST_ANGLE_OFFSET, THRUST_PPS,
    THRUST_VEL_MAX, THRUST_VEL_MIN,
};
use crate::geom;
use crate::mathx;
use crate::particle::{emit_count, emit_stamp, emission_due, particle_wf, Particle};
use crate::rng;
use crate::trig;
use crate::wrap;

verus! {

/// Distance from the ship's centre to its nose, in mu; bullets leave there.
pub const PLAYER_NOSE: i64 = 40_000;

/// The inputs the core understands. The fire key doubles as the menu-start
/// key; everything else a keyboard produces is ignored before it gets here.
#[derive(Clone, Copy, PartialEq, Eq, Structural)]
pub enum Key {
    Left,
    Right,
    Thrust,
    Fire,
    Pause,
}

/// The ship silhouette, in local mu offsets, nose first: drawn and collided
/// after rotation by the current heading.
pub open spec fn player_shape_spec() -> Seq<(i64, i64)> {
    seq![(0i64, -40_000i64), (15_000i64, 15_000i64), (0i64, 0i64), (-15_000i64, 15_000i64)]
}

pub struct Player {
    pub x: i64,
    pub y: i64,
    pub vx: i64,
    pub vy: i64,
    /// Heading, in angle units in [0, 3600).
    pub angle: u64,
    pub left: bool,
    pub right: bool,
    pub up: bool,
    /// Thrust particles emitted this tick, to be collected by the world.
    pub particles_to_spawn: Vec<Particle>,
    /// When the thruster last emitted a particle, in ms.
    pub last_thrust_particle: u64,
}

pub open spec fn player_wf(p: Player, w: int, h: int) -> bool {
    &&& 0 <= p.x <= w
    &&& 0 <= p.y <= h
    &&& -MAX_SPEED <= p.vx <= MAX_SPEED
    &&& -MAX_SPEED <= p.vy <= MAX_SPEED
    &&& p.angle < FULL_TURN
    &&& p.last_thrust_particle <= MAX_NOW
    &&& forall|i: int|
        0 <= i < p.particles_to_spawn@.len() ==> particle_wf(
            #[trigger] p.particles_to_spawn@[i],
            w,
            h,
        )
}

/// The velocity gained in one tick of thrust along the heading, x component.
pub open spec fn thrust_dv_x(angle: int, dt: int) -> int {
    mathx::div_trunc(PLAYER_ACCEL_MILLI * dt * trig::cos_milli(angle), 1_000_000)
}

/// The velocity gained in one tick of thrust along the heading, y component.
pub open spec fn thrust_dv_y(angle: int, dt: int) -> int {
    mathx::div_trunc(PLAYER_ACCEL_MILLI * dt * trig::sin_milli(angle), 1_000_000)
}

/// Drag, linear in the frame delta: one tick removes `PLAYER_DRAG_MICRO`
/// millionths of the velocity per ms of the tick, and a tick long enough to
/// remove everything stops the ship. This deliberately replaces
/// multiplicative per-ms damping: at this core's resolution (velocities in
/// mu/ms) an exact per-ms compounding truncates to nothing below 2803 mu/ms
/// and so would never slow an ordinary ship; the linear rule keeps the same
/// first-order rate and differs only in second order of `dt` times the rate.
pub open spec fn drag_val(v: int, dt: int) -> int {
    if PLAYER_DRAG_MICRO * dt >= 1_000_000 {
        0
    } else {
        v - mathx::div_trunc(v * (PLAYER_DRAG_MICRO * dt), 1_000_000)
    }
}

/// The heading after one tick of turning: left and right cancel; otherwise
/// the heading moves by the turn rate times `dt`, wrapped.
pub open spec fn turned_angle(p: Player, dt: int) -> int {
    if p.left == p.right {
        p.angle as int
    } else if p.left {
        (p.angle - PLAYER_TURN_RATE * dt) % (FULL_TURN as int)
    } else {
        (p.angle + PLAYER_TURN_RATE * dt) % (FULL_TURN as int)
    }
}

/// The direction of one exhaust puff: the heading reversed, scattered by
/// `off` angle units (measured from one side of the scatter band).
pub open spec fn exhaust_angle(angle: int, off: int) -> int {
    (angle + FULL_TURN - THRUST_ANGLE_OFFSET + off) % (FULL_TURN as int)
}

/// One component of a thrust particle's velocity: the ship's own component
/// minus the exhaust speed along the scattered angle, capped. Exhaust
/// inherits the ship's motion.
pub open spec fn exhaust_vel_x(v: int, angle: int, off: int, vel: int) -> int {
    mathx::clamp_val(
        v - trig::polar_x(vel, exhaust_angle(angle, off)),
        -MAX_SPEED as int,
        MAX_SPEED as int,
    )
}

pub open spec fn exhaust_vel_y(v: int, angle: int, off: int, vel: int) -> int {
    mathx::clamp_val(
        v - trig::polar_y(vel, exhaust_angle(angle, off)),
        -MAX_SPEED as int,
        MAX_SPEED as int,
    )
}

/// Whether `(pvx, pvy)` is a thrust-exhaust velocity for a ship moving at
/// `(vx, vy)` with the given heading: some scatter offset within the band
/// and some exhaust speed from the configured range.
pub open spec fn thrust_exhaust(pvx: i64, pvy: i64, vx: i64, vy: i64, angle: u64) -> bool {
    exists|off: int, vel: int|
        #![trigger exhaust_vel_x(vx as int, angle as int, off, vel)]
        0 <= off <= 2 * THRUST_ANGLE_OFFSET && THRUST_VEL_MIN <= vel < THRUST_VEL_MAX && pvx
            == exhaust_vel_x(vx as int, angle as int, off, vel) && pvy == exhaust_vel_y(
            vy as int,
            angle as int,
            off,
            vel,
        )
}

/// Vertex `i` of the ship's hitbox: the silhouette rotated by the heading
/// (plus a quarter turn, since the silhouette is drawn nose-up) and
/// translated to the ship's position.
pub open spec fn player_hitbox_point(p: Player, i: int) -> (i64, i64) {
    let rot = (p.angle + 900) % (FULL_TURN as int);
    (
        (p.x + trig::rotate_x(player_shape_spec()[i], rot)) as i64,
        (p.y + trig::rotate_y(player_shape_spec()[i], rot)) as i64,
    )
}

impl Player {
    /// A ship at rest at `(x, y)`, pointing straight up.
    pub fn new(x: i64, y: i64) -> (p: Player)
        ensures
            p.x == x,
            p.y == y,
            p.vx == 0,
            p.vy == 0,
            p.angle == PLAYER_START_ANGLE,
            !p.left && !p.right && !p.up,
            p.particles_to_spawn@.len() == 0,
            p.last_thrust_particle == 0,
    {
        Player {
            x,
            y,
            vx: 0,
            vy: 0,
            angle: PLAYER_START_ANGLE,
            left: false,
            right: false,
            up: false,
            particles_to_spawn: Vec::new(),
            last_thrust_particle: 0,
        }
    }

    /// One frame: integrate and wrap the position, apply thrust (emitting
    /// exhaust particles at the configured rate) and drag to the velocity,
    /// cap the speed, and turn.
    pub fn tick(&mut self, dt: u64, now: u64, w: i64, h: i64)
        requires
            0 < dt <= MAX_DT,
            now <= MAX_NOW,
            1 <= w <= MAX_FIELD,
            1 <= h <= MAX_FIELD,
            player_wf(*old(self), w as int, h as int),
        ensures
            player_wf(*final(self), w as int, h as int),
            final(self).x == wrap::wrap_val(old(self).x + old(self).vx * dt, w as int),
            final(self).y == wrap::wrap_val(old(self).y + old(self).vy * dt, h as int),
            final(self).vx == mathx::clamp_val(
                drag_val(
                    old(self).vx + if old(self).up {
                        thrust_dv_x(old(self).angle as int, dt as int)
                    } else {
                        0int
                    },
                    dt as int,
                ),
                -MAX_SPEED as int,
                MAX_SPEED as int,
            ),
            final(self).vy == mathx::clamp_val(
                drag_val(
                    old(self).vy + if old(self).up {
                        thrust_dv_y(old(self).angle as int, dt as int)
                    } else {
                        0int
                    },
                    dt as int,
                ),
                -MAX_SPEED as int,
                MAX_SPEED as int,
            ),
            final(self).angle == turned_angle(*old(self), dt as int),
            final(self).left == old(self).left,
            final(self).right == old(self).right,
            final(self).up == old(self).up,
            final(self).last_thrust_particle == if old(self).up {
                emit_stamp(THRUST_PPS, dt, old(self).last_thrust_particle, now)
            } else {
                old(self).last_thrust_particle as int
            },
            final(self).particles_to_spawn@.len() == old(self).particles_to_spawn@.len() + if old(
                self,
            ).up {
                emit_count(THRUST_PPS, dt, old(self).last_thrust_particle, now)
            } else {
                0int
            },
            forall|i: int|
                0 <= i < old(self).particles_to_spawn@.len()
                    ==> #[trigger] final(self).particles_to_spawn@[i]
                    == old(self).particles_to_spawn@[i],
            forall|i: int|
                old(self).particles_to_spawn@.len() <= i < final(self).particles_to_spawn@.len()
                    ==> (#[trigger] final(self).particles_to_spawn@[i]).x == final(self).x
                    && final(self).particles_to_spawn@[i].y == final(self).y && thrust_exhaust(
                    final(self).particles_to_spawn@[i].vx,
                    final(self).particles_to_spawn@[i].vy,
                    old(self).vx,
                    old(self).vy,
                    old(self).angle,
                ),
    {
        proof {
            mathx::lemma_mul_bounds(self.vx as int, dt as int, MAX_SPEED as int, MAX_DT as int);
            mathx::lemma_mul_bounds(self.vy as int, dt as int, MAX_SPEED as int, MAX_DT as int);
        }
        self.x = wrap::wrap_coord(self.x + self.vx * dt as i64, w);
        self.y = wrap::wrap_coord(self.y + self.vy * dt as i64, h);
        let mut nvx: i64 = self.vx;
        let mut nvy: i64 = self.vy;
        if self.up {
            let c = trig::cos_fp(self.angle);
            let s = trig::sin_fp(self.angle);
            proof {
                mathx::lemma_mul_bounds(
                    PLAYER_ACCEL_MILLI as int * dt as int,
                    c as int,
                    10_000_000,
                    1000,
                );
                mathx::lemma_mul_bounds(
                    PLAYER_ACCEL_MILLI as int * dt as int,
                    s as int,
                    10_000_000,
                    1000,
                );
                mathx::lemma_div_trunc_bound(
                    PLAYER_ACCEL_MILLI as int * dt as int * c as int,
                    1_000_000,
                    10_000,
                );
                mathx::lemma_div_trunc_bound(
                    PLAYER_ACCEL_MILLI as int * dt as int * s as int,
                    1_000_000,
                    10_000,
                );
            }
            let base: i128 = PLAYER_ACCEL_MILLI as i128 * dt as i128;
            nvx = nvx + mathx::div_i128(base * c as i128, 1_000_000) as i64;
            nvy = nvy + mathx::div_i128(base * s as i128, 1_000_000) as i64;
            let n = emission_due(THRUST_PPS, dt, self.last_thrust_particle, now);
            if n > 0 {
                self.last_thrust_particle = now;
            }
            let ghost base_len = self.particles_to_spawn@.len();
            let mut k: u64 = 0;
            while k < n
                invariant
                    0 <= k <= n,
                    now <= MAX_NOW,
                    1 <= w <= MAX_FIELD,
                    1 <= h <= MAX_FIELD,
                    0 <= self.x <= w,
                    0 <= self.y <= h,
                    self.angle < FULL_TURN,
                    -MAX_SPEED <= self.vx <= MAX_SPEED,
                    -MAX_SPEED <= self.vy <= MAX_SPEED,
                    self.particles_to_spawn@.len() == base_len + k,
                    forall|i: int|
                        0 <= i < base_len ==> #[trigger] self.particles_to_spawn@[i] == old(
                            self,
                        ).particles_to_spawn@[i],
                    forall|i: int|
                        base_len <= i < self.particles_to_spawn@.len() ==> (
                        #[trigger] self.particles_to_spawn@[i]).x == self.x
                            && self.particles_to_spawn@[i].y == self.y && particle_wf(
                            self.particles_to_spawn@[i],
                            w as int,
                            h as int,
                        ) && thrust_exhaust(
                            self.particles_to_spawn@[i].vx,
                            self.particles_to_spawn@[i].vy,
                            old(self).vx,
                            old(self).vy,
                            old(self).angle,
                        ),
                    self.x == wrap::wrap_val(old(self).x + old(self).vx * dt, w as int),
                    self.y == wrap::wrap_val(old(self).y + old(self).vy * dt, h as int),
                    self.vx == old(self).vx,
                    self.vy == old(self).vy,
                    self.angle == old(self).angle,
                    self.left == old(self).left,
                    self.right == old(self).right,
                    self.up == old(self).up,
                    self.last_thrust_particle == if n > 0 {
                        now as int
                    } else {
                        old(self).last_thrust_particle as int
                    },
                decreases n - k,
            {
                // Exhaust leaves backwards along the heading, scattered by a
                // random angle, at a random speed, riding on the ship's own
                // velocity.
                let off = rng::rand_u64(0, 2 * THRUST_ANGLE_OFFSET + 1);
                let theta = trig::angle_add(self.angle, FULL_TURN - THRUST_ANGLE_OFFSET + off);
                let vel = rng::rand_u64(THRUST_VEL_MIN, THRUST_VEL_MAX) as i64;
                let c = trig::cos_fp(theta);
                let s = trig::sin_fp(theta);
                proof {
                    mathx::lemma_mul_bounds(vel as int, c as int, 500, 1000);
                    mathx::lemma_mul_bounds(vel as int, s as int, 500, 1000);
                    mathx::lemma_div_trunc_bound(vel as int * c as int, 1000, 500);
                    mathx::lemma_div_trunc_bound(vel as int * s as int, 1000, 500);
                }
                let evx = mathx::div_i128(vel as i128 * c as i128, 1000) as i64;
                let evy = mathx::div_i128(vel as i128 * s as i128, 1000) as i64;
                let p = Particle::new(self.x, self.y, self.vx - evx, self.vy - evy, now);
                self.particles_to_spawn.push(p);
                proof {
                    assert(theta == exhaust_angle(self.angle as int, off as int));
                    assert(p.vx == exhaust_vel_x(self.vx as int, self.angle as int, off as int, vel as int));
                    assert(p.vy == exhaust_vel_y(self.vy as int, self.angle as int, off as int, vel as int));
                    assert(thrust_exhaust(p.vx, p.vy, self.vx, self.vy, self.angle));
                }
                k += 1;
            }
        }
        let k: i64 = PLAYER_DRAG_MICRO * dt as i64;
        if k >= 1_000_000 {
            nvx = 0;
            nvy = 0;
        } else {
            proof {
                mathx::lemma_mul_bounds(nvx as int, k as int, 15_000, 1_000_000);
                mathx::lemma_mul_bounds(nvy as int, k as int, 15_000, 1_000_000);
                mathx::lemma_div_trunc_bound(nvx as int * k as int, 1_000_000, 15_000);
                mathx::lemma_div_trunc_bound(nvy as int * k as int, 1_000_000, 15_000);
            }
            nvx = nvx - mathx::div_i128(nvx as i128 * k as i128, 1_000_000) as i64;
            nvy = nvy - mathx::div_i128(nvy as i128 * k as i128, 1_000_000) as i64;
        }
        self.vx = mathx::clamp_i64(nvx, -MAX_SPEED, MAX_SPEED);
        self.vy = mathx::clamp_i64(nvy, -MAX_SPEED, MAX_SPEED);
        if self.left != self.right {
            if self.left {
                self.angle = trig::angle_sub(self.angle, PLAYER_TURN_RATE * dt);
            } else {
                self.angle = trig::angle_add(self.angle, PLAYER_TURN_RATE * dt);
            }
        }
    }

    /// Record a turn or thrust key going down or up; other keys are the
    /// world's business and leave the ship alone.
    pub fn handle_key_event(&mut self, key: Key, pressed: bool)
        ensures
            final(self).left == if key == Key::Left {
                pressed
            } else {
                old(self).left
            },
            final(self).right == if key == Key::Right {
                pressed
            } else {
                old(self).right
            },
            final(self).up == if key == Key::Thrust {
                pressed
            } else {
                old(self).up
            },
            final(self).x == old(self).x,
            final(self).y == old(self).y,
            final(self).vx == old(self).vx,
            final(self).vy == old(self).vy,
            final(self).angle == old(self).angle,
            final(self).particles_to_spawn == old(self).particles_to_spawn,
            final(self).last_thrust_particle == old(self).last_thrust_particle,
    {
        match key {
            Key::Left => self.left = pressed,
            Key::Right => self.right = pressed,
            Key::Thrust => self.up = pressed,
            Key::Fire => {},
            Key::Pause => {},
        }
    }

    /// Hand the queued thrust particles to the world, leaving the queue empty.
    pub fn get_particles(&mut self) -> (ps: Vec<Particle>)
        ensures
            ps@ == old(self).particles_to_spawn@,
            final(self).particles_to_spawn@.len() == 0,
            final(self).x == old(self).x,
            final(self).y == old(self).y,
            final(self).vx == old(self).vx,
            final(self).vy == old(self).vy,
            final(self).angle == old(self).angle,
            final(self).left == old(self).left,
            final(self).right == old(self).right,
            final(self).up == old(self).up,
            final(self).last_thrust_particle == old(self).last_thrust_particle,
    {
        let mut out: Vec<Particle> = Vec::new();
        core::mem::swap(&mut out, &mut self.particles_to_spawn);
        out
    }

    /// Fire one bullet from the ship's nose along its heading.
    pub fn shoot_bullet(&self, now: u64) -> (b: Bullet)
        requires
            now <= MAX_NOW,
            self.angle < FULL_TURN,
            -MAX_FIELD <= self.x <= MAX_FIELD,
            -MAX_FIELD <= self.y <= MAX_FIELD,
        ensures
            b.x == self.x + mathx::div_trunc(PLAYER_NOSE * trig::cos_milli(self.angle as int), 1000),
            b.y == self.y + mathx::div_trunc(PLAYER_NOSE * trig::sin_milli(self.angle as int), 1000),
            b.vx == mathx::div_trunc(BULLET_SPEED * trig::cos_milli(self.angle as int), 1000),
            b.vy == mathx::div_trunc(BULLET_SPEED * trig::sin_milli(self.angle as int), 1000),
            -BULLET_SPEED <= b.vx <= BULLET_SPEED,
            -BULLET_SPEED <= b.vy <= BULLET_SPEED,
            b.death == now + crate::constants::BULLET_LIFESPAN,
            b.last_particle == now,
            b.particles_to_spawn@.len() == 0,
            b.to_die == false,
            b.is_player_shot == true,
    {
        let c = trig::cos_fp(self.angle);
        let s = trig::sin_fp(self.angle);
        proof {
            mathx::lemma_mul_bounds(PLAYER_NOSE as int, c as int, PLAYER_NOSE as int, 1000);
            mathx::lemma_mul_bounds(PLAYER_NOSE as int, s as int, PLAYER_NOSE as int, 1000);
            mathx::lemma_div_trunc_bound(PLAYER_NOSE as int * c as int, 1000, PLAYER_NOSE as int);
            mathx::lemma_div_trunc_bound(PLAYER_NOSE as int * s as int, 1000, PLAYER_NOSE as int);
        }
        let mx = self.x + mathx::div_i128(PLAYER_NOSE as i128 * c as i128, 1000) as i64;
        let my = self.y + mathx::div_i128(PLAYER_NOSE as i128 * s as i128, 1000) as i64;
        Bullet::new(mx, my, self.angle, true, now)
    }

    pub fn get_x(&self) -> (r: i64)
        ensures
            r == self.x,
    {
        self.x
    }

    pub fn get_y(&self) -> (r: i64)
        ensures
            r == self.y,
    {
        self.y
    }

    /// The ship's hitbox: the silhouette rotated by the heading and
    /// translated to the ship's position. A single polygon; callers test it
    /// against the nine wrapped copies of the other entity.
    #[verifier::rlimit(50)]
    pub fn get_hitbox(&self) -> (r: Vec<(i64, i64)>)
        requires
            self.angle < FULL_TURN,
            -MAX_FIELD <= self.x <= MAX_FIELD,
            -MAX_FIELD <= self.y <= MAX_FIELD,
        ensures
            r@.len() == player_shape_spec().len(),
            forall|i: int|
                0 <= i < r@.len() ==> #[trigger] r@[i] == player_hitbox_point(*self, i),
            geom::poly_ok(r@),
    {
        let rot = trig::angle_add(self.angle, 900);
        let mut r: Vec<(i64, i64)> = Vec::new();
        let p0 = trig::rotate_point((0, -40_000), rot);
        let p1 = trig::rotate_point((15_000, 15_000), rot);
        let p2 = trig::rotate_point((0, 0), rot);
        let p3 = trig::rotate_point((-15_000, 15_000), rot);
        r.push((self.x + p0.0, self.y + p0.1));
        r.push((self.x + p1.0, self.y + p1.1));
        r.push((self.x + p2.0, self.y + p2.1));
        r.push((self.x + p3.0, self.y + p3.1));
        proof {
            assert forall|i: int| 0 <= i < r@.len() implies #[trigger] r@[i]
                == player_hitbox_point(*self, i) by {
                assert(player_shape_spec()[0] == (0i64, -40_000i64));
                assert(player_shape_spec()[1] == (15_000i64, 15_000i64));
                assert(player_shape_spec()[2] == (0i64, 0i64));
                assert(player_shape_spec()[3] == (-15_000i64, 15_000i64));
            }
        }
        r
    }

    /// Death: back to the given point (the field centre), at rest, pointing
    /// up.
    pub fn die(&mut self, w: i64, h: i64)
        requires
            0 <= w,
            0 <= h,
        ensures
            final(self).x == w / 2,
            final(self).y == h / 2,
            final(self).vx == 0,
            final(self).vy == 0,
            final(self).angle == PLAYER_START_ANGLE,
            final(self).left == old(self).left,
            final(self).right == old(self).right,
            final(self).up == old(self).up,
            final(self).particles_to_spawn == old(self).particles_to_spawn,
            final(self).last_thrust_particle == old(self).last_thrust_particle,
    {
        self.x = ((w as u64) / 2) as i64;
        self.y = ((h as u64) / 2) as i64;
        self.vx = 0;
        self.vy = 0;
        self.angle = PLAYER_START_ANGLE;
    }

    pub fn get_pos_and_vel(&self) -> (r: (i64, i64, i64, i64))
        ensures
            r == (self.x, self.y, self.vx, self.vy),
    {
        (self.x, self.y, self.vx, self.vy)
    }

    pub fn set_location(&mut self, x: i64, y: i64)
        ensures
            final(self).x == x,
            final(self).y == y,
            final(self).vx == old(self).vx,
            final(self).vy == old(self).vy,
            final(self).angle == old(self).angle,
            final(self).left == old(self).left,
            final(self).right == old(self).right,
            final(self).up == old(self).up,
            final(self).particles_to_spawn == old(self).particles_to_spawn,
            final(self).last_thrust_particle == old(self).last_thrust_particle,
    {
        self.x = x;
        self.y = y;
    }

    /// Add an external pull (a gravity well's) to the velocity, capped.
    pub fn apply_force(&mut self, fx: i64, fy: i64)
        requires
            -1_000_000_000 <= fx <= 1_000_000_000,
            -1_000_000_000 <= fy <= 1_000_000_000,
            -MAX_SPEED <= old(self).vx <= MAX_SPEED,
            -MAX_SPEED <= old(self).vy <= MAX_SPEED,
        ensures
            final(self).vx == mathx::clamp_val(
                old(self).vx + fx,
                -MAX_SPEED as int,
                MAX_SPEED as int,
            ),
            final(self).vy == mathx::clamp_val(
                old(self).vy + fy,
                -MAX_SPEED as int,
                MAX_SPEED as int,
            ),
            final(self).x == old(self).x,
            final(self).y == old(self).y,
            final(self).angle == old(self).angle,
            final(self).left == old(self).left,
            final(self).right == old(self).right,
            final(self).up == old(self).up,
            final(self).particles_to_spawn == old(self).particles_to_spawn,
            final(self).last_thrust_particle == old(self).last_thrust_particle,
    {
        self.vx = mathx::clamp_i64(self.vx + fx, -MAX_SPEED, MAX_SPEED);
        self.vy = mathx::clamp_i64(self.vy + fy, -MAX_SPEED, MAX_SPEED);
    }
}

} // verus!
