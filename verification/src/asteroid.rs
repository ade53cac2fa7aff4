//! Asteroids: drifting rocks with a procedurally jittered polygon silhouette.
//! Destroying one above the minimum radius splits it into two half-radius
//! children at the same position.

use vstd::prelude::*;
use crate::constants::{
    ASTEROID_JITTER_MILLI, ASTEROID_MAX_SPAWN_ATTEMPTS, ASTEROID_MIN_RADIUS,
    ASTEROID_MIN_SPAWN_DIST_SQ, ASTEROID_MU_PER_VERTEX, ASTEROID_SPAWN_RADIUS_MAX,
    ASTEROID_VEL_MAX, ASTEROID_VEL_MIN, FULL_TURN, MAX_DT, MAX_FIELD, MAX_SPEED,
};
use crate::mathx;
use crate::rng;
use crate::trig;
use crate::wrap;

verus! {

pub struct Asteroid {
    pub x: i64,
    pub y: i64,
    pub vx: i64,
    pub vy: i64,
    /// Nominal radius, in mu.
    pub radius: i64,
    /// The jittered silhouette, in local offsets from the centre.
    pub shape: Vec<(i64, i64)>,
}

/// Vertex `i` of an asteroid silhouette of `n` vertices: evenly spaced in
/// angle, at the nominal radius scaled by the jitter factor `fac` (in
/// thousandths).
pub open spec fn asteroid_vertex(radius: int, n: int, i: int, fac: int) -> (i64, i64) {
    let angle = (i * 3600) / n;
    let pr = mathx::div_trunc(radius * fac, 1000);
    (
        mathx::div_trunc(pr * trig::cos_milli(angle), 1000) as i64,
        mathx::div_trunc(pr * trig::sin_milli(angle), 1000) as i64,
    )
}

/// Whether `v` is a jittered silhouette vertex: `asteroid_vertex` for some
/// jitter factor within the configured band.
pub open spec fn jittered_vertex(v: (i64, i64), radius: int, n: int, i: int) -> bool {
    exists|fac: int|
        1000 - ASTEROID_JITTER_MILLI <= fac < 1000 + ASTEROID_JITTER_MILLI && v
            == #[trigger] asteroid_vertex(radius, n, i, fac)
}

/// How many vertices an asteroid of the given radius gets.
pub open spec fn vertex_count(radius: int) -> int {
    if radius / (ASTEROID_MU_PER_VERTEX as int) < 3 {
        3
    } else {
        radius / (ASTEROID_MU_PER_VERTEX as int)
    }
}

pub open spec fn asteroid_wf(a: Asteroid, w: int, h: int) -> bool {
    &&& 0 <= a.x <= w
    &&& 0 <= a.y <= h
    &&& -MAX_SPEED <= a.vx <= MAX_SPEED
    &&& -MAX_SPEED <= a.vy <= MAX_SPEED
    &&& 10_000 <= a.radius <= ASTEROID_SPAWN_RADIUS_MAX
    &&& a.shape@.len() >= 3
    &&& wrap::shape_ok(a.shape@)
}

impl Asteroid {
    /// A fresh rock at `(x, y)`: the silhouette has one vertex per
    /// `ASTEROID_MU_PER_VERTEX` of radius (at least three), evenly spaced in
    /// angle, each at the nominal radius scaled by an independent random
    /// factor in [0.3, 1.7); the velocity has a random direction and a random
    /// speed from the configured range.
    pub fn new(x: i64, y: i64, radius: i64) -> (a: Asteroid)
        requires
            10_000 <= radius <= ASTEROID_SPAWN_RADIUS_MAX,
        ensures
            a.x == x,
            a.y == y,
            a.radius == radius,
            a.shape@.len() == vertex_count(radius as int),
            a.shape@.len() >= 3,
            wrap::shape_ok(a.shape@),
            forall|i: int|
                0 <= i < a.shape@.len() ==> -2 * radius <= (#[trigger] a.shape@[i]).0 <= 2 * radius
                    && -2 * radius <= a.shape@[i].1 <= 2 * radius,
            forall|i: int|
                0 <= i < a.shape@.len() ==> jittered_vertex(
                    #[trigger] a.shape@[i],
                    radius as int,
                    a.shape@.len() as int,
                    i,
                ),
            exists|speed: int, ang: int|
                ASTEROID_VEL_MIN <= speed < ASTEROID_VEL_MAX && 0 <= ang < 3600 && a.vx
                    == #[trigger] trig::polar_x(speed, ang) && a.vy == trig::polar_y(speed, ang),
            -ASTEROID_VEL_MAX <= a.vx <= ASTEROID_VEL_MAX,
            -ASTEROID_VEL_MAX <= a.vy <= ASTEROID_VEL_MAX,
    {
        let mut points: u64 = (radius as u64) / (ASTEROID_MU_PER_VERTEX as u64);
        if points < 3 {
            points = 3;
        }
        assert(points == vertex_count(radius as int));
        assert(points <= 10);
        let mut shape: Vec<(i64, i64)> = Vec::new();
        let ghost mut facs: Seq<int> = Seq::empty();
        let mut i: u64 = 0;
        while i < points
            invariant
                3 <= points <= 10,
                10_000 <= radius <= ASTEROID_SPAWN_RADIUS_MAX,
                0 <= i <= points,
                shape@.len() == i,
                forall|j: int|
                    0 <= j < shape@.len() ==> -2 * radius <= (#[trigger] shape@[j]).0 <= 2 * radius
                        && -2 * radius <= shape@[j].1 <= 2 * radius,
                facs.len() == shape@.len(),
                forall|j: int|
                    0 <= j < shape@.len() ==> 1000 - ASTEROID_JITTER_MILLI <= #[trigger] facs[j]
                        < 1000 + ASTEROID_JITTER_MILLI && shape@[j] == asteroid_vertex(
                        radius as int,
                        points as int,
                        j,
                        facs[j],
                    ),
            decreases points - i,
        {
            let angle: u64 = (i * FULL_TURN) / points;
            proof {
                assert(i * FULL_TURN < points * FULL_TURN) by (nonlinear_arith)
                    requires
                        0 <= i < points,
                        FULL_TURN == 3600,
                ;
                vstd::arithmetic::div_mod::lemma_multiply_divide_lt(
                    (i * FULL_TURN) as int,
                    points as int,
                    FULL_TURN as int,
                );
            }
            let fac: i64 = rng::rand_u64(
                (1000 - ASTEROID_JITTER_MILLI) as u64,
                (1000 + ASTEROID_JITTER_MILLI) as u64,
            ) as i64;
            proof {
                mathx::lemma_mul_bounds(radius as int, fac as int, ASTEROID_SPAWN_RADIUS_MAX as int, 1700);
                assert(0 <= radius as int * fac as int <= 1000 * (2 * radius)) by (nonlinear_arith)
                    requires
                        0 < radius,
                        0 < fac < 1700,
                ;
                mathx::lemma_div_trunc_bound(radius as int * fac as int, 1000, 2 * radius);
            }
            let pr: i64 = mathx::div_i128(radius as i128 * fac as i128, 1000) as i64;
            let c = trig::cos_fp(angle);
            let s = trig::sin_fp(angle);
            proof {
                mathx::lemma_mul_bounds(pr as int, c as int, 2 * radius as int, 1000);
                mathx::lemma_mul_bounds(pr as int, s as int, 2 * radius as int, 1000);
                mathx::lemma_div_trunc_bound(pr as int * c as int, 1000, 2 * radius);
                mathx::lemma_div_trunc_bound(pr as int * s as int, 1000, 2 * radius);
            }
            let px = mathx::div_i128(pr as i128 * c as i128, 1000) as i64;
            let py = mathx::div_i128(pr as i128 * s as i128, 1000) as i64;
            shape.push((px, py));
            proof {
                facs = facs.push(fac as int);
                assert(shape@[i as int] == asteroid_vertex(
                    radius as int,
                    points as int,
                    i as int,
                    fac as int,
                ));
            }
            i += 1;
        }
        proof {
            assert forall|i3: int|
                0 <= i3 < shape@.len() implies -1_000_000 <= (#[trigger] shape@[i3]).0
                    <= 1_000_000 && -1_000_000 <= shape@[i3].1 <= 1_000_000 by {
                assert(-2 * radius <= shape@[i3].0 <= 2 * radius);
                assert(-2 * radius <= shape@[i3].1 <= 2 * radius);
            }
        }
        let vel: i64 = rng::rand_u64(ASTEROID_VEL_MIN, ASTEROID_VEL_MAX) as i64;
        let va: u64 = rng::rand_angle();
        let c = trig::cos_fp(va);
        let s = trig::sin_fp(va);
        proof {
            mathx::lemma_mul_bounds(vel as int, c as int, ASTEROID_VEL_MAX as int, 1000);
            mathx::lemma_mul_bounds(vel as int, s as int, ASTEROID_VEL_MAX as int, 1000);
            mathx::lemma_div_trunc_bound(vel as int * c as int, 1000, ASTEROID_VEL_MAX as int);
            mathx::lemma_div_trunc_bound(vel as int * s as int, 1000, ASTEROID_VEL_MAX as int);
        }
        let vx = mathx::div_i128(vel as i128 * c as i128, 1000) as i64;
        let vy = mathx::div_i128(vel as i128 * s as i128, 1000) as i64;
        proof {
            assert(vx == trig::polar_x(vel as int, va as int) && vy == trig::polar_y(
                vel as int,
                va as int,
            ));
        }
        proof {
            assert forall|j: int| 0 <= j < shape@.len() implies jittered_vertex(
                #[trigger] shape@[j],
                radius as int,
                shape@.len() as int,
                j,
            ) by {
                assert(1000 - ASTEROID_JITTER_MILLI <= facs[j] < 1000 + ASTEROID_JITTER_MILLI
                    && shape@[j] == asteroid_vertex(
                    radius as int,
                    shape@.len() as int,
                    j,
                    facs[j],
                ));
            }
        }
        Asteroid { x, y, vx, vy, radius, shape }
    }

    /// Advance by `dt` ms and wrap back onto the field.
    pub fn tick(&mut self, dt: u64, w: i64, h: i64)
        requires
            0 < dt <= MAX_DT,
            1 <= w <= MAX_FIELD,
            1 <= h <= MAX_FIELD,
            asteroid_wf(*old(self), w as int, h as int),
        ensures
            final(self).x == wrap::wrap_val(old(self).x + old(self).vx * dt, w as int),
            final(self).y == wrap::wrap_val(old(self).y + old(self).vy * dt, h as int),
            final(self).vx == old(self).vx,
            final(self).vy == old(self).vy,
            final(self).radius == old(self).radius,
            final(self).shape == old(self).shape,
            asteroid_wf(*final(self), w as int, h as int),
    {
        proof {
            mathx::lemma_mul_bounds(self.vx as int, dt as int, MAX_SPEED as int, MAX_DT as int);
            mathx::lemma_mul_bounds(self.vy as int, dt as int, MAX_SPEED as int, MAX_DT as int);
        }
        self.x = wrap::wrap_coord(self.x + self.vx * dt as i64, w);
        self.y = wrap::wrap_coord(self.y + self.vy * dt as i64, h);
    }

    /// Pick a spawn point biased away from the player: sample up to the
    /// attempt budget, keep the candidate farthest (in squared distance)
    /// from `(px, py)`, and stop early once the target distance is met.
    /// Best effort: no minimum distance is guaranteed.
    pub fn get_spawn_location(px: i64, py: i64, w: i64, h: i64) -> (r: (i64, i64))
        requires
            1 <= w <= MAX_FIELD,
            1 <= h <= MAX_FIELD,
            0 <= px <= w,
            0 <= py <= h,
        ensures
            0 <= r.0 < w,
            0 <= r.1 < h,
    {
        let mut best: (i64, i64) = (0, 0);
        let mut best_sd: i64 = -1;
        let mut attempts: u64 = 0;
        while attempts < ASTEROID_MAX_SPAWN_ATTEMPTS && best_sd < ASTEROID_MIN_SPAWN_DIST_SQ
            invariant
                1 <= w <= MAX_FIELD,
                1 <= h <= MAX_FIELD,
                0 <= px <= w,
                0 <= py <= h,
                attempts > 0 ==> 0 <= best.0 < w && 0 <= best.1 < h,
                attempts == 0 ==> best_sd == -1,
                attempts > 0 ==> best_sd >= 0,
                0 <= attempts <= ASTEROID_MAX_SPAWN_ATTEMPTS,
            decreases ASTEROID_MAX_SPAWN_ATTEMPTS - attempts,
        {
            let cx = rng::rand_u64(0, w as u64) as i64;
            let cy = rng::rand_u64(0, h as u64) as i64;
            let dx = px - cx;
            let dy = py - cy;
            proof {
                mathx::lemma_mul_bounds(dx as int, dx as int, MAX_FIELD as int, MAX_FIELD as int);
                mathx::lemma_mul_bounds(dy as int, dy as int, MAX_FIELD as int, MAX_FIELD as int);
                assert(0 <= dx as int * dx as int && 0 <= dy as int * dy as int)
                    by (nonlinear_arith);
            }
            let sd = dx * dx + dy * dy;
            if sd > best_sd {
                best_sd = sd;
                best = (cx, cy);
            }
            attempts += 1;
        }
        best
    }

    /// Two half-radius children at this rock's position, or nothing if the
    /// half radius falls below the minimum.
    pub fn check_split(&self) -> (r: Option<Vec<Asteroid>>)
        requires
            10_000 <= self.radius <= ASTEROID_SPAWN_RADIUS_MAX,
        ensures
            (r is Some) <==> self.radius / 2 >= ASTEROID_MIN_RADIUS,
            r is Some ==> {
                let v = r->Some_0;
                &&& v@.len() == 2
                &&& forall|i: int|
                    0 <= i < 2 ==> (#[trigger] v@[i]).x == self.x && v@[i].y == self.y
                        && v@[i].radius == self.radius / 2 && v@[i].shape@.len() >= 3
                        && wrap::shape_ok(v@[i].shape@) && -MAX_SPEED <= v@[i].vx <= MAX_SPEED
                        && -MAX_SPEED <= v@[i].vy <= MAX_SPEED
            },
    {
        let r: i64 = ((self.radius as u64) / 2) as i64;
        if r < ASTEROID_MIN_RADIUS {
            return None;
        }
        let mut v: Vec<Asteroid> = Vec::new();
        v.push(Asteroid::new(self.x, self.y, r));
        v.push(Asteroid::new(self.x, self.y, r));
        Some(v)
    }

    /// The nine wrapped copies of this rock's hitbox.
    pub fn get_hitboxes(&self, w: i64, h: i64) -> (r: Vec<Vec<(i64, i64)>>)
        requires
            1 <= w <= MAX_FIELD,
            1 <= h <= MAX_FIELD,
            asteroid_wf(*self, w as int, h as int),
        ensures
            r@.len() == 9,
            forall|k: int| 0 <= k < 9 ==> (#[trigger] r@[k])@.len() == self.shape@.len() >= 3,
            forall|k: int, i: int|
                0 <= k < 9 && 0 <= i < self.shape@.len() ==> #[trigger] r@[k]@[i]
                    == wrap::hitbox_point(
                    self.shape@,
                    self.x as int,
                    self.y as int,
                    w as int,
                    h as int,
                    k,
                    i,
                ),
            forall|k: int| 0 <= k < 9 ==> crate::geom::poly_ok((#[trigger] r@[k])@),
    {
        wrap::wrapped_hitboxes(&self.shape, self.x, self.y, w, h)
    }

    pub fn get_x(&self) -> (r: i64)
        ensures
            r == self.x,
    {
        self.x
    }

    pub fn get_y(&self) -> (r: i64)
        ensures
            r == self.y,
    {
        self.y
    }

    pub fn get_radius(&self) -> (r: i64)
        ensures
            r == self.radius,
    {
        self.radius
    }
}

} // verus!
