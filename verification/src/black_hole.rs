//! Gravity wells: they grow linearly to a randomized full radius, hold,
//! then shrink away, pulling the player with an inverse-square force while
//! they live. They never collide with anything.

use vstd::prelude::*;
use crate::constants::{
    BLACK_HOLE_FORCE_FAC, BLACK_HOLE_GROWTH_RATE, BLACK_HOLE_HOLD_MAX, BLACK_HOLE_HOLD_MIN,
    BLACK_HOLE_MAX_RADIUS_MAX, BLACK_HOLE_MAX_RADIUS_MIN, BLACK_HOLE_RANGE_FAC,
    BLACK_HOLE_ROT_RATE, BLACK_HOLE_SHRINK_RATE, FULL_TURN, MAX_DT, MAX_FIELD, MAX_NOW,
};
use crate::mathx::{self, sqrt_floor};
use crate::rng;
use crate::trig;

verus! {

/// Cap on the pull a well may exert in one tick, per axis, in mu/ms.
pub const MAX_PULL: i64 = 1_000_000;

pub struct BlackHole {
    pub x: i64,
    pub y: i64,
    /// Visual swirl rotation, in angle units in [0, 3600).
    pub angle: u64,
    /// The radius the well grows to, in mu.
    pub max_radius: i64,
    /// Current radius, in mu; negative once the well has shrunk away.
    pub radius: i64,
    pub expanding: bool,
    /// When shrinking starts, in ms.
    pub shrink_time: u64,
}

pub open spec fn black_hole_wf(b: BlackHole, w: int, h: int) -> bool {
    &&& 0 <= b.x <= w
    &&& 0 <= b.y <= h
    &&& b.angle < FULL_TURN
    &&& BLACK_HOLE_MAX_RADIUS_MIN <= b.max_radius <= BLACK_HOLE_MAX_RADIUS_MAX
    &&& -1 <= b.radius <= b.max_radius
}

/// The pull of the well on a point, per axis: zero while the well has no
/// radius, the point is outside `RANGE_FAC` times the current radius, or the
/// point sits exactly on the centre; otherwise the inverse-square pull
/// `dt * radius * FORCE_FAC / d^2` directed along the offset, capped.
pub open spec fn well_force(b: BlackHole, px: int, py: int, dt: int) -> (int, int) {
    let dx = b.x - px;
    let dy = b.y - py;
    let d2 = dx * dx + dy * dy;
    let d = sqrt_floor(d2 as nat) as int;
    if b.radius <= 0 || d2 == 0 || d > BLACK_HOLE_RANGE_FAC * b.radius {
        (0, 0)
    } else {
        (
            mathx::clamp_val(
                mathx::div_trunc(dt * b.radius * BLACK_HOLE_FORCE_FAC * dx, d2 * d),
                -MAX_PULL as int,
                MAX_PULL as int,
            ),
            mathx::clamp_val(
                mathx::div_trunc(dt * b.radius * BLACK_HOLE_FORCE_FAC * dy, d2 * d),
                -MAX_PULL as int,
                MAX_PULL as int,
            ),
        )
    }
}

/// The well after one frame: grow until full (then stop expanding), shrink
/// once the hold is over (the radius rests at -1 when gone), and swirl.
pub open spec fn well_ticked(b: BlackHole, dt: int, now: u64) -> BlackHole {
    let angle = ((b.angle + BLACK_HOLE_ROT_RATE * dt) % (FULL_TURN as int)) as u64;
    if b.expanding {
        let grown = b.radius + BLACK_HOLE_GROWTH_RATE * dt;
        if grown >= b.max_radius {
            BlackHole { angle, radius: b.max_radius, expanding: false, ..b }
        } else {
            BlackHole { angle, radius: grown as i64, ..b }
        }
    } else {
        if now >= b.shrink_time {
            let shrunk = b.radius - BLACK_HOLE_SHRINK_RATE * dt;
            BlackHole { angle, radius: if shrunk < -1 { -1i64 } else { shrunk as i64 }, ..b }
        } else {
            BlackHole { angle, ..b }
        }
    }
}

impl BlackHole {
    /// A fresh well at a random spot, with a random full radius and hold
    /// time; it starts at radius zero and grows. Shrinking is scheduled for
    /// the moment growth completes plus the hold: `now + max_radius / growth
    /// rate + hold`.
    pub fn new(w: i64, h: i64, now: u64) -> (b: BlackHole)
        requires
            1 <= w <= MAX_FIELD,
            1 <= h <= MAX_FIELD,
            now <= MAX_NOW,
        ensures
            black_hole_wf(b, w as int, h as int),
            0 <= b.x < w,
            0 <= b.y < h,
            b.radius == 0,
            b.expanding,
            b.angle == 0,
            now + b.max_radius as int / (BLACK_HOLE_GROWTH_RATE as int) + BLACK_HOLE_HOLD_MIN
                <= b.shrink_time < now + b.max_radius as int / (BLACK_HOLE_GROWTH_RATE as int)
                + BLACK_HOLE_HOLD_MAX,
            now <= b.shrink_time <= now + 10_000_000,
    {
        let x = rng::rand_u64(0, w as u64) as i64;
        let y = rng::rand_u64(0, h as u64) as i64;
        let max_radius = rng::rand_u64(
            BLACK_HOLE_MAX_RADIUS_MIN as u64,
            BLACK_HOLE_MAX_RADIUS_MAX as u64,
        ) as i64;
        let hold = rng::rand_u64(BLACK_HOLE_HOLD_MIN, BLACK_HOLE_HOLD_MAX);
        // Time to grow to full radius, in ms, plus the hold time.
        let grow_ms: u64 = (max_radius as u64) / (BLACK_HOLE_GROWTH_RATE as u64);
        BlackHole {
            x,
            y,
            angle: 0,
            max_radius,
            radius: 0,
            expanding: true,
            shrink_time: now + grow_ms + hold,
        }
    }

    /// One frame: grow until full (then stop expanding), shrink once the
    /// hold is over, and swirl.
    pub fn tick(&mut self, dt: u64, now: u64)
        requires
            0 < dt <= MAX_DT,
            BLACK_HOLE_MAX_RADIUS_MIN <= old(self).max_radius <= BLACK_HOLE_MAX_RADIUS_MAX,
            -1 <= old(self).radius <= old(self).max_radius,
            old(self).angle < FULL_TURN,
        ensures
            final(self).x == old(self).x,
            final(self).y == old(self).y,
            final(self).max_radius == old(self).max_radius,
            final(self).shrink_time == old(self).shrink_time,
            final(self).angle == (old(self).angle + BLACK_HOLE_ROT_RATE * dt) % (FULL_TURN as int),
            old(self).expanding ==> ({
                let grown = old(self).radius + BLACK_HOLE_GROWTH_RATE * dt;
                if grown >= old(self).max_radius {
                    final(self).radius == old(self).max_radius && !final(self).expanding
                } else {
                    final(self).radius == grown && final(self).expanding
                }
            }),
            !old(self).expanding ==> !final(self).expanding && final(self).radius == (
            if now >= old(self).shrink_time {
                let shrunk = old(self).radius - BLACK_HOLE_SHRINK_RATE * dt;
                if shrunk < -1 {
                    -1int
                } else {
                    shrunk
                }
            } else {
                old(self).radius as int
            }),
            -1 <= final(self).radius <= final(self).max_radius,
            *final(self) == well_ticked(*old(self), dt as int, now),
    {
        if self.expanding {
            let grown = self.radius + BLACK_HOLE_GROWTH_RATE * dt as i64;
            if grown >= self.max_radius {
                self.radius = self.max_radius;
                self.expanding = false;
            } else {
                self.radius = grown;
            }
        } else if now >= self.shrink_time {
            let shrunk = self.radius - BLACK_HOLE_SHRINK_RATE * dt as i64;
            self.radius = if shrunk < -1 {
                -1
            } else {
                shrunk
            };
        }
        self.angle = trig::angle_add(self.angle, BLACK_HOLE_ROT_RATE * dt);
    }

    /// The pull on the point `(px, py)` this tick; add it to the player's
    /// velocity.
    pub fn get_force(&self, px: i64, py: i64, dt: u64) -> (f: (i64, i64))
        requires
            0 < dt <= MAX_DT,
            0 <= self.x <= MAX_FIELD,
            0 <= self.y <= MAX_FIELD,
            0 <= px <= MAX_FIELD,
            0 <= py <= MAX_FIELD,
            -1 <= self.radius <= BLACK_HOLE_MAX_RADIUS_MAX,
        ensures
            f.0 == well_force(*self, px as int, py as int, dt as int).0,
            f.1 == well_force(*self, px as int, py as int, dt as int).1,
            -MAX_PULL <= f.0 <= MAX_PULL,
            -MAX_PULL <= f.1 <= MAX_PULL,
    {
        let dx: i64 = self.x - px;
        let dy: i64 = self.y - py;
        proof {
            mathx::lemma_mul_bounds(dx as int, dx as int, MAX_FIELD as int, MAX_FIELD as int);
            mathx::lemma_mul_bounds(dy as int, dy as int, MAX_FIELD as int, MAX_FIELD as int);
            assert(0 <= dx as int * dx as int && 0 <= dy as int * dy as int) by (nonlinear_arith);
        }
        let d2: i64 = dx * dx + dy * dy;
        let d_u: u128 = mathx::isqrt_u128(d2 as u128);
        proof {
            mathx::lemma_sqrt_floor_bounds(d2 as nat);
            assert(d_u as int * d_u as int <= d2);
            assert(d_u <= 60_000_000) by (nonlinear_arith)
                requires
                    d_u as int * d_u as int <= d2 as int,
                    d2 as int <= 3_600_000_000_000_000,
            ;
        }
        let d: i64 = d_u as i64;
        if self.radius <= 0 || d2 == 0 || d > BLACK_HOLE_RANGE_FAC * self.radius {
            return (0, 0);
        }
        proof {
            mathx::lemma_sqrt_floor_at_least(d2 as nat, 1);
            mathx::lemma_mul_bounds(dt as int, self.radius as int, MAX_DT as int, 300_000);
            mathx::lemma_mul_bounds(
                dt as int * self.radius as int,
                BLACK_HOLE_FORCE_FAC as int,
                3_000_000_000,
                BLACK_HOLE_FORCE_FAC as int,
            );
            mathx::lemma_mul_bounds(
                dt as int * self.radius as int * BLACK_HOLE_FORCE_FAC as int,
                dx as int,
                600_000_000_000_000,
                MAX_FIELD as int,
            );
            mathx::lemma_mul_bounds(
                dt as int * self.radius as int * BLACK_HOLE_FORCE_FAC as int,
                dy as int,
                600_000_000_000_000,
                MAX_FIELD as int,
            );
            mathx::lemma_mul_bounds(d2 as int, d as int, 3_600_000_000_000_000, 60_000_000);
            assert(0 < d2 as int * d as int) by (nonlinear_arith)
                requires
                    d2 > 0,
                    d > 0,
            ;
            assert(mathx::abs_nat(dx as int) * mathx::abs_nat(dx as int) <= d2
                && mathx::abs_nat(dy as int) * mathx::abs_nat(dy as int) <= d2)
                by (nonlinear_arith)
                requires
                    d2 == dx as int * dx as int + dy as int * dy as int,
            ;
            mathx::lemma_sqrt_floor_at_least(d2 as nat, mathx::abs_nat(dx as int));
            mathx::lemma_sqrt_floor_at_least(d2 as nat, mathx::abs_nat(dy as int));
        }
        let num: i128 = dt as i128 * self.radius as i128 * BLACK_HOLE_FORCE_FAC as i128;
        let den: i128 = d2 as i128 * d as i128;
        proof {
            assert(-(den as int * 600_000_000_000_000) <= num as int * dx as int
                <= den as int * 600_000_000_000_000
                && -(den as int * 600_000_000_000_000) <= num as int * dy as int
                <= den as int * 600_000_000_000_000) by (nonlinear_arith)
                requires
                    0 <= num as int <= 600_000_000_000_000,
                    mathx::abs_nat(dx as int) <= d as int,
                    mathx::abs_nat(dy as int) <= d as int,
                    den as int == d2 as int * d as int,
                    d2 as int >= 1,
                    d as int >= 1,
            ;
            mathx::lemma_div_trunc_bound(num as int * dx as int, den as int, 600_000_000_000_000);
            mathx::lemma_div_trunc_bound(num as int * dy as int, den as int, 600_000_000_000_000);
        }
        let fx = mathx::clamp_i64(
            mathx::div_i128(num * dx as i128, den) as i64,
            -MAX_PULL,
            MAX_PULL,
        );
        let fy = mathx::clamp_i64(
            mathx::div_i128(num * dy as i128, den) as i64,
            -MAX_PULL,
            MAX_PULL,
        );
        (fx, fy)
    }

    /// Whether the well still exists: a well lives while it is still
    /// growing (it spawns at radius zero) or still has positive radius;
    /// once shrunk back to zero it is removed.
    pub fn is_alive(&self) -> (r: bool)
        ensures
            r == (self.radius > 0 || self.expanding),
    {
        self.radius > 0 || self.expanding
    }
}

} // verus!
