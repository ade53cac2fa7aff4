//! Hostile aliens: saucers entering from a field edge, firing at a
//! score-scaled cadence with one of three targeting strategies fixed at
//! spawn. The Future strategy leads the player with the intercept solver.

use vstd::prelude::*;
use crate::bullet::{bullet_wf, Bullet};
use crate::constants::{
    ALIEN_CURRENT_MIN_POINTS, ALIEN_CURRENT_RATE_MILLI, ALIEN_CURRENT_VEL_MAX,
    ALIEN_CURRENT_VEL_MIN, ALIEN_FIRST_SHOT_DELAY, ALIEN_FUTURE_MIN_POINTS,
    ALIEN_FUTURE_RATE_MILLI, ALIEN_FUTURE_VEL_MAX, ALIEN_FUTURE_VEL_MIN, ALIEN_RANDOM_MIN_POINTS,
    ALIEN_RANDOM_RATE_MILLI, ALIEN_RANDOM_VEL_MAX, ALIEN_RANDOM_VEL_MIN, ALIEN_SHOOT_RADIUS,
    BULLET_SPEED, MAX_DT, MAX_FIELD, MAX_NOW, MAX_SPEED,
};
use crate::mathx;
use crate::rng;
use crate::targeting;
use crate::trig;
use crate::wrap;

verus! {

/// How an alien picks its aim: a uniformly random angle, the player's
/// current position, or a predicted intercept of the player's future
/// position.
#[derive(Clone, Copy, PartialEq, Eq, Structural)]
pub enum ShootingType {
    Random,
    Current,
    Future,
}

/// The score at which a strategy becomes available.
pub open spec fn strategy_min_points(ty: ShootingType) -> u64 {
    match ty {
        ShootingType::Random => ALIEN_RANDOM_MIN_POINTS,
        ShootingType::Current => ALIEN_CURRENT_MIN_POINTS,
        ShootingType::Future => ALIEN_FUTURE_MIN_POINTS,
    }
}

pub open spec fn strategy_unlocked(ty: ShootingType, score: u64) -> bool {
    score >= strategy_min_points(ty)
}

/// Milli-shots per second per point of score, for each strategy.
pub open spec fn strategy_rate_milli(ty: ShootingType) -> u64 {
    match ty {
        ShootingType::Random => ALIEN_RANDOM_RATE_MILLI,
        ShootingType::Current => ALIEN_CURRENT_RATE_MILLI,
        ShootingType::Future => ALIEN_FUTURE_RATE_MILLI,
    }
}

/// The pause between successful shots: `1000 / (score * rate)` ms, where the
/// rate is in shots per second. Zero score never arises while an alien
/// lives; it is mapped to the longest pause.
pub open spec fn shot_delay(ty: ShootingType, score: u64) -> int {
    if score == 0 {
        1_000_000
    } else if score > 1_000_000 {
        0
    } else {
        1_000_000int / (score * strategy_rate_milli(ty)) as int
    }
}

/// The speed range an alien of each strategy drifts at, in mu/ms.
pub open spec fn strategy_vel_min(ty: ShootingType) -> u64 {
    match ty {
        ShootingType::Random => ALIEN_RANDOM_VEL_MIN,
        ShootingType::Current => ALIEN_CURRENT_VEL_MIN,
        ShootingType::Future => ALIEN_FUTURE_VEL_MIN,
    }
}

pub open spec fn strategy_vel_max(ty: ShootingType) -> u64 {
    match ty {
        ShootingType::Random => ALIEN_RANDOM_VEL_MAX,
        ShootingType::Current => ALIEN_CURRENT_VEL_MAX,
        ShootingType::Future => ALIEN_FUTURE_VEL_MAX,
    }
}

/// The muzzle an alien at `(ax, ay)` fires from when its target sits at
/// offset `(dx, dy)`: one shoot radius along that direction.
pub open spec fn muzzle_x(ax: int, dx: int, dy: int) -> int {
    ax + mathx::scaled_x(dx, dy, ALIEN_SHOOT_RADIUS as int)
}

pub open spec fn muzzle_y(ay: int, dx: int, dy: int) -> int {
    ay + mathx::scaled_y(dx, dy, ALIEN_SHOOT_RADIUS as int)
}

/// Whether a shot attempt succeeds. Random always fires. Current skips only
/// when the player sits exactly on the shooter or on its muzzle, where no
/// direction exists. Future additionally needs the intercept solver to find
/// a positive-time solution that is not the muzzle itself; a skipped shot is
/// retried on the next tick.
pub open spec fn shot_fired(
    ty: ShootingType,
    ax: int,
    ay: int,
    px: int,
    py: int,
    pvx: int,
    pvy: int,
) -> bool {
    let dx = px - ax;
    let dy = py - ay;
    match ty {
        ShootingType::Random => true,
        ShootingType::Current => !(dx == 0 && dy == 0) && !(px - muzzle_x(ax, dx, dy) == 0 && py
            - muzzle_y(ay, dx, dy) == 0),
        ShootingType::Future => !(dx == 0 && dy == 0) && ({
            let rx = px - muzzle_x(ax, dx, dy);
            let ry = py - muzzle_y(ay, dx, dy);
            &&& targeting::icpt_has_solution(rx, ry, pvx, pvy, BULLET_SPEED as int)
            &&& !(targeting::icpt_aim(rx, ry, pvx, pvy, BULLET_SPEED as int) == (0int, 0int))
        }),
    }
}

/// A fresh alien sits on one edge of the field and drifts inward along that
/// edge's normal, at a speed from its strategy's range.
pub open spec fn alien_entry_ok(a: Alien, w: int, h: int) -> bool {
    let lo = strategy_vel_min(a.shooting_type) as int;
    let hi = strategy_vel_max(a.shooting_type) as int;
    ||| (a.y == 0 && a.vx == 0 && lo <= a.vy < hi)
    ||| (a.x == 0 && a.vy == 0 && lo <= a.vx < hi)
    ||| (a.y == h && a.vx == 0 && -hi < a.vy <= -lo)
    ||| (a.x == w && a.vy == 0 && -hi < a.vx <= -lo)
}

/// What a successful shot produces: a fresh alien-owned bullet leaving the
/// muzzle at bullet speed. Random aims along a random angle; Current heads
/// for the player's position; Future heads for the solver's intercept point.
pub open spec fn fired_bullet_ok(
    ty: ShootingType,
    ax: int,
    ay: int,
    px: int,
    py: int,
    pvx: int,
    pvy: int,
    b: Bullet,
    now: u64,
) -> bool {
    let fresh = !b.is_player_shot && b.death == now + crate::constants::BULLET_LIFESPAN
        && b.last_particle == now && b.to_die == false && b.particles_to_spawn@.len() == 0;
    match ty {
        ShootingType::Random => fresh && exists|ang: int|
            0 <= ang < 3600 && b.x == ax + #[trigger] trig::polar_x(ALIEN_SHOOT_RADIUS as int, ang)
                && b.y == ay + trig::polar_y(ALIEN_SHOOT_RADIUS as int, ang) && b.vx
                == trig::polar_x(BULLET_SPEED as int, ang) && b.vy == trig::polar_y(
                BULLET_SPEED as int,
                ang,
            ),
        ShootingType::Current => {
            let dx = px - ax;
            let dy = py - ay;
            let mx = muzzle_x(ax, dx, dy);
            let my = muzzle_y(ay, dx, dy);
            &&& fresh
            &&& b.x == mx
            &&& b.y == my
            &&& b.vx == mathx::scaled_x(px - mx, py - my, BULLET_SPEED as int)
            &&& b.vy == mathx::scaled_y(px - mx, py - my, BULLET_SPEED as int)
        },
        ShootingType::Future => {
            let dx = px - ax;
            let dy = py - ay;
            let mx = muzzle_x(ax, dx, dy);
            let my = muzzle_y(ay, dx, dy);
            let aim = targeting::icpt_aim(px - mx, py - my, pvx, pvy, BULLET_SPEED as int);
            &&& fresh
            &&& b.x == mx
            &&& b.y == my
            &&& b.vx == mathx::scaled_x(aim.0, aim.1, BULLET_SPEED as int)
            &&& b.vy == mathx::scaled_y(aim.0, aim.1, BULLET_SPEED as int)
        },
    }
}

pub struct Alien {
    pub x: i64,
    pub y: i64,
    pub vx: i64,
    pub vy: i64,
    pub shooting_type: ShootingType,
    /// The next instant a shot may be attempted, in ms.
    pub next_shot: u64,
    /// A bullet fired this tick, to be collected by the world.
    pub bullet: Option<Bullet>,
}

pub open spec fn alien_wf(a: Alien, w: int, h: int) -> bool {
    &&& 0 <= a.x <= w
    &&& 0 <= a.y <= h
    &&& -MAX_SPEED <= a.vx <= MAX_SPEED
    &&& -MAX_SPEED <= a.vy <= MAX_SPEED
    &&& match a.bullet {
        Option::Some(b) => bullet_wf(b, w, h),
        Option::None => true,
    }
}

/// The saucer silhouette drawn and collided for each strategy, in local mu
/// offsets.
pub fn alien_shape(ty: &ShootingType) -> (r: Vec<(i64, i64)>)
    ensures
        r@.len() >= 3,
        wrap::shape_ok(r@),
        r@ == alien_shape_spec(*ty),
{
    let mut v: Vec<(i64, i64)> = Vec::new();
    match ty {
        ShootingType::Random => {
            v.push((-30_000, 0));
            v.push((-12_000, -12_000));
            v.push((12_000, -12_000));
            v.push((30_000, 0));
            v.push((12_000, 12_000));
            v.push((-12_000, 12_000));
            proof {
                assert(v@ =~= alien_shape_spec(*ty));
            }
        },
        ShootingType::Current => {
            v.push((-33_000, 0));
            v.push((-15_000, -15_000));
            v.push((15_000, -15_000));
            v.push((33_000, 0));
            v.push((15_000, 15_000));
            v.push((-15_000, 15_000));
            proof {
                assert(v@ =~= alien_shape_spec(*ty));
            }
        },
        ShootingType::Future => {
            v.push((-36_000, 0));
            v.push((-18_000, -18_000));
            v.push((0, -24_000));
            v.push((18_000, -18_000));
            v.push((36_000, 0));
            v.push((18_000, 18_000));
            v.push((-18_000, 18_000));
            proof {
                assert(v@ =~= alien_shape_spec(*ty));
            }
        },
    }
    v
}

pub open spec fn alien_shape_spec(ty: ShootingType) -> Seq<(i64, i64)> {
    match ty {
        ShootingType::Random => seq![
            (-30_000i64, 0i64),
            (-12_000i64, -12_000i64),
            (12_000i64, -12_000i64),
            (30_000i64, 0i64),
            (12_000i64, 12_000i64),
            (-12_000i64, 12_000i64),
        ],
        ShootingType::Current => seq![
            (-33_000i64, 0i64),
            (-15_000i64, -15_000i64),
            (15_000i64, -15_000i64),
            (33_000i64, 0i64),
            (15_000i64, 15_000i64),
            (-15_000i64, 15_000i64),
        ],
        ShootingType::Future => seq![
            (-36_000i64, 0i64),
            (-18_000i64, -18_000i64),
            (0i64, -24_000i64),
            (18_000i64, -18_000i64),
            (36_000i64, 0i64),
            (18_000i64, 18_000i64),
            (-18_000i64, 18_000i64),
        ],
    }
}

impl Alien {
    /// Try to spawn an alien: one appears only if the score has unlocked at
    /// least one strategy, picked uniformly among the unlocked ones; it
    /// enters from a random edge of the field, drifting inward at a random
    /// speed from its strategy's range, and may shoot one second later.
    pub fn new(score: u64, w: i64, h: i64, now: u64) -> (r: Option<Alien>)
        requires
            1 <= w <= MAX_FIELD,
            1 <= h <= MAX_FIELD,
            now <= MAX_NOW,
        ensures
            (r is Some) <==> score >= ALIEN_RANDOM_MIN_POINTS,
            r is Some ==> ({
                let a = r->Some_0;
                &&& alien_wf(a, w as int, h as int)
                &&& strategy_unlocked(a.shooting_type, score)
                &&& a.x == 0 || a.x == w || a.y == 0 || a.y == h
                &&& alien_entry_ok(a, w as int, h as int)
                &&& a.next_shot == now + ALIEN_FIRST_SHOT_DELAY
                &&& a.bullet is None
            }),
    {
        let mut available: Vec<ShootingType> = Vec::new();
        if score >= ALIEN_RANDOM_MIN_POINTS {
            available.push(ShootingType::Random);
        }
        if score >= ALIEN_CURRENT_MIN_POINTS {
            available.push(ShootingType::Current);
        }
        if score >= ALIEN_FUTURE_MIN_POINTS {
            available.push(ShootingType::Future);
        }
        if available.len() == 0 {
            return None;
        }
        proof {
            assert(forall|i: int|
                0 <= i < available@.len() ==> strategy_unlocked(#[trigger] available@[i], score));
        }
        let idx = rng::rand_u64(0, available.len() as u64) as usize;
        let ty = available[idx];
        let side = rng::rand_u64(0, 4);
        let (x, y, dx, dy): (i64, i64, i64, i64) = if side == 0 {
            (rng::rand_u64(0, w as u64) as i64, 0, 0, 1)
        } else if side == 1 {
            (0, rng::rand_u64(0, h as u64) as i64, 1, 0)
        } else if side == 2 {
            (rng::rand_u64(0, w as u64) as i64, h, 0, -1)
        } else {
            (w, rng::rand_u64(0, h as u64) as i64, -1, 0)
        };
        let (vel_lo, vel_hi): (u64, u64) = match ty {
            ShootingType::Random => (ALIEN_RANDOM_VEL_MIN, ALIEN_RANDOM_VEL_MAX),
            ShootingType::Current => (ALIEN_CURRENT_VEL_MIN, ALIEN_CURRENT_VEL_MAX),
            ShootingType::Future => (ALIEN_FUTURE_VEL_MIN, ALIEN_FUTURE_VEL_MAX),
        };
        let vel = rng::rand_u64(vel_lo, vel_hi) as i64;
        proof {
            assert(vel_lo == strategy_vel_min(ty) && vel_hi == strategy_vel_max(ty));
            assert(dx * vel == (if dx == 1 { vel as int } else if dx == -1 { -vel as int } else { 0int })
                && dy * vel == (if dy == 1 { vel as int } else if dy == -1 { -vel as int } else { 0int }))
                by (nonlinear_arith)
                requires
                    dx == 1 || dx == 0 || dx == -1,
                    dy == 1 || dy == 0 || dy == -1,
            ;
        }
        Some(
            Alien {
                x,
                y,
                vx: dx * vel,
                vy: dy * vel,
                shooting_type: ty,
                next_shot: now + ALIEN_FIRST_SHOT_DELAY,
                bullet: None,
            },
        )
    }

    /// Advance by `dt` ms, wrap onto the field, and attempt a shot when the
    /// cadence deadline has passed. A successful shot leaves the bullet in
    /// `bullet` and reschedules the deadline; a skipped shot (the Future
    /// solver found no intercept, or the player sits exactly on the shooter)
    /// leaves the deadline alone so the alien retries next tick.
    pub fn tick(&mut self, dt: u64, now: u64, score: u64, player: (i64, i64, i64, i64), w: i64, h: i64)
        requires
            0 < dt <= MAX_DT,
            now <= MAX_NOW,
            1 <= w <= MAX_FIELD,
            1 <= h <= MAX_FIELD,
            alien_wf(*old(self), w as int, h as int),
            0 <= player.0 <= w,
            0 <= player.1 <= h,
            -MAX_SPEED <= player.2 <= MAX_SPEED,
            -MAX_SPEED <= player.3 <= MAX_SPEED,
        ensures
            final(self).x == wrap::wrap_val(old(self).x + old(self).vx * dt, w as int),
            final(self).y == wrap::wrap_val(old(self).y + old(self).vy * dt, h as int),
            final(self).vx == old(self).vx,
            final(self).vy == old(self).vy,
            final(self).shooting_type == old(self).shooting_type,
            alien_wf(*final(self), w as int, h as int),
            now < old(self).next_shot ==> final(self).next_shot == old(self).next_shot
                && final(self).bullet == old(self).bullet,
            now >= old(self).next_shot ==> ({
                let fired = shot_fired(
                    old(self).shooting_type,
                    final(self).x as int,
                    final(self).y as int,
                    player.0 as int,
                    player.1 as int,
                    player.2 as int,
                    player.3 as int,
                );
                &&& (fired ==> final(self).bullet is Some
                    && (final(self).bullet->Some_0).is_player_shot == false
                    && final(self).next_shot == now + shot_delay(old(self).shooting_type, score)
                    && fired_bullet_ok(
                    old(self).shooting_type,
                    final(self).x as int,
                    final(self).y as int,
                    player.0 as int,
                    player.1 as int,
                    player.2 as int,
                    player.3 as int,
                    final(self).bullet->Some_0,
                    now,
                ))
                &&& (!fired ==> final(self).bullet == old(self).bullet && final(self).next_shot
                    == old(self).next_shot)
            }),
        {
        proof {
            mathx::lemma_mul_bounds(self.vx as int, dt as int, MAX_SPEED as int, MAX_DT as int);
            mathx::lemma_mul_bounds(self.vy as int, dt as int, MAX_SPEED as int, MAX_DT as int);
        }
        self.x = wrap::wrap_coord(self.x + self.vx * dt as i64, w);
        self.y = wrap::wrap_coord(self.y + self.vy * dt as i64, h);
        if now >= self.next_shot {
            let fired = self.shoot(player.0, player.1, player.2, player.3, now, w, h);
            if fired {
                let rate = match self.shooting_type {
                    ShootingType::Random => ALIEN_RANDOM_RATE_MILLI,
                    ShootingType::Current => ALIEN_CURRENT_RATE_MILLI,
                    ShootingType::Future => ALIEN_FUTURE_RATE_MILLI,
                };
                let delay: u64 = if score == 0 {
                    1_000_000
                } else if score > 1_000_000 {
                    0
                } else {
                    1_000_000 / (score * rate)
                };
                self.next_shot = now + delay;
            }
        }
    }

    /// Aim and fire one bullet from the muzzle, one shoot radius from the
    /// centre towards the aim. Returns whether a shot was fired.
    fn shoot(&mut self, px: i64, py: i64, pvx: i64, pvy: i64, now: u64, w: i64, h: i64) -> (fired:
        bool)
        requires
            now <= MAX_NOW,
            1 <= w <= MAX_FIELD,
            1 <= h <= MAX_FIELD,
            0 <= old(self).x <= w,
            0 <= old(self).y <= h,
            0 <= px <= w,
            0 <= py <= h,
            -MAX_SPEED <= pvx <= MAX_SPEED,
            -MAX_SPEED <= pvy <= MAX_SPEED,
        ensures
            final(self).x == old(self).x,
            final(self).y == old(self).y,
            final(self).vx == old(self).vx,
            final(self).vy == old(self).vy,
            final(self).shooting_type == old(self).shooting_type,
            final(self).next_shot == old(self).next_shot,
            fired == shot_fired(
                old(self).shooting_type,
                old(self).x as int,
                old(self).y as int,
                px as int,
                py as int,
                pvx as int,
                pvy as int,
            ),
            fired ==> final(self).bullet is Some && (final(self).bullet->Some_0).is_player_shot
                == false && bullet_wf(final(self).bullet->Some_0, w as int, h as int)
                && fired_bullet_ok(
                old(self).shooting_type,
                old(self).x as int,
                old(self).y as int,
                px as int,
                py as int,
                pvx as int,
                pvy as int,
                final(self).bullet->Some_0,
                now,
            ),
            !fired ==> final(self).bullet == old(self).bullet,
    {
        match self.shooting_type {
            ShootingType::Random => {
                let angle = rng::rand_angle();
                let c = trig::cos_fp(angle);
                let s = trig::sin_fp(angle);
                proof {
                    mathx::lemma_mul_bounds(ALIEN_SHOOT_RADIUS as int, c as int, 30_000, 1000);
                    mathx::lemma_mul_bounds(ALIEN_SHOOT_RADIUS as int, s as int, 30_000, 1000);
                    mathx::lemma_div_trunc_bound(
                        ALIEN_SHOOT_RADIUS as int * c as int,
                        1000,
                        ALIEN_SHOOT_RADIUS as int,
                    );
                    mathx::lemma_div_trunc_bound(
                        ALIEN_SHOOT_RADIUS as int * s as int,
                        1000,
                        ALIEN_SHOOT_RADIUS as int,
                    );
                }
                let mx = self.x + mathx::div_i128(ALIEN_SHOOT_RADIUS as i128 * c as i128, 1000)
                    as i64;
                let my = self.y + mathx::div_i128(ALIEN_SHOOT_RADIUS as i128 * s as i128, 1000)
                    as i64;
                self.bullet = Some(Bullet::new(mx, my, angle, false, now));
                proof {
                    let b = self.bullet->Some_0;
                    assert(b.x == self.x + trig::polar_x(ALIEN_SHOOT_RADIUS as int, angle as int)
                        && b.y == self.y + trig::polar_y(ALIEN_SHOOT_RADIUS as int, angle as int)
                        && b.vx == trig::polar_x(BULLET_SPEED as int, angle as int) && b.vy
                        == trig::polar_y(BULLET_SPEED as int, angle as int));
                }
                true
            },
            ShootingType::Current => {
                let dx = px - self.x;
                let dy = py - self.y;
                if dx == 0 && dy == 0 {
                    return false;
                }
                let (ox, oy) = mathx::scale_dir(dx, dy, ALIEN_SHOOT_RADIUS);
                let mx = self.x + ox;
                let my = self.y + oy;
                let bdx = px - mx;
                let bdy = py - my;
                if bdx == 0 && bdy == 0 {
                    return false;
                }
                self.bullet = Some(Bullet::new_aimed(mx, my, bdx, bdy, false, now));
                true
            },
            ShootingType::Future => {
                let dx = px - self.x;
                let dy = py - self.y;
                if dx == 0 && dy == 0 {
                    return false;
                }
                let (ox, oy) = mathx::scale_dir(dx, dy, ALIEN_SHOOT_RADIUS);
                let mx = self.x + ox;
                let my = self.y + oy;
                let rx = px - mx;
                let ry = py - my;
                match targeting::solve_intercept(rx, ry, pvx, pvy, BULLET_SPEED) {
                    None => false,
                    Some((ax, ay)) => {
                        if ax == 0 && ay == 0 {
                            return false;
                        }
                        self.bullet = Some(Bullet::new_aimed(mx, my, ax, ay, false, now));
                        true
                    },
                }
            },
        }
    }

    /// Hand over the bullet fired this tick, if any.
    pub fn get_bullet(&mut self) -> (r: Option<Bullet>)
        ensures
            r == old(self).bullet,
            final(self).bullet is None,
            final(self).x == old(self).x,
            final(self).y == old(self).y,
            final(self).vx == old(self).vx,
            final(self).vy == old(self).vy,
            final(self).shooting_type == old(self).shooting_type,
            final(self).next_shot == old(self).next_shot,
    {
        self.bullet.take()
    }

    /// The nine wrapped copies of this alien's hitbox.
    pub fn get_hitboxes(&self, w: i64, h: i64) -> (r: Vec<Vec<(i64, i64)>>)
        requires
            1 <= w <= MAX_FIELD,
            1 <= h <= MAX_FIELD,
            0 <= self.x <= w,
            0 <= self.y <= h,
        ensures
            r@.len() == 9,
            forall|k: int|
                0 <= k < 9 ==> (#[trigger] r@[k])@.len() == alien_shape_spec(self.shooting_type).len() >= 3,
            forall|k: int, i: int|
                0 <= k < 9 && 0 <= i < alien_shape_spec(self.shooting_type).len()
                    ==> #[trigger] r@[k]@[i] == wrap::hitbox_point(
                    alien_shape_spec(self.shooting_type),
                    self.x as int,
                    self.y as int,
                    w as int,
                    h as int,
                    k,
                    i,
                ),
            forall|k: int| 0 <= k < 9 ==> crate::geom::poly_ok((#[trigger] r@[k])@),
    {
        let shape = alien_shape(&self.shooting_type);
        wrap::wrapped_hitboxes(&shape, self.x, self.y, w, h)
    }

    pub fn get_type(&self) -> (t: ShootingType)
        ensures
            t == self.shooting_type,
    {
        self.shooting_type
    }

    pub fn get_x(&self) -> (r: i64)
        ensures
            r == self.x,
    {
        self.x
    }

    pub fn get_y(&self) -> (r: i64)
        ensures
            r == self.y,
    {
        self.y
    }
}

} // verus!
